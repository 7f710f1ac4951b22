//! The ticket ballot: votes are paid for with tickets.
//!
//! A fixed supply of tickets is sold at a fixed price; a vote of weight `q`
//! spends `q` tickets of the voter. [`TicketBallot`] is the mathematical
//! model with its transitions [`TicketBallot::buy`] and [`TicketBallot::cast`]
//! and the laws that hold of them, chief among them that tickets are neither
//! created nor lost. [`Voting`] is the executable ledger, specified by what
//! each operation does to its view, a `TicketBallot`.

use crate::registry::{registrable, CandidateRegistry};
use crate::storage::{
    count_map_get, count_map_insert, count_map_len, count_map_new, counts, pair_counts,
    pair_map_get, pair_map_insert, pair_map_len, pair_map_new, CountMap, PairMap,
};
use crate::sums::{count_at, lemma_count_le_total, lemma_total_empty, lemma_total_insert, total};
use ink_env::AccountId;
use vstd::prelude::*;
use vstd::set_lib::lemma_len_subset;

pub use crate::voting::{Standing, VoteEvent};

verus! {

/// One request to a ticket ballot.
pub enum Action {
    /// `owner` pays `value` for tickets.
    Buy { owner: AccountId, value: nat },
    /// `voter` casts `amount` votes for `candidate`.
    Cast { voter: AccountId, candidate: AccountId, amount: nat },
}

/// The state of a ticket ballot.
pub struct TicketBallot {
    /// The candidates, in registration order.
    pub candidates: Seq<AccountId>,
    /// The tallies. A candidate nobody has voted for yet has no entry.
    pub tallies: Map<AccountId, nat>,
    /// The number of tickets issued when the ballot was opened.
    pub total_tickets: nat,
    /// The tickets not sold yet.
    pub remaining: nat,
    /// The price of one ticket.
    pub unit_price: nat,
    /// The unspent tickets of each account that ever bought any.
    pub balances: Map<AccountId, nat>,
    /// The votes cast so far, per (voter, candidate).
    pub pair_votes: Map<(AccountId, AccountId), nat>,
}

impl TicketBallot {
    /// The ballot right after construction: nothing sold, nothing cast.
    pub open spec fn opened(candidates: Seq<AccountId>, total_tickets: nat, unit_price: nat) -> TicketBallot {
        TicketBallot {
            candidates,
            tallies: Map::empty(),
            total_tickets,
            remaining: total_tickets,
            unit_price,
            balances: Map::empty(),
            pair_votes: Map::empty(),
        }
    }

    /// The invariant of a ticket ballot.
    ///
    /// Besides the shape of the registry and of the books, it holds the
    /// conservation laws: every ticket issued is unsold, unspent in some
    /// balance, or counted in some tally; and the votes recorded per pair add
    /// up to the votes counted, over all candidates and for each of them.
    pub open spec fn wf(self) -> bool {
        &&& registrable(self.candidates)
        &&& self.total_tickets <= u32::MAX
        &&& self.unit_price <= u32::MAX
        &&& self.tallies.dom().finite()
        &&& self.balances.dom().finite()
        &&& self.pair_votes.dom().finite()
        &&& forall|c: AccountId| self.tallies.contains_key(c) ==> self.candidates.contains(c)
        &&& forall|v: AccountId, c: AccountId| #[trigger]
            self.pair_votes.contains_key((v, c)) ==> self.candidates.contains(c)
        &&& total(self.balances) + total(self.tallies) + self.remaining == self.total_tickets
        &&& total(self.pair_votes) == total(self.tallies)
        &&& forall|c: AccountId| #[trigger] self.tally_matches_pairs(c)
    }

    /// The part of the pair book that records votes for `c`.
    pub open spec fn votes_cast_for(self, c: AccountId) -> Map<(AccountId, AccountId), nat> {
        self.pair_votes.restrict(Set::new(|pair: (AccountId, AccountId)| pair.1 == c))
    }

    /// The tally of `c` is the sum of what the voters have cast for `c`.
    pub open spec fn tally_matches_pairs(self, c: AccountId) -> bool {
        total(self.votes_cast_for(c)) == self.votes_for(c)
    }

    /// Whether `c` may receive votes.
    pub open spec fn is_candidate(self, c: AccountId) -> bool {
        self.candidates.contains(c)
    }

    /// The votes counted for `c`.
    pub open spec fn votes_for(self, c: AccountId) -> nat {
        count_at(self.tallies, c)
    }

    /// The unspent tickets of `owner`.
    pub open spec fn balance_of(self, owner: AccountId) -> nat {
        count_at(self.balances, owner)
    }

    /// The votes that `voter` has cast for `candidate`.
    pub open spec fn votes_between(self, voter: AccountId, candidate: AccountId) -> nat {
        count_at(self.pair_votes, (voter, candidate))
    }

    /// The tickets that a payment of `value` buys: the quotient, rounded down.
    pub open spec fn quantity(self, value: nat) -> nat {
        value / self.unit_price
    }

    /// Whether a payment of `value` is accepted: the tickets it buys are
    /// still unsold.
    pub open spec fn can_buy(self, value: nat) -> bool {
        self.quantity(value) <= self.remaining
    }

    /// The ballot after `owner` pays `value`: an accepted payment moves the
    /// tickets bought from the unsold supply to the owner's balance, a
    /// refused one changes nothing.
    pub open spec fn buy(self, owner: AccountId, value: nat) -> TicketBallot {
        if self.can_buy(value) {
            TicketBallot {
                balances: self.balances.insert(owner, self.balance_of(owner) + self.quantity(value)),
                remaining: (self.remaining - self.quantity(value)) as nat,
                ..self
            }
        } else {
            self
        }
    }

    /// Whether `voter` can cast `amount` votes for `candidate`: the candidate
    /// is registered and the voter holds that many tickets.
    pub open spec fn can_cast(self, voter: AccountId, candidate: AccountId, amount: nat) -> bool {
        self.is_candidate(candidate) && self.balance_of(voter) >= amount
    }

    /// The ballot after `voter` casts `amount` votes for `candidate`: an
    /// accepted vote moves `amount` tickets from the voter's balance into the
    /// pair's count and the candidate's tally, a refused one changes nothing.
    /// A voter without a balance entry, who can only cast 0 votes, gets none.
    pub open spec fn cast(self, voter: AccountId, candidate: AccountId, amount: nat) -> TicketBallot {
        if self.can_cast(voter, candidate, amount) {
            TicketBallot {
                balances: if self.balances.contains_key(voter) {
                    self.balances.insert(voter, (self.balances[voter] - amount) as nat)
                } else {
                    self.balances
                },
                pair_votes: self.pair_votes.insert(
                    (voter, candidate),
                    self.votes_between(voter, candidate) + amount,
                ),
                tallies: self.tallies.insert(candidate, self.votes_for(candidate) + amount),
                ..self
            }
        } else {
            self
        }
    }

    /// The ballot after one request, accepted or refused.
    pub open spec fn apply(self, action: Action) -> TicketBallot {
        match action {
            Action::Buy { owner, value } => self.buy(owner, value),
            Action::Cast { voter, candidate, amount } => self.cast(voter, candidate, amount),
        }
    }

    /// The ballot after the requests `actions`, made in order.
    pub open spec fn after(self, actions: Seq<Action>) -> TicketBallot
        decreases actions.len(),
    {
        if actions.len() == 0 {
            self
        } else {
            self.after(actions.drop_last()).apply(actions.last())
        }
    }

    /// Where `c` stands: a candidate has a tally from its first vote on.
    pub open spec fn standing(self, c: AccountId) -> Standing {
        if !self.is_candidate(c) {
            Standing::Unregistered
        } else if self.tallies.contains_key(c) {
            Standing::Tallied
        } else {
            Standing::Untallied
        }
    }

    /// Whether the balance book can take an entry for `owner`: it has one
    /// already, or fewer than `u32::MAX` entries.
    pub open spec fn has_room_for_holder(self, owner: AccountId) -> bool {
        self.balances.contains_key(owner) || self.balances.dom().len() < u32::MAX
    }

    /// Whether the pair book can take an entry for (`voter`, `candidate`).
    pub open spec fn has_room_for_pair(self, voter: AccountId, candidate: AccountId) -> bool {
        self.pair_votes.contains_key((voter, candidate)) || self.pair_votes.dom().len() < u32::MAX
    }

    /// The candidates with their tallies, in registration order.
    pub open spec fn current_votes(self) -> Seq<(AccountId, nat)> {
        Seq::new(self.candidates.len(), |i: int| (self.candidates[i], self.votes_for(self.candidates[i])))
    }
}

impl TicketBallot {
    /// A freshly opened ballot is well formed.
    pub proof fn law_opened_is_wf(candidates: Seq<AccountId>, total_tickets: nat, unit_price: nat)
        requires
            registrable(candidates),
            total_tickets <= u32::MAX,
            unit_price <= u32::MAX,
        ensures
            Self::opened(candidates, total_tickets, unit_price).wf(),
    {
        lemma_total_empty::<AccountId>();
        lemma_total_empty::<(AccountId, AccountId)>();
        let opened = Self::opened(candidates, total_tickets, unit_price);
        assert forall|c: AccountId| #[trigger] opened.tally_matches_pairs(c) by {
            assert(opened.votes_cast_for(c) =~= Map::empty());
        }
    }

    /// A purchase, accepted or refused, keeps the ballot well formed: no
    /// ticket is created or lost by it.
    pub proof fn law_buy_preserves_wf(self, owner: AccountId, value: nat)
        requires
            self.wf(),
        ensures
            self.buy(owner, value).wf(),
    {
        if self.can_buy(value) {
            lemma_total_insert(self.balances, owner, self.balance_of(owner) + self.quantity(value));
            let bought = self.buy(owner, value);
            assert forall|c: AccountId| #[trigger] bought.tally_matches_pairs(c) by {
                assert(self.tally_matches_pairs(c));
            }
        }
    }

    /// A vote, accepted or refused, keeps the ballot well formed: the tickets
    /// spent are exactly the votes counted, per pair and per candidate.
    pub proof fn law_cast_preserves_wf(self, voter: AccountId, candidate: AccountId, amount: nat)
        requires
            self.wf(),
        ensures
            self.cast(voter, candidate, amount).wf(),
    {
        if self.can_cast(voter, candidate, amount) {
            if self.balances.contains_key(voter) {
                lemma_total_insert(self.balances, voter, (self.balances[voter] - amount) as nat);
            }
            lemma_total_insert(
                self.pair_votes,
                (voter, candidate),
                self.votes_between(voter, candidate) + amount,
            );
            lemma_total_insert(self.tallies, candidate, self.votes_for(candidate) + amount);
            let voted = self.cast(voter, candidate, amount);
            assert forall|c: AccountId| #[trigger] voted.tally_matches_pairs(c) by {
                assert(self.tally_matches_pairs(c));
                let part = self.votes_cast_for(c);
                if c == candidate {
                    lemma_len_subset(part.dom(), self.pair_votes.dom());
                    lemma_total_insert(
                        part,
                        (voter, candidate),
                        self.votes_between(voter, candidate) + amount,
                    );
                    assert(voted.votes_cast_for(c) =~= part.insert(
                        (voter, candidate),
                        self.votes_between(voter, candidate) + amount,
                    ));
                } else {
                    assert(voted.votes_cast_for(c) =~= part);
                }
            }
        }
    }

    /// A payment is accepted exactly when the tickets it buys are unsold. An
    /// accepted payment adds the quotient of payment and price to the
    /// buyer's balance and takes as much from the unsold supply, which never
    /// goes below zero; every other balance stays. A refused payment changes
    /// nothing.
    pub proof fn law_purchase_moves_tickets(self, owner: AccountId, value: nat, other: AccountId)
        ensures
            self.can_buy(value) ==> {
                &&& self.buy(owner, value).balance_of(owner) == self.balance_of(owner)
                    + value / self.unit_price
                &&& self.buy(owner, value).remaining + value / self.unit_price == self.remaining
            },
            !self.can_buy(value) ==> self.buy(owner, value) == self,
            other != owner ==> self.buy(owner, value).balance_of(other) == self.balance_of(other),
            self.buy(owner, value).tallies == self.tallies,
            self.buy(owner, value).pair_votes == self.pair_votes,
    {
    }

    /// A payment below the price of one ticket is accepted, buys no ticket,
    /// and leaves the buyer's balance and the unsold supply as they were.
    pub proof fn law_small_payment_buys_nothing(self, owner: AccountId, value: nat)
        requires
            value < self.unit_price,
        ensures
            self.quantity(value) == 0,
            self.can_buy(value),
            self.buy(owner, value).balance_of(owner) == self.balance_of(owner),
            self.buy(owner, value).remaining == self.remaining,
    {
        assert(value / self.unit_price == 0) by (nonlinear_arith)
            requires
                0 <= value < self.unit_price,
        ;
    }

    /// An accepted vote of `amount` lowers the voter's balance by `amount`
    /// and raises the pair's count and the candidate's tally by `amount`,
    /// all three together; a refused vote changes nothing.
    pub proof fn law_cast_moves_tickets(self, voter: AccountId, candidate: AccountId, amount: nat)
        ensures
            self.can_cast(voter, candidate, amount) ==> {
                &&& self.cast(voter, candidate, amount).balance_of(voter) + amount
                    == self.balance_of(voter)
                &&& self.cast(voter, candidate, amount).votes_between(voter, candidate)
                    == self.votes_between(voter, candidate) + amount
                &&& self.cast(voter, candidate, amount).votes_for(candidate) == self.votes_for(
                    candidate,
                ) + amount
            },
            !self.can_cast(voter, candidate, amount) ==> self.cast(voter, candidate, amount) == self,
            self.cast(voter, candidate, amount).remaining == self.remaining,
    {
    }

    /// A vote touches one balance, one pair and one tally: every other
    /// balance, pair count and tally stays as it was.
    pub proof fn law_cast_is_local(
        self,
        voter: AccountId,
        candidate: AccountId,
        amount: nat,
        other_voter: AccountId,
        other_candidate: AccountId,
    )
        ensures
            other_voter != voter ==> self.cast(voter, candidate, amount).balance_of(other_voter)
                == self.balance_of(other_voter),
            other_candidate != candidate ==> self.cast(voter, candidate, amount).votes_for(
                other_candidate,
            ) == self.votes_for(other_candidate),
            (other_voter, other_candidate) != (voter, candidate) ==> self.cast(
                voter,
                candidate,
                amount,
            ).votes_between(other_voter, other_candidate) == self.votes_between(
                other_voter,
                other_candidate,
            ),
    {
    }

    /// No request lowers a tally or a pair's count, and none raises the
    /// unsold supply.
    pub proof fn law_counters_never_decrease(
        self,
        action: Action,
        voter: AccountId,
        candidate: AccountId,
    )
        ensures
            self.apply(action).votes_for(candidate) >= self.votes_for(candidate),
            self.apply(action).votes_between(voter, candidate) >= self.votes_between(
                voter,
                candidate,
            ),
            self.apply(action).remaining <= self.remaining,
            self.apply(action).total_tickets == self.total_tickets,
            self.apply(action).unit_price == self.unit_price,
    {
    }

    /// An account's standing only advances: an unregistered account stays
    /// unregistered, a tallied candidate stays tallied, and an untallied
    /// candidate becomes tallied by an accepted vote for it and by nothing
    /// else.
    pub proof fn law_standing_only_advances(self, action: Action, c: AccountId)
        ensures
            self.standing(c) is Unregistered ==> self.apply(action).standing(c) is Unregistered,
            self.standing(c) is Tallied ==> self.apply(action).standing(c) is Tallied,
            self.standing(c) is Untallied ==> (self.apply(action).standing(c) is Tallied <==> (
            action matches Action::Cast { voter, candidate, amount } && candidate == c
                && self.can_cast(voter, candidate, amount))),
            !(self.apply(action).standing(c) is Unregistered) ==> !(self.standing(
                c,
            ) is Unregistered),
    {
    }

    /// Every ballot reached by requests from a well-formed one is well
    /// formed; in particular the tickets in balances, in tallies and unsold
    /// always add up to the tickets issued.
    pub proof fn law_requests_preserve_wf(self, actions: Seq<Action>)
        requires
            self.wf(),
        ensures
            self.after(actions).wf(),
            total(self.after(actions).balances) + total(self.after(actions).tallies)
                + self.after(actions).remaining == self.total_tickets,
        decreases actions.len(),
    {
        if actions.len() > 0 {
            let earlier = self.after(actions.drop_last());
            self.law_requests_preserve_wf(actions.drop_last());
            match actions.last() {
                Action::Buy { owner, value } => earlier.law_buy_preserves_wf(owner, value),
                Action::Cast { voter, candidate, amount } => earlier.law_cast_preserves_wf(
                    voter,
                    candidate,
                    amount,
                ),
            }
        }
    }

    /// No sequence of requests changes the candidates or their order, so the
    /// tallies reported in registration order stay paired with the same
    /// candidates.
    pub proof fn law_requests_keep_registry(self, actions: Seq<Action>)
        ensures
            self.after(actions).candidates == self.candidates,
            self.after(actions).current_votes().len() == self.candidates.len(),
            forall|i: int|
                0 <= i < self.candidates.len() ==> #[trigger] self.after(
                    actions,
                ).current_votes()[i] == (
                    self.candidates[i],
                    self.after(actions).votes_for(self.candidates[i]),
                ),
        decreases actions.len(),
    {
        if actions.len() > 0 {
            self.law_requests_keep_registry(actions.drop_last());
        }
    }
}

/// A candidate with its tally.
#[derive(Clone, Copy, Debug, PartialEq, Eq)]
pub struct VoteOfCandidate {
    /// The candidate.
    pub candidate: AccountId,
    /// The votes counted for the candidate.
    pub vote: u32,
}

/// The ticket-ballot ledger.
pub struct Voting {
    votes_received: CountMap,
    candidates: CandidateRegistry,
    total_tokens: u32,
    balance_tokens: u32,
    token_price: u32,
    vote_num: PairMap,
    voter_balance: CountMap,
}

impl View for Voting {
    type V = TicketBallot;

    closed spec fn view(&self) -> TicketBallot {
        TicketBallot {
            candidates: self.candidates@,
            tallies: counts(self.votes_received).map_values(|v: u32| v as nat),
            total_tickets: self.total_tokens as nat,
            remaining: self.balance_tokens as nat,
            unit_price: self.token_price as nat,
            balances: counts(self.voter_balance).map_values(|v: u32| v as nat),
            pair_votes: pair_counts(self.vote_num).map_values(|v: u32| v as nat),
        }
    }
}

impl Voting {
    /// The ledger's invariant: the registry's own, and a well-formed view.
    pub open spec fn wf(&self) -> bool {
        &&& self@.wf()
        &&& self.registry_wf()
    }

    /// The invariant of the candidate registry inside the ledger.
    pub closed spec fn registry_wf(&self) -> bool {
        self.candidates.wf()
    }

    /// Opens a ballot for `lists`, which must name no candidate twice, with
    /// `total_tokens` tickets for sale at `token_price` each.
    pub fn new(lists: Vec<AccountId>, total_tokens: u32, token_price: u32) -> (voting: Self)
        requires
            registrable(lists@),
        ensures
            voting.wf(),
            voting@ == TicketBallot::opened(lists@, total_tokens as nat, token_price as nat),
    {
        Self::open_with(CandidateRegistry::new(lists), total_tokens, token_price)
    }

    /// Opens a ballot for `lists` if it names no candidate twice and is short
    /// enough for the registry; otherwise there is no ballot.
    pub fn try_new(lists: Vec<AccountId>, total_tokens: u32, token_price: u32) -> (opened: Option<Self>)
        ensures
            opened.is_some() <==> registrable(lists@),
            opened matches Some(voting) ==> voting.wf() && voting@ == TicketBallot::opened(
                lists@,
                total_tokens as nat,
                token_price as nat,
            ),
    {
        match CandidateRegistry::try_new(lists) {
            Some(candidates) => Some(Self::open_with(candidates, total_tokens, token_price)),
            None => None,
        }
    }

    fn open_with(candidates: CandidateRegistry, total_tokens: u32, token_price: u32) -> (voting: Self)
        requires
            candidates.wf(),
        ensures
            voting.wf(),
            voting@ == TicketBallot::opened(candidates@, total_tokens as nat, token_price as nat),
    {
        let voting = Self {
            candidates,
            votes_received: count_map_new(),
            total_tokens,
            balance_tokens: total_tokens,
            token_price,
            vote_num: pair_map_new(),
            voter_balance: count_map_new(),
        };
        proof {
            assert(voting@.tallies =~= Map::empty());
            assert(voting@.balances =~= Map::empty());
            assert(voting@.pair_votes =~= Map::empty());
            TicketBallot::law_opened_is_wf(candidates@, total_tokens as nat, token_price as nat);
        }
        voting
    }

    /// Sells `owner` the whole tickets that `value` pays for, if that many
    /// are unsold; otherwise nothing is sold and nothing changes.
    ///
    /// The price must not be 0, and where the payment is accepted the
    /// balance book must have room for `owner`;
    /// [`Voting::checked_buy_ticket`] tests both.
    pub fn buy_ticket(&mut self, owner: AccountId, value: u32) -> (sold: bool)
        requires
            old(self).wf(),
            old(self)@.unit_price > 0,
            old(self)@.can_buy(value as nat) ==> old(self)@.has_room_for_holder(owner),
        ensures
            final(self).wf(),
            sold == old(self)@.can_buy(value as nat),
            final(self)@ == old(self)@.buy(owner, value as nat),
            !sold ==> final(self)@ == old(self)@,
    {
        let ghost before = self@;
        let amount: u32 = value / self.token_price;
        if amount > self.balance_tokens {
            return false;
        }
        proof {
            assert(counts(self.voter_balance).dom() =~= before.balances.dom());
            lemma_count_le_total(before.balances, owner);
        }
        match count_map_get(&self.voter_balance, &owner) {
            None => {
                count_map_insert(&mut self.voter_balance, owner, amount);
            },
            Some(held) => {
                count_map_insert(&mut self.voter_balance, owner, held + amount);
            },
        }
        self.balance_tokens -= amount;
        proof {
            assert(self@.balances =~= before.buy(owner, value as nat).balances);
            before.law_buy_preserves_wf(owner, value as nat);
        }
        true
    }

    /// [`Voting::buy_ticket`] for every ledger: `None`, and nothing changed,
    /// where the price is 0, or the payment would be accepted but the balance
    /// book has no room for `owner`.
    pub fn checked_buy_ticket(&mut self, owner: AccountId, value: u32) -> (sold: Option<bool>)
        requires
            old(self).wf(),
        ensures
            final(self).wf(),
            sold is None <==> old(self)@.unit_price == 0 || (old(self)@.can_buy(value as nat)
                && !old(self)@.has_room_for_holder(owner)),
            sold matches Some(s) ==> s == old(self)@.can_buy(value as nat) && final(self)@ == old(
                self,
            )@.buy(owner, value as nat),
            sold is None ==> final(self)@ == old(self)@,
    {
        if self.token_price == 0 {
            return None;
        }
        if value / self.token_price <= self.balance_tokens && !self.has_room_for_holder(owner) {
            return None;
        }
        Some(self.buy_ticket(owner, value))
    }

    /// The number of tickets issued.
    pub fn all_ticket_num(&self) -> (n: u32)
        ensures
            n == self@.total_tickets,
    {
        self.total_tokens
    }

    /// The number of tickets still unsold.
    pub fn left_ticket_num(&self) -> (n: u32)
        ensures
            n == self@.remaining,
    {
        self.balance_tokens
    }

    /// The price of one ticket.
    pub fn price_of_ticket(&self) -> (price: u32)
        ensures
            price == self@.unit_price,
    {
        self.token_price
    }

    /// The unspent tickets of `owner`; 0 for an account that never bought any.
    pub fn voter_ticket_balance(&self, owner: AccountId) -> (balance: u32)
        ensures
            balance == self@.balance_of(owner),
    {
        match count_map_get(&self.voter_balance, &owner) {
            Some(held) => held,
            None => 0,
        }
    }

    fn has_room_for_holder(&self, owner: AccountId) -> (room: bool)
        ensures
            room == self@.has_room_for_holder(owner),
    {
        proof {
            assert(counts(self.voter_balance).dom() =~= self@.balances.dom());
        }
        count_map_get(&self.voter_balance, &owner).is_some() || count_map_len(&self.voter_balance)
            < u32::MAX
    }

    fn has_room_for_pair(&self, owner: AccountId, candidate: AccountId) -> (room: bool)
        ensures
            room == self@.has_room_for_pair(owner, candidate),
    {
        proof {
            assert(pair_counts(self.vote_num).dom() =~= self@.pair_votes.dom());
        }
        pair_map_get(&self.vote_num, &(owner, candidate)).is_some() || pair_map_len(&self.vote_num)
            < u32::MAX
    }

    /// The number of candidates.
    pub fn get_candidates_len(&self) -> (n: u32)
        ensures
            n == self@.candidates.len(),
    {
        self.candidates.len()
    }

    /// The candidates in registration order.
    pub fn get_candidates(&self) -> (lists: Vec<AccountId>)
        ensures
            lists@ == self@.candidates,
    {
        self.candidates.list()
    }

    /// One entry per candidate, in registration order, each with its tally.
    pub fn get_current_votes(&self) -> (current: Vec<VoteOfCandidate>)
        ensures
            current@.len() == self@.candidates.len(),
            forall|i: int|
                0 <= i < self@.candidates.len() ==> (#[trigger] current@[i]).candidate
                    == self@.current_votes()[i].0 && current@[i].vote
                    == self@.current_votes()[i].1,
    {
        let candidate_list = self.candidates.list();
        let mut current_vote: Vec<VoteOfCandidate> = Vec::new();
        let mut i: usize = 0;
        while i < candidate_list.len()
            invariant
                candidate_list@ == self@.candidates,
                i <= candidate_list.len(),
                current_vote@.len() == i,
                forall|j: int|
                    0 <= j < i ==> (#[trigger] current_vote@[j]).candidate == self@.candidates[j]
                        && current_vote@[j].vote == self@.votes_for(self@.candidates[j]),
            decreases candidate_list.len() - i,
        {
            let x = candidate_list[i];
            let candidate = VoteOfCandidate { candidate: x, vote: self.my_value_or_zero(x) };
            current_vote.push(candidate);
            i += 1;
        }
        current_vote
    }

    /// Casts `amount` votes of `owner` for `candidate` on behalf of `caller`
    /// and, if they count, appends the notice of it to `events`. The notice
    /// names the caller, not the owner of the tickets.
    ///
    /// The pair book must have room for (`owner`, `candidate`) where the vote
    /// can be cast; [`Voting::checked_vote_candidate`] tests it.
    pub fn vote_candidate(
        &mut self,
        caller: AccountId,
        owner: AccountId,
        candidate: AccountId,
        amount: u32,
        events: &mut Vec<VoteEvent>,
    ) -> (accepted: bool)
        requires
            old(self).wf(),
            old(self)@.can_cast(owner, candidate, amount as nat) ==> old(self)@.has_room_for_pair(
                owner,
                candidate,
            ),
        ensures
            final(self).wf(),
            accepted == old(self)@.can_cast(owner, candidate, amount as nat),
            final(self)@ == old(self)@.cast(owner, candidate, amount as nat),
            !accepted ==> final(self)@ == old(self)@ && final(events)@ == old(events)@,
            accepted ==> final(events)@ == old(events)@.push(
                (VoteEvent { from: caller, to: candidate }),
            ),
    {
        let ret: bool = self.vote_candidate_without_event(owner, candidate, amount);
        if ret {
            events.push(VoteEvent { from: caller, to: candidate });
        }
        ret
    }

    /// [`Voting::vote_candidate`] for every ledger: `None`, and nothing
    /// changed, where the vote could be cast but the pair book has no room
    /// for (`owner`, `candidate`).
    pub fn checked_vote_candidate(
        &mut self,
        caller: AccountId,
        owner: AccountId,
        candidate: AccountId,
        amount: u32,
        events: &mut Vec<VoteEvent>,
    ) -> (accepted: Option<bool>)
        requires
            old(self).wf(),
        ensures
            final(self).wf(),
            accepted is None <==> old(self)@.can_cast(owner, candidate, amount as nat) && !old(
                self,
            )@.has_room_for_pair(owner, candidate),
            accepted matches Some(a) ==> a == old(self)@.can_cast(owner, candidate, amount as nat)
                && final(self)@ == old(self)@.cast(owner, candidate, amount as nat),
            accepted == Some(true) ==> final(events)@ == old(events)@.push(
                (VoteEvent { from: caller, to: candidate }),
            ),
            accepted != Some(true) ==> final(self)@ == old(self)@ && final(events)@ == old(
                events,
            )@,
    {
        if !self.has_room_for_pair(owner, candidate) && self.candidates.is_member(&candidate)
            && self.voter_ticket_balance(owner) >= amount {
            return None;
        }
        Some(self.vote_candidate(caller, owner, candidate, amount, events))
    }

    /// Casts `amount` votes of `owner` for `candidate`.
    ///
    /// The vote is refused, and nothing changes, unless `candidate` is
    /// registered and `owner` holds at least `amount` tickets, tested in this
    /// order. An accepted vote takes `amount` tickets from the owner's
    /// balance and adds `amount` to the pair's count and to the candidate's
    /// tally.
    pub fn vote_candidate_without_event(
        &mut self,
        owner: AccountId,
        candidate: AccountId,
        amount: u32,
    ) -> (accepted: bool)
        requires
            old(self).wf(),
            old(self)@.can_cast(owner, candidate, amount as nat) ==> old(self)@.has_room_for_pair(
                owner,
                candidate,
            ),
        ensures
            final(self).wf(),
            accepted == old(self)@.can_cast(owner, candidate, amount as nat),
            final(self)@ == old(self)@.cast(owner, candidate, amount as nat),
            !accepted ==> final(self)@ == old(self)@,
    {
        let ghost before = self@;
        if !self.candidates.is_member(&candidate) {
            return false;
        }
        let ticket_num: u32 = self.voter_ticket_balance(owner);
        if ticket_num < amount {
            return false;
        }
        proof {
            assert(counts(self.voter_balance).dom() =~= before.balances.dom());
            assert(pair_counts(self.vote_num).dom() =~= before.pair_votes.dom());
            assert(counts(self.votes_received).dom() =~= before.tallies.dom());
            lemma_count_le_total(before.balances, owner);
            lemma_count_le_total(before.pair_votes, (owner, candidate));
            lemma_count_le_total(before.tallies, candidate);
        }
        match count_map_get(&self.voter_balance, &owner) {
            Some(held) => {
                count_map_insert(&mut self.voter_balance, owner, held - amount);
            },
            None => {},
        }
        match pair_map_get(&self.vote_num, &(owner, candidate)) {
            Some(cast) => {
                pair_map_insert(&mut self.vote_num, (owner, candidate), cast + amount);
            },
            None => {
                pair_map_insert(&mut self.vote_num, (owner, candidate), amount);
            },
        }
        match count_map_get(&self.votes_received, &candidate) {
            Some(votes) => {
                count_map_insert(&mut self.votes_received, candidate, votes + amount);
            },
            None => {
                proof {
                    let voted = before.tallies.dom();
                    let registered = before.candidates.to_set();
                    assert(voted.subset_of(registered));
                    voted.lemma_subset_not_in_lt(registered, candidate);
                    before.candidates.unique_seq_to_set();
                }
                count_map_insert(&mut self.votes_received, candidate, amount);
            },
        }
        proof {
            let after = before.cast(owner, candidate, amount as nat);
            assert(self@.balances =~= after.balances);
            assert(self@.pair_votes =~= after.pair_votes);
            assert(self@.tallies =~= after.tallies);
            before.law_cast_preserves_wf(owner, candidate, amount as nat);
        }
        true
    }

    /// The votes counted for `candidate`; 0 for an account without a tally.
    pub fn total_votes_for(&self, candidate: AccountId) -> (votes: u32)
        ensures
            votes == self@.votes_for(candidate),
    {
        self.my_value_or_zero(candidate)
    }

    /// The votes that `callee` has cast for `candidate`; 0 if none.
    pub fn callee_vote_of(&self, callee: AccountId, candidate: AccountId) -> (votes: u32)
        ensures
            votes == self@.votes_between(callee, candidate),
    {
        match pair_map_get(&self.vote_num, &(callee, candidate)) {
            Some(cast) => cast,
            None => 0,
        }
    }

    /// Whether `candidate` is registered, found by walking the candidate list.
    pub fn valid_candidate(&self, candidate: AccountId) -> (valid: bool)
        ensures
            valid == self@.is_candidate(candidate),
    {
        self.candidates.valid_candidate(candidate)
    }

    fn my_value_or_zero(&self, of: AccountId) -> (value: u32)
        ensures
            value == self@.votes_for(of),
    {
        match count_map_get(&self.votes_received, &of) {
            Some(value) => value,
            None => 0,
        }
    }
}

} // verus!
