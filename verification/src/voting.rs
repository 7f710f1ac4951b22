//! The plain ballot: a fixed list of candidates and one tally per candidate.
//!
//! [`Ballot`] is the mathematical model, with its transition [`Ballot::vote`]
//! and the laws that hold of it. [`Voting`] is the executable ledger; every
//! operation is specified by what it does to the ledger's view, a `Ballot`.

use crate::registry::{registrable, CandidateRegistry};
use crate::storage::{count_map_get, count_map_insert, count_map_new, counts, CountMap};
use crate::sums::count_at;
use ink_env::AccountId;
use vstd::prelude::*;

verus! {

/// Where an account stands in a ballot.
pub enum Standing {
    /// Not a candidate: every vote for the account is refused.
    Unregistered,
    /// A candidate that has received no vote yet.
    Untallied,
    /// A candidate with a tally.
    Tallied,
}

/// The state of a ballot: who may receive votes, and how many each has received.
pub struct Ballot {
    /// The candidates, in registration order.
    pub candidates: Seq<AccountId>,
    /// The tallies. A candidate nobody has voted for yet has no entry.
    pub tallies: Map<AccountId, nat>,
}

impl Ballot {
    /// The ballot right after construction: the given candidates, no votes.
    pub open spec fn opened(candidates: Seq<AccountId>) -> Ballot {
        Ballot { candidates, tallies: Map::empty() }
    }

    /// The candidates are registrable and only candidates have a tally.
    pub open spec fn wf(self) -> bool {
        &&& registrable(self.candidates)
        &&& forall|c: AccountId| self.tallies.contains_key(c) ==> self.candidates.contains(c)
    }

    /// Whether `c` may receive votes.
    pub open spec fn is_candidate(self, c: AccountId) -> bool {
        self.candidates.contains(c)
    }

    /// The votes counted for `c`: 0 where there is no tally.
    pub open spec fn votes_for(self, c: AccountId) -> nat {
        count_at(self.tallies, c)
    }

    /// Where `c` stands: a candidate has a tally from its first vote on.
    pub open spec fn standing(self, c: AccountId) -> Standing {
        if !self.is_candidate(c) {
            Standing::Unregistered
        } else if self.tallies.contains_key(c) {
            Standing::Tallied
        } else {
            Standing::Untallied
        }
    }

    /// The ballot after one vote for `c`: a candidate's tally grows by one, a
    /// vote for anyone else changes nothing.
    pub open spec fn vote(self, c: AccountId) -> Ballot {
        if self.is_candidate(c) {
            Ballot { candidates: self.candidates, tallies: self.tallies.insert(c, self.votes_for(c) + 1) }
        } else {
            self
        }
    }

    /// The ballot after the votes `cs`, cast in order.
    pub open spec fn after_votes(self, cs: Seq<AccountId>) -> Ballot
        decreases cs.len(),
    {
        if cs.len() == 0 {
            self
        } else {
            self.after_votes(cs.drop_last()).vote(cs.last())
        }
    }

    /// The number of votes for `c` among `cs`.
    pub open spec fn occurrences(cs: Seq<AccountId>, c: AccountId) -> nat
        decreases cs.len(),
    {
        if cs.len() == 0 {
            0
        } else {
            Self::occurrences(cs.drop_last(), c) + if cs.last() == c {
                1nat
            } else {
                0nat
            }
        }
    }

    /// The tallies in registration order, one per candidate.
    pub open spec fn current_votes(self) -> Seq<nat> {
        Seq::new(self.candidates.len(), |i: int| self.votes_for(self.candidates[i]))
    }
}

impl Ballot {
    /// A vote keeps a well-formed ballot well formed.
    pub proof fn law_vote_preserves_wf(self, c: AccountId)
        requires
            self.wf(),
        ensures
            self.vote(c).wf(),
    {
    }

    /// A vote for an account that is not a candidate changes nothing.
    pub proof fn law_stranger_vote_is_void(self, c: AccountId)
        requires
            !self.is_candidate(c),
        ensures
            self.vote(c) == self,
    {
    }

    /// A vote for a candidate raises that candidate's tally by exactly one
    /// and leaves every other tally as it was; no vote lowers any tally.
    pub proof fn law_vote_counts_once(self, c: AccountId, other: AccountId)
        ensures
            self.is_candidate(c) ==> self.vote(c).votes_for(c) == self.votes_for(c) + 1,
            other != c ==> self.vote(c).votes_for(other) == self.votes_for(other),
            self.vote(c).votes_for(other) >= self.votes_for(other),
    {
    }

    /// An account's standing only advances: an unregistered account stays
    /// unregistered, a tallied candidate stays tallied, and an untallied
    /// candidate becomes tallied by a vote for it and by nothing else.
    pub proof fn law_standing_only_advances(self, voted: AccountId, c: AccountId)
        ensures
            self.standing(c) is Unregistered ==> self.vote(voted).standing(c) is Unregistered,
            self.standing(c) is Tallied ==> self.vote(voted).standing(c) is Tallied,
            self.standing(c) is Untallied && voted == c ==> self.vote(voted).standing(c) is Tallied,
            self.standing(c) is Untallied && voted != c ==> self.vote(voted).standing(
                c,
            ) is Untallied,
    {
    }

    /// After any sequence of votes, a candidate's tally has grown by the
    /// number of votes cast for that candidate, and the tally of an account
    /// that is not a candidate has not moved.
    pub proof fn law_tally_counts_votes(self, cs: Seq<AccountId>, c: AccountId)
        ensures
            self.is_candidate(c) ==> self.after_votes(cs).votes_for(c) == self.votes_for(c)
                + Self::occurrences(cs, c),
            !self.is_candidate(c) ==> self.after_votes(cs).votes_for(c) == self.votes_for(c),
        decreases cs.len(),
    {
        if cs.len() > 0 {
            self.law_tally_counts_votes(cs.drop_last(), c);
            self.law_registry_is_fixed(cs.drop_last());
        }
    }

    /// On a freshly opened ballot, `n` votes for a candidate yield a tally of
    /// exactly `n`.
    pub proof fn law_n_votes_tally_n(candidates: Seq<AccountId>, c: AccountId, n: nat)
        requires
            candidates.contains(c),
        ensures
            Self::opened(candidates).after_votes(Seq::new(n, |i: int| c)).votes_for(c) == n,
    {
        let cs = Seq::new(n, |i: int| c);
        Self::opened(candidates).law_tally_counts_votes(cs, c);
        Self::lemma_occurrences_of_repeat(c, n);
    }

    proof fn lemma_occurrences_of_repeat(c: AccountId, n: nat)
        ensures
            Self::occurrences(Seq::new(n, |i: int| c), c) == n,
        decreases n,
    {
        if n > 0 {
            Self::lemma_occurrences_of_repeat(c, (n - 1) as nat);
            assert(Seq::new(n, |i: int| c).drop_last() =~= Seq::new((n - 1) as nat, |i: int| c));
        }
    }

    /// No sequence of votes changes the candidates or their order, so the
    /// tallies reported in registration order stay paired with the same
    /// candidates.
    pub proof fn law_registry_is_fixed(self, cs: Seq<AccountId>)
        ensures
            self.after_votes(cs).candidates == self.candidates,
            self.after_votes(cs).current_votes().len() == self.candidates.len(),
            forall|i: int|
                0 <= i < self.candidates.len() ==> #[trigger] self.after_votes(
                    cs,
                ).current_votes()[i] == self.after_votes(cs).votes_for(self.candidates[i]),
        decreases cs.len(),
    {
        if cs.len() > 0 {
            self.law_registry_is_fixed(cs.drop_last());
        }
    }

    /// Every ballot reached from a well-formed one by votes is well formed.
    pub proof fn law_votes_preserve_wf(self, cs: Seq<AccountId>)
        requires
            self.wf(),
        ensures
            self.after_votes(cs).wf(),
        decreases cs.len(),
    {
        if cs.len() > 0 {
            self.law_votes_preserve_wf(cs.drop_last());
        }
    }
}

/// Notice of one successful vote.
#[derive(Clone, Copy, Debug, PartialEq, Eq)]
pub struct VoteEvent {
    /// The account that made the call.
    pub from: AccountId,
    /// The candidate voted for.
    pub to: AccountId,
}

/// The candidates and their tallies, position by position.
#[derive(Debug, PartialEq, Eq)]
pub struct CurrentVote {
    /// The candidates in registration order.
    pub candidate_list: Vec<AccountId>,
    /// `current_vote[i]` is the tally of `candidate_list[i]`.
    pub current_vote: Vec<u32>,
}

/// The ballot ledger.
pub struct Voting {
    votes_received: CountMap,
    candidates: CandidateRegistry,
}

impl View for Voting {
    type V = Ballot;

    closed spec fn view(&self) -> Ballot {
        Ballot {
            candidates: self.candidates@,
            tallies: counts(self.votes_received).map_values(|v: u32| v as nat),
        }
    }
}

impl Voting {
    /// The ledger's invariant: the registry's own, and a well-formed view.
    pub open spec fn wf(&self) -> bool {
        &&& self@.wf()
        &&& self.registry_wf()
    }

    /// The invariant of the candidate registry inside the ledger.
    pub closed spec fn registry_wf(&self) -> bool {
        self.candidates.wf()
    }

    /// Opens a ballot for `lists`, which must name no candidate twice.
    pub fn new(lists: Vec<AccountId>) -> (voting: Self)
        requires
            registrable(lists@),
        ensures
            voting.wf(),
            voting@ == Ballot::opened(lists@),
    {
        let voting = Self { candidates: CandidateRegistry::new(lists), votes_received: count_map_new() };
        assert(voting@.tallies =~= Map::empty());
        voting
    }

    /// Opens a ballot for `lists` if it names no candidate twice and is short
    /// enough for the registry; otherwise there is no ballot.
    pub fn try_new(lists: Vec<AccountId>) -> (opened: Option<Self>)
        ensures
            opened.is_some() <==> registrable(lists@),
            opened matches Some(voting) ==> voting.wf() && voting@ == Ballot::opened(lists@),
    {
        match CandidateRegistry::try_new(lists) {
            Some(candidates) => {
                let voting = Self { candidates, votes_received: count_map_new() };
                assert(voting@.tallies =~= Map::empty());
                Some(voting)
            },
            None => None,
        }
    }

    /// The number of candidates.
    pub fn get_candidates_len(&self) -> (n: u32)
        ensures
            n == self@.candidates.len(),
    {
        self.candidates.len()
    }

    /// The candidates in registration order.
    pub fn get_candidates(&self) -> (lists: Vec<AccountId>)
        ensures
            lists@ == self@.candidates,
    {
        self.candidates.list()
    }

    /// The candidates with their tallies, paired by position.
    pub fn get_current_votes(&self) -> (current: CurrentVote)
        ensures
            current.candidate_list@ == self@.candidates,
            current.current_vote@.len() == self@.candidates.len(),
            forall|i: int|
                0 <= i < self@.candidates.len() ==> #[trigger] current.current_vote@[i]
                    == self@.current_votes()[i],
    {
        let candidate_list = self.candidates.list();
        let mut current_vote: Vec<u32> = Vec::new();
        let mut i: usize = 0;
        while i < candidate_list.len()
            invariant
                candidate_list@ == self@.candidates,
                i <= candidate_list.len(),
                current_vote@.len() == i,
                forall|j: int|
                    0 <= j < i ==> #[trigger] current_vote@[j] == self@.votes_for(
                        self@.candidates[j],
                    ),
            decreases candidate_list.len() - i,
        {
            let x = candidate_list[i];
            current_vote.push(self.my_value_or_zero(x));
            i += 1;
        }
        CurrentVote { candidate_list, current_vote }
    }

    /// Casts one vote for `candidate` on behalf of `caller` and, if it counts,
    /// appends the notice of it to `events`.
    ///
    /// A tally is a `u32`: the candidate's tally must have room for one more;
    /// [`Voting::checked_vote_candidate`] tests it.
    pub fn vote_candidate(
        &mut self,
        caller: AccountId,
        candidate: AccountId,
        events: &mut Vec<VoteEvent>,
    ) -> (accepted: bool)
        requires
            old(self).wf(),
            old(self)@.is_candidate(candidate) ==> old(self)@.votes_for(candidate) < u32::MAX,
        ensures
            final(self).wf(),
            accepted == old(self)@.is_candidate(candidate),
            final(self)@ == old(self)@.vote(candidate),
            !accepted ==> final(self)@ == old(self)@ && final(events)@ == old(events)@,
            accepted ==> final(events)@ == old(events)@.push(
                (VoteEvent { from: caller, to: candidate }),
            ),
    {
        let ret: bool = self.vote_candidate_without_event(candidate);
        if ret {
            events.push(VoteEvent { from: caller, to: candidate });
        }
        ret
    }

    /// [`Voting::vote_candidate`] for every ledger: `None`, and nothing
    /// changed, where the tally of `candidate` is at `u32::MAX`.
    pub fn checked_vote_candidate(
        &mut self,
        caller: AccountId,
        candidate: AccountId,
        events: &mut Vec<VoteEvent>,
    ) -> (accepted: Option<bool>)
        requires
            old(self).wf(),
        ensures
            final(self).wf(),
            accepted is None <==> old(self)@.votes_for(candidate) >= u32::MAX,
            accepted matches Some(a) ==> a == old(self)@.is_candidate(candidate) && final(self)@
                == old(self)@.vote(candidate),
            accepted == Some(true) ==> final(events)@ == old(events)@.push(
                (VoteEvent { from: caller, to: candidate }),
            ),
            accepted != Some(true) ==> final(self)@ == old(self)@ && final(events)@ == old(
                events,
            )@,
    {
        if self.my_value_or_zero(candidate) == u32::MAX {
            return None;
        }
        Some(self.vote_candidate(caller, candidate, events))
    }

    /// Casts one vote for `candidate`: counted if and only if `candidate` is
    /// registered.
    pub fn vote_candidate_without_event(&mut self, candidate: AccountId) -> (accepted: bool)
        requires
            old(self).wf(),
            old(self)@.is_candidate(candidate) ==> old(self)@.votes_for(candidate) < u32::MAX,
        ensures
            final(self).wf(),
            accepted == old(self)@.is_candidate(candidate),
            final(self)@ == old(self)@.vote(candidate),
            !accepted ==> final(self)@ == old(self)@,
    {
        if !self.candidates.is_member(&candidate) {
            return false;
        }
        let ghost before = self@;
        match count_map_get(&self.votes_received, &candidate) {
            Some(v) => {
                count_map_insert(&mut self.votes_received, candidate, v + 1);
            },
            None => {
                proof {
                    let voted = counts(self.votes_received).dom();
                    let registered = before.candidates.to_set();
                    assert(voted =~= before.tallies.dom());
                    assert(voted.subset_of(registered));
                    voted.lemma_subset_not_in_lt(registered, candidate);
                    before.candidates.unique_seq_to_set();
                }
                count_map_insert(&mut self.votes_received, candidate, 1);
            },
        }
        assert(self@.tallies =~= before.vote(candidate).tallies);
        true
    }

    /// The votes counted for `candidate`; 0 for an account without a tally.
    pub fn total_votes_for(&self, candidate: AccountId) -> (votes: u32)
        ensures
            votes == self@.votes_for(candidate),
    {
        self.my_value_or_zero(candidate)
    }

    /// Whether `candidate` is registered, found by walking the candidate list.
    pub fn valid_candidate(&self, candidate: AccountId) -> (valid: bool)
        ensures
            valid == self@.is_candidate(candidate),
    {
        self.candidates.valid_candidate(candidate)
    }

    fn my_value_or_zero(&self, of: AccountId) -> (value: u32)
        ensures
            value == self@.votes_for(of),
    {
        match count_map_get(&self.votes_received, &of) {
            Some(value) => value,
            None => 0,
        }
    }
}

} // verus!
