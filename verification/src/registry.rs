//! The candidate registry: the accounts that may receive votes, fixed when a
//! ballot is opened. It keeps the candidates in registration order and, beside
//! them, an index for constant-time membership tests.

use crate::storage::{
    candidate_list_collect, candidate_list_len, candidate_list_to_vec, listed,
    member_map_collect, member_map_contains, member_map_len, members, same_account,
    CandidateList, MemberMap,
};
use ink_env::AccountId;
use vstd::prelude::*;

verus! {

/// The registered candidates. Its view is the sequence of candidates in
/// registration order.
pub struct CandidateRegistry {
    candidate_list: CandidateList,
    in_candidate_list: MemberMap,
}

impl View for CandidateRegistry {
    type V = Seq<AccountId>;

    closed spec fn view(&self) -> Seq<AccountId> {
        listed(self.candidate_list)
    }
}

/// What a sequence of accounts must satisfy to be registered: no account
/// twice, and no more accounts than a `u32` counts.
pub open spec fn registrable(candidates: Seq<AccountId>) -> bool {
    candidates.no_duplicates() && candidates.len() <= u32::MAX
}

impl CandidateRegistry {
    /// The registry's invariant: the candidates are registrable and the
    /// membership index holds exactly them.
    pub open spec fn wf(&self) -> bool {
        &&& registrable(self@)
        &&& self.index_agrees()
    }

    /// The membership index and the candidate list hold the same accounts.
    pub closed spec fn index_agrees(&self) -> bool {
        members(self.in_candidate_list) == listed(self.candidate_list).to_set()
    }

    /// Registers `lists`, in order.
    pub fn new(lists: Vec<AccountId>) -> (registry: Self)
        requires
            registrable(lists@),
        ensures
            registry.wf(),
            registry@ == lists@,
    {
        let in_candidate_list = member_map_collect(&lists);
        let candidate_list = candidate_list_collect(&lists);
        assert(members(in_candidate_list).len() == listed(candidate_list).len()) by {
            lists@.unique_seq_to_set();
        }
        Self { candidate_list, in_candidate_list }
    }

    /// Registers `lists` if it is registrable; otherwise there is no registry.
    ///
    /// Duplicates are found as the index is built: it then ends up with fewer
    /// keys than the list has elements.
    pub fn try_new(lists: Vec<AccountId>) -> (built: Option<Self>)
        ensures
            built.is_some() <==> registrable(lists@),
            built matches Some(registry) ==> registry.wf() && registry@ == lists@,
    {
        if lists.len() > 0xffff_ffff {
            return None;
        }
        let in_candidate_list = member_map_collect(&lists);
        let candidate_list = candidate_list_collect(&lists);
        if member_map_len(&in_candidate_list) != candidate_list_len(&candidate_list) {
            proof {
                if lists@.no_duplicates() {
                    lists@.unique_seq_to_set();
                }
            }
            return None;
        }
        proof {
            lists@.lemma_no_dup_set_cardinality();
        }
        Some(Self { candidate_list, in_candidate_list })
    }

    /// The number of candidates.
    pub fn len(&self) -> (n: u32)
        ensures
            n == self@.len(),
    {
        candidate_list_len(&self.candidate_list)
    }

    /// The candidates in registration order.
    pub fn list(&self) -> (lists: Vec<AccountId>)
        ensures
            lists@ == self@,
    {
        candidate_list_to_vec(&self.candidate_list)
    }

    /// Whether `candidate` is registered, answered from the index.
    pub fn is_member(&self, candidate: &AccountId) -> (member: bool)
        requires
            self.wf(),
        ensures
            member == self@.contains(*candidate),
    {
        member_map_contains(&self.in_candidate_list, candidate)
    }

    /// Whether `candidate` is registered, answered by walking the list.
    pub fn valid_candidate(&self, candidate: AccountId) -> (valid: bool)
        ensures
            valid == self@.contains(candidate),
    {
        let candidate_list = candidate_list_to_vec(&self.candidate_list);
        let mut i: usize = 0;
        while i < candidate_list.len()
            invariant
                candidate_list@ == self@,
                i <= candidate_list.len(),
                forall|j: int| 0 <= j < i ==> candidate_list@[j] != candidate,
            decreases candidate_list.len() - i,
        {
            if same_account(&candidate_list[i], &candidate) {
                return true;
            }
            i += 1;
        }
        false
    }
}

} // verus!
