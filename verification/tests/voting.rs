use ink_env::test::DefaultAccounts;
use ink_env::DefaultEnvironment;
use voting_ledger::voting::{CurrentVote, VoteEvent, Voting};
use voting_ledger::AccountId;

type Accounts = DefaultAccounts<DefaultEnvironment>;

fn default_accounts() -> Accounts {
    ink_env::test::default_accounts().expect("Test environment is expected to be initialized.")
}

#[test]
fn default_works() {
    let voting = Voting::new(Vec::new());
    assert_eq!(voting.get_candidates(), Vec::<AccountId>::new());
    assert_eq!(voting.get_candidates().len(), 0);
    assert_eq!(voting.get_candidates_len(), 0);
}

#[test]
fn init_candidates() {
    let accounts = default_accounts();
    let candidates = vec![accounts.alice, accounts.bob, accounts.eve];
    let voting = Voting::new(candidates);
    assert_eq!(voting.get_candidates_len(), 3);
}

#[test]
fn vote_works() {
    let accounts = default_accounts();
    let candidates = vec![accounts.alice, accounts.bob, accounts.eve];
    let mut voting = Voting::new(candidates);
    assert_eq!(voting.total_votes_for(accounts.alice), 0);
    assert_eq!(voting.total_votes_for(accounts.bob), 0);
    assert_eq!(voting.total_votes_for(accounts.eve), 0);
    voting.vote_candidate_without_event(accounts.alice);
    assert_eq!(voting.total_votes_for(accounts.alice), 1);
    voting.vote_candidate_without_event(accounts.alice);
    assert_eq!(voting.total_votes_for(accounts.alice), 2);
    assert_eq!(voting.total_votes_for(accounts.bob), 0);
    assert_eq!(voting.total_votes_for(accounts.eve), 0);
    voting.vote_candidate_without_event(accounts.bob);
    assert_eq!(voting.total_votes_for(accounts.alice), 2);
    assert_eq!(voting.total_votes_for(accounts.bob), 1);
    assert_eq!(voting.total_votes_for(accounts.eve), 0);
}

#[test]
fn vote_invalid_candidate_does_not_work() {
    let accounts = default_accounts();
    let candidates = vec![accounts.alice, accounts.bob];
    let mut voting = Voting::new(candidates);
    let mut events = Vec::new();
    assert_eq!(voting.total_votes_for(accounts.alice), 0);
    assert_eq!(voting.total_votes_for(accounts.bob), 0);
    assert_eq!(voting.vote_candidate(accounts.alice, accounts.eve, &mut events), false);
}

#[test]
fn get_current_votes_works() {
    let accounts = default_accounts();
    let candidates = vec![accounts.alice, accounts.bob, accounts.eve];
    let mut voting = Voting::new(candidates.clone());
    let current = voting.get_current_votes();
    assert_eq!(current.candidate_list, candidates.clone());
    assert_eq!(current.current_vote, vec![0, 0, 0]);
    voting.vote_candidate_without_event(accounts.alice);
    let current = voting.get_current_votes();
    assert_eq!(current.candidate_list, candidates.clone());
    assert_eq!(current.current_vote, vec![1, 0, 0]);
}

#[test]
fn alice_twice_bob_never() {
    let accounts = default_accounts();
    let mut voting = Voting::new(vec![accounts.alice, accounts.bob]);
    assert_eq!(voting.vote_candidate_without_event(accounts.eve), false);
    assert_eq!(voting.vote_candidate_without_event(accounts.alice), true);
    assert_eq!(voting.vote_candidate_without_event(accounts.alice), true);
    assert_eq!(voting.total_votes_for(accounts.alice), 2);
    assert_eq!(voting.total_votes_for(accounts.bob), 0);
    assert_eq!(voting.total_votes_for(accounts.eve), 0);
}

#[test]
fn stranger_vote_changes_no_tally() {
    let accounts = default_accounts();
    let mut voting = Voting::new(vec![accounts.alice, accounts.bob]);
    voting.vote_candidate_without_event(accounts.bob);
    let before = voting.get_current_votes();
    assert_eq!(voting.vote_candidate_without_event(accounts.charlie), false);
    assert_eq!(voting.get_current_votes(), before);
    assert_eq!(voting.total_votes_for(accounts.charlie), 0);
}

#[test]
fn n_votes_tally_n() {
    let accounts = default_accounts();
    let mut voting = Voting::new(vec![accounts.alice, accounts.bob, accounts.eve]);
    let mut last = 0;
    for n in 1..=25u32 {
        assert!(voting.vote_candidate_without_event(accounts.eve));
        let now = voting.total_votes_for(accounts.eve);
        assert!(now > last);
        assert_eq!(now, n);
        last = now;
    }
    assert_eq!(voting.total_votes_for(accounts.alice), 0);
    assert_eq!(voting.total_votes_for(accounts.bob), 0);
}

#[test]
fn accepted_vote_emits_one_event_naming_the_caller() {
    let accounts = default_accounts();
    let mut voting = Voting::new(vec![accounts.alice, accounts.bob]);
    let mut events = Vec::new();
    assert_eq!(voting.vote_candidate(accounts.frank, accounts.bob, &mut events), true);
    assert_eq!(events, vec![VoteEvent { from: accounts.frank, to: accounts.bob }]);
    assert_eq!(voting.vote_candidate(accounts.django, accounts.alice, &mut events), true);
    assert_eq!(
        events,
        vec![
            VoteEvent { from: accounts.frank, to: accounts.bob },
            VoteEvent { from: accounts.django, to: accounts.alice },
        ]
    );
    assert_eq!(voting.total_votes_for(accounts.bob), 1);
    assert_eq!(voting.total_votes_for(accounts.alice), 1);
}

#[test]
fn refused_vote_emits_no_event() {
    let accounts = default_accounts();
    let mut voting = Voting::new(vec![accounts.alice, accounts.bob]);
    let mut events = vec![VoteEvent { from: accounts.alice, to: accounts.alice }];
    assert_eq!(voting.vote_candidate(accounts.alice, accounts.eve, &mut events), false);
    assert_eq!(events, vec![VoteEvent { from: accounts.alice, to: accounts.alice }]);
    assert_eq!(voting.total_votes_for(accounts.eve), 0);
}

#[test]
fn current_votes_follow_registration_order() {
    let accounts = default_accounts();
    let candidates = vec![accounts.eve, accounts.alice, accounts.django, accounts.bob];
    let mut voting = Voting::new(candidates.clone());
    for c in [accounts.bob, accounts.eve, accounts.bob, accounts.django, accounts.bob, accounts.frank] {
        voting.vote_candidate_without_event(c);
    }
    assert_eq!(
        voting.get_current_votes(),
        CurrentVote { candidate_list: candidates.clone(), current_vote: vec![1, 0, 1, 3] }
    );
    assert_eq!(voting.get_candidates(), candidates);
}

#[test]
fn duplicate_candidates_open_no_ballot() {
    let accounts = default_accounts();
    assert!(Voting::try_new(vec![accounts.alice, accounts.bob, accounts.alice]).is_none());
    assert!(Voting::try_new(vec![accounts.bob, accounts.bob]).is_none());
}

#[test]
fn distinct_candidates_open_a_ballot() {
    let accounts = default_accounts();
    let candidates = vec![accounts.alice, accounts.bob, accounts.charlie, accounts.django];
    let voting = Voting::try_new(candidates.clone()).expect("no candidate is named twice");
    assert_eq!(voting.get_candidates_len(), 4);
    assert_eq!(voting.get_candidates(), candidates);
    let empty = Voting::try_new(Vec::new()).expect("no candidate is named twice");
    assert_eq!(empty.get_candidates_len(), 0);
}

#[test]
fn valid_candidate_agrees_with_the_registry() {
    let accounts = default_accounts();
    let voting = Voting::new(vec![accounts.alice, accounts.bob]);
    assert_eq!(voting.valid_candidate(accounts.alice), true);
    assert_eq!(voting.valid_candidate(accounts.bob), true);
    assert_eq!(voting.valid_candidate(accounts.eve), false);
    assert_eq!(Voting::new(Vec::new()).valid_candidate(accounts.alice), false);
}

#[test]
fn checked_vote_is_the_vote_below_the_limit() {
    let accounts = default_accounts();
    let mut voting = Voting::new(vec![accounts.alice, accounts.bob]);
    let mut events = Vec::new();
    assert_eq!(voting.checked_vote_candidate(accounts.eve, accounts.bob, &mut events), Some(true));
    assert_eq!(voting.checked_vote_candidate(accounts.eve, accounts.eve, &mut events), Some(false));
    assert_eq!(events, vec![VoteEvent { from: accounts.eve, to: accounts.bob }]);
    assert_eq!(voting.total_votes_for(accounts.bob), 1);
    assert_eq!(voting.total_votes_for(accounts.eve), 0);
}
