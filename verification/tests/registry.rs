use ink_env::test::DefaultAccounts;
use ink_env::DefaultEnvironment;
use voting_ledger::registry::CandidateRegistry;
use voting_ledger::AccountId;

fn accounts() -> DefaultAccounts<DefaultEnvironment> {
    ink_env::test::default_accounts().expect("Test environment is expected to be initialized.")
}

#[test]
fn registry_keeps_order_and_length() {
    let a = accounts();
    let lists = vec![a.frank, a.alice, a.eve];
    let registry = CandidateRegistry::new(lists.clone());
    assert_eq!(registry.len(), 3);
    assert_eq!(registry.list(), lists);
}

#[test]
fn registry_membership_by_index_and_by_walk() {
    let a = accounts();
    let registry = CandidateRegistry::new(vec![a.frank, a.alice, a.eve]);
    for member in [a.frank, a.alice, a.eve] {
        assert!(registry.is_member(&member));
        assert!(registry.valid_candidate(member));
    }
    for stranger in [a.bob, a.charlie, a.django, AccountId::from([0u8; 32])] {
        assert!(!registry.is_member(&stranger));
        assert!(!registry.valid_candidate(stranger));
    }
}

#[test]
fn registry_refuses_duplicates() {
    let a = accounts();
    assert!(CandidateRegistry::try_new(vec![a.alice, a.alice]).is_none());
    assert!(CandidateRegistry::try_new(vec![a.alice, a.bob, a.eve, a.bob]).is_none());
    assert!(CandidateRegistry::try_new(vec![a.alice, a.bob, a.eve]).is_some());
    assert!(CandidateRegistry::try_new(Vec::new()).is_some());
}

#[test]
fn registry_of_many_candidates() {
    let mut lists = Vec::new();
    for i in 0..200u8 {
        let mut bytes = [0u8; 32];
        bytes[0] = i;
        bytes[31] = 255 - i;
        lists.push(AccountId::from(bytes));
    }
    let registry = CandidateRegistry::try_new(lists.clone()).expect("all accounts differ");
    assert_eq!(registry.len(), 200);
    assert_eq!(registry.list(), lists);
    assert!(registry.is_member(&lists[199]));
    lists.push(lists[17]);
    assert!(CandidateRegistry::try_new(lists).is_none());
}
