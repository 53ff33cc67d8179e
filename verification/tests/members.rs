use integritee_parachain::orml::members::{TenToFourteen, TestChangeMembers};

#[test]
fn ten_to_fourteen_are_the_members() {
    let mut m = TenToFourteen::new();
    assert_eq!(m.sorted_members(), vec![10, 11, 12, 13, 14]);
    assert_eq!(m.max_len(), 5);
    assert_eq!(TenToFourteen::min_len(), 0);
    m.add(12);
    m.add(3);
    assert_eq!(m.sorted_members(), vec![3, 10, 11, 12, 12, 13, 14]);
    assert_eq!(m.max_len(), 7);
}

#[test]
fn consistent_changes_are_accepted() {
    let mut m = TestChangeMembers::new();
    assert!(m.is_valid_change(&vec![1, 2], &vec![], &vec![1, 2]));
    m.change_members_sorted(&vec![1, 2], &vec![], &vec![1, 2]);
    assert_eq!(m.members, vec![1, 2]);
    m.set_prime(Some(2));
    assert_eq!(m.prime, Some(2));
    assert!(m.is_valid_change(&vec![3], &vec![1], &vec![2, 3]));
    m.change_members_sorted(&vec![3], &vec![1], &vec![2, 3]);
    assert_eq!(m.members, vec![2, 3]);
    assert_eq!(m.prime, None);
}

#[test]
fn inconsistent_changes_are_refused() {
    let mut m = TestChangeMembers::new();
    m.change_members_sorted(&vec![1, 2], &vec![], &vec![1, 2]);
    // new members not sorted
    assert!(!m.is_valid_change(&vec![3], &vec![], &vec![3, 1, 2]));
    // incoming not sorted
    assert!(!m.is_valid_change(&vec![4, 3], &vec![], &vec![1, 2, 3, 4]));
    // outgoing not sorted
    assert!(!m.is_valid_change(&vec![], &vec![2, 1], &vec![]));
    // joining and leaving at once
    assert!(!m.is_valid_change(&vec![3], &vec![3], &vec![1, 2]));
    // the accounts do not add up
    assert!(!m.is_valid_change(&vec![3], &vec![], &vec![1, 2]));
    assert!(!m.is_valid_change(&vec![3], &vec![1], &vec![1, 3]));
}
