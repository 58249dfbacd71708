use privacy_rpc_proxy::poller::ProcessedSet;

#[test]
fn test_processed_set_membership() {
    let mut set = ProcessedSet::new();
    assert!(!set.contains(5));
    set.insert(5);
    assert!(set.contains(5));
    assert!(!set.contains(6));
}

#[test]
fn test_surface_selects_only_fresh_ids() {
    let mut set = ProcessedSet::new();
    set.insert(1);

    let fresh = set.surface_new_batches(&vec![0, 1, 2]);
    assert_eq!(fresh, vec![0, 2]);
    assert!(set.contains(0));
    assert!(set.contains(1));
    assert!(set.contains(2));
}

#[test]
fn test_second_cycle_surfaces_nothing() {
    // Two cycles over an unchanged ledger snapshot: the second never
    // surfaces a batch id the first already surfaced.
    let mut set = ProcessedSet::new();
    let snapshot = vec![0, 1, 2];

    let first = set.surface_new_batches(&snapshot);
    assert_eq!(first, vec![0, 1, 2]);

    let second = set.surface_new_batches(&snapshot);
    assert_eq!(second, Vec::<u64>::new());
}
