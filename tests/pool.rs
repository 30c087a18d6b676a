use stonescriptdb_gateway::pool::{Admission, PoolBudget};

#[test]
fn lru_pool_is_evicted_under_budget() {
    let mut b = PoolBudget::new(10, 30);
    for (t, db) in ["d1", "d2", "d3"].iter().enumerate() {
        assert!(matches!(b.acquire(db, t as u64 + 1), Some(Admission::Created { .. })));
    }
    assert_eq!(b.total_connections(), 30);
    assert!(matches!(b.acquire("d1", 4), Some(Admission::Reused)));
    match b.acquire("d4", 5) {
        Some(Admission::Created { evicted }) => assert_eq!(evicted, vec!["d2".to_string()]),
        other => panic!("unexpected {:?}", other),
    }
    assert_eq!(b.total_connections(), 30);
    assert_eq!(b.active_pools(), 3);
    let names: Vec<&str> = b.entries.iter().map(|e| e.database.as_str()).collect();
    assert_eq!(names, vec!["d1", "d3", "d4"]);
}

#[test]
fn idle_cleanup_keeps_accounting() {
    let mut b = PoolBudget::new(10, 200);
    b.acquire("a", 0);
    b.acquire("b", 100);
    b.acquire("c", 1000);
    let removed = b.cleanup_idle(2000, 1950);
    assert_eq!(removed, vec!["a".to_string()]);
    assert_eq!(b.total_connections(), 20);
    assert_eq!(b.active_pools(), 2);
    assert!(b.acquire("x", 1).is_some());
    let mut tiny = PoolBudget::new(10, 5);
    assert!(tiny.acquire("x", 1).is_none());
}
