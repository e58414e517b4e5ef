use feedrv3::concurrency::ConcurrencyGuards;

#[test]
fn per_host_cap_holds_for_one_busy_host() {
    let mut g = ConcurrencyGuards::new(16, 2);
    let h = "h.example".to_string();
    let admitted = (0..10).filter(|_| g.try_acquire(&h)).count();
    assert_eq!(admitted, 2);
    assert_eq!(g.host_in_flight(&h), 2);
    assert!(g.global_in_flight() <= 10);
    assert!(g.release(&h));
    assert!(g.try_acquire(&h));
    assert!(!g.try_acquire(&h));
}

#[test]
fn global_cap_holds_across_hosts() {
    let mut g = ConcurrencyGuards::new(3, 2);
    let hosts: Vec<String> = (0..5).map(|i| format!("h{i}")).collect();
    let admitted = hosts.iter().filter(|h| g.try_acquire(h)).count();
    assert_eq!(admitted, 3);
    assert_eq!(g.global_in_flight(), 3);
    assert_eq!(g.host_in_flight(&hosts[4]), 0);
    assert!(!g.try_acquire(&hosts[4]));
    assert!(g.release(&hosts[0]));
    assert_eq!(g.global_in_flight(), 2);
    assert!(g.try_acquire(&hosts[4]));
}

#[test]
fn release_without_acquire_changes_nothing() {
    let mut g = ConcurrencyGuards::new(4, 4);
    let h = "a".to_string();
    assert!(!g.release(&h));
    assert_eq!(g.global_in_flight(), 0);
    assert!(g.try_acquire(&h));
    assert!(g.release(&h));
    assert!(!g.release(&h));
    assert_eq!(g.host_in_flight(&h), 0);
}

#[test]
fn zero_capacity_admits_nothing() {
    let mut g = ConcurrencyGuards::new(0, 4);
    assert!(!g.try_acquire(&"a".to_string()));
    let mut p = ConcurrencyGuards::new(4, 0);
    assert!(!p.try_acquire(&"a".to_string()));
    assert_eq!(p.global_in_flight(), 0);
}
