use credit_node::connect_pool::ConnectPool;

#[test]
fn connect_pool_cycles_relays_with_bounded_backoff() {
    let mut pool: ConnectPool<u32> = ConnectPool::new(8);
    assert_eq!(pool.on_tick(), None);
    pool.config(vec![10, 20, 30]);
    assert_eq!(pool.on_tick(), Some(0));
    pool.attempt_failed();
    assert_eq!(pool.backoff_ticks, 2);
    // wait one tick, then the next relay
    assert_eq!(pool.on_tick(), None);
    assert_eq!(pool.on_tick(), Some(1));
    pool.attempt_failed();
    assert_eq!(pool.backoff_ticks, 4);
    for _ in 0..2 {
        assert_eq!(pool.on_tick(), None);
    }
    assert_eq!(pool.on_tick(), Some(2));
    pool.attempt_failed();
    assert_eq!(pool.backoff_ticks, 8);
    pool.attempt_failed();
    assert_eq!(pool.backoff_ticks, 8);
    for _ in 0..8 {
        assert_eq!(pool.on_tick(), None);
    }
    // cyclic
    assert_eq!(pool.on_tick(), Some(0));
    pool.attempt_succeeded();
    assert_eq!(pool.backoff_ticks, 1);
    assert_eq!(pool.ticks_left, 0);
    // a new configuration restarts at its first relay, at once
    pool.config(vec![40]);
    assert_eq!(pool.on_tick(), Some(0));
}
