use rabbit::server::tunnel_agent::SocketPool;

#[test]
fn tunnel_agent_should_return_idle_socket_immediately() {
    let mut pool: SocketPool<u32, &str> = SocketPool::new();
    assert!(pool.on_socket(7).is_none());
    assert_eq!(pool.available_count(), 1);
    assert_eq!(pool.take_idle(), Some(7));
    assert_eq!(pool.available_count(), 0);
    assert_eq!(pool.total_count(), 1);
}

#[test]
fn tunnel_agent_should_deliver_socket_to_waiter_when_pool_empty() {
    let mut pool: SocketPool<u32, &str> = SocketPool::new();
    assert!(pool.take_idle().is_none());
    pool.add_waiter("first");
    let handed = pool.on_socket(9);
    assert_eq!(handed, Some(("first", 9)));
    assert_eq!(pool.available_count(), 0);
    assert_eq!(pool.total_count(), 1);
}

#[test]
fn waiters_are_served_in_order() {
    let mut pool: SocketPool<u32, &str> = SocketPool::new();
    pool.add_waiter("a");
    pool.add_waiter("b");
    assert_eq!(pool.on_socket(1), Some(("a", 1)));
    assert_eq!(pool.on_socket(2), Some(("b", 2)));
    assert_eq!(pool.on_socket(3), None);
    assert_eq!(pool.take_idle(), Some(3));
}

#[test]
fn failed_handoff_keeps_the_socket() {
    let mut pool: SocketPool<u32, &str> = SocketPool::new();
    pool.add_waiter("gone");
    assert_eq!(pool.on_socket(1), Some(("gone", 1)));
    assert_eq!(pool.handoff_failed(1), None);
    assert_eq!(pool.available_count(), 1);
    assert_eq!(pool.total_count(), 1);
    assert_eq!(pool.take_idle(), Some(1));
}

#[test]
fn failed_handoff_goes_to_next_waiter() {
    let mut pool: SocketPool<u32, &str> = SocketPool::new();
    pool.add_waiter("gone");
    pool.add_waiter("next");
    assert_eq!(pool.on_socket(5), Some(("gone", 5)));
    assert_eq!(pool.handoff_failed(5), Some(("next", 5)));
    assert_eq!(pool.available_count(), 0);
    assert_eq!(pool.total_count(), 1);
}

#[test]
fn both_paths_count_handed_out_sockets() {
    let mut a: SocketPool<u32, &str> = SocketPool::new();
    a.on_socket(1);
    assert_eq!(a.take_idle(), Some(1));
    let mut b: SocketPool<u32, &str> = SocketPool::new();
    b.add_waiter("w");
    assert_eq!(b.on_socket(2), Some(("w", 2)));
    assert_eq!(a.total_count(), 1);
    assert_eq!(b.total_count(), 1);
}

#[test]
fn available_never_exceeds_total() {
    let mut pool: SocketPool<u32, &str> = SocketPool::new();
    pool.on_socket(1);
    pool.on_socket(2);
    assert_eq!(pool.take_idle(), Some(1));
    assert!(pool.available_count() <= pool.total_count());
    assert_eq!(pool.total_count(), 2);
    assert_eq!(pool.available_count(), 1);
}
