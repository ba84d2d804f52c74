use rocketmq::error::ClientError;
use rocketmq::pool::{Acquired, ConnectionPool};
use rocketmq::retry::RetryPolicy;

#[test]
fn backoff_doubles_up_to_the_cap() {
    let p = RetryPolicy::default();
    assert_eq!(p, RetryPolicy::new(3, 100, 5000));
    assert_eq!(p.backoff(1, 0), 50);
    assert_eq!(p.backoff(1, 7), 57);
    assert_eq!(p.backoff(1, 50), 100);
    assert_eq!(p.backoff(1, 51), 50);
    assert_eq!(p.backoff(3, 0), 200);
    assert_eq!(p.backoff(10, 0), 2500);
    assert_eq!(p.backoff(u32::MAX, u64::MAX), 2500 + u64::MAX % 2501);
}

#[test]
fn endpoints_taken_in_turn() {
    assert_eq!(RetryPolicy::next_endpoint(0, 3), 1);
    assert_eq!(RetryPolicy::next_endpoint(2, 3), 0);
    assert_eq!(RetryPolicy::next_endpoint(0, 1), 0);
}

#[test]
fn only_transient_faults_are_retried() {
    let p = RetryPolicy::new(2, 1, 1);
    let lost = ClientError::ConnectionLost { endpoint: "a".to_owned(), cause: "x".to_owned() };
    assert!(p.should_retry(1, &lost));
    assert!(!p.should_retry(2, &lost));
    let timeout = ClientError::Timeout { endpoint: "a".to_owned() };
    assert!(!p.should_retry(1, &timeout));
}

#[test]
fn pool_reuses_released_connections() {
    let mut pool = ConnectionPool::new();
    assert_eq!(pool.acquire(0), Some(Acquired::Opened { id: 0 }));
    assert!(pool.opened(0));
    assert!(!pool.opened(0));
    // Held: another caller gets a new connection.
    assert_eq!(pool.acquire(0), Some(Acquired::Opened { id: 1 }));
    assert!(pool.release(0));
    assert_eq!(pool.acquire(0), Some(Acquired::Reused { id: 0 }));
    // Another endpoint never gets it.
    assert_eq!(pool.acquire(1), Some(Acquired::Opened { id: 2 }));
    assert_eq!(pool.len(), 3);
}

#[test]
fn pool_drops_invalidated_connections() {
    let mut pool = ConnectionPool::new();
    assert_eq!(pool.acquire(0), Some(Acquired::Opened { id: 0 }));
    assert!(!pool.release(0));
    assert!(pool.invalidate(0));
    assert!(!pool.invalidate(0));
    assert_eq!(pool.len(), 0);
    assert_eq!(pool.acquire(0), Some(Acquired::Opened { id: 1 }));
}
