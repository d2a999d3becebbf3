use torrential::admission::{Semaphore, Waiter};

#[test]
fn a_new_ledger_has_nothing_out() {
    let ledger = Semaphore::new(4);
    assert_eq!(ledger.capacity(), 4);
    assert_eq!(ledger.held(), 0);
    assert_eq!(ledger.waiting(), 0);
}

#[test]
fn requests_are_granted_in_order() {
    let mut ledger = Semaphore::new(4);
    let first = ledger.request(3);
    let second = ledger.request(1);
    assert_eq!((first, second), (0, 1));
    assert_eq!(ledger.grant(), Some(Waiter { ticket: 0, permits: 3 }));
    assert_eq!(ledger.grant(), Some(Waiter { ticket: 1, permits: 1 }));
    assert_eq!(ledger.grant(), None);
    assert_eq!(ledger.held(), 4);
}

#[test]
fn nobody_overtakes_the_head() {
    let mut ledger = Semaphore::new(4);
    ledger.request(3);
    ledger.request(3);
    ledger.request(1);
    assert_eq!(ledger.grant(), Some(Waiter { ticket: 0, permits: 3 }));
    // One permit is left and the third request would fit, but the second is first.
    assert_eq!(ledger.grant(), None);
    assert_eq!(ledger.held(), 3);
    assert_eq!(ledger.waiting(), 2);
    ledger.release(3);
    assert_eq!(ledger.grant(), Some(Waiter { ticket: 1, permits: 3 }));
    assert_eq!(ledger.grant(), Some(Waiter { ticket: 2, permits: 1 }));
    assert_eq!(ledger.held(), 4);
}

#[test]
fn excess_requests_queue_and_never_exceed_capacity() {
    let mut ledger = Semaphore::new(10);
    for _ in 0..8 {
        ledger.request(3);
    }
    let mut granted = 0;
    while ledger.grant().is_some() {
        granted += 1;
        assert!(ledger.held() <= ledger.capacity());
    }
    assert_eq!(granted, 3);
    assert_eq!(ledger.held(), 9);
    assert_eq!(ledger.waiting(), 5);
    while ledger.waiting() > 0 {
        ledger.release(3);
        assert_eq!(ledger.grant().map(|waiter| waiter.permits), Some(3));
        assert!(ledger.held() <= ledger.capacity());
    }
}

#[test]
fn a_request_beyond_the_capacity_is_never_granted() {
    let mut ledger = Semaphore::new(2);
    ledger.request(3);
    assert_eq!(ledger.grant(), None);
    assert_eq!(ledger.waiting(), 1);
    assert!(ledger.cancel(0));
    assert_eq!(ledger.waiting(), 0);
}

#[test]
fn release_never_goes_below_zero() {
    let mut ledger = Semaphore::new(2);
    ledger.request(2);
    ledger.grant();
    ledger.release(5);
    assert_eq!(ledger.held(), 0);
}

#[test]
fn cancel_takes_the_request_out_of_the_queue() {
    let mut ledger = Semaphore::new(1);
    ledger.request(1);
    let second = ledger.request(1);
    let third = ledger.request(1);
    assert!(ledger.cancel(second));
    assert!(!ledger.cancel(second));
    assert!(!ledger.cancel(99));
    assert_eq!(ledger.waiting(), 2);
    assert_eq!(ledger.grant(), Some(Waiter { ticket: 0, permits: 1 }));
    ledger.release(1);
    assert_eq!(ledger.grant(), Some(Waiter { ticket: third, permits: 1 }));
}

#[test]
fn the_build_permit_is_one() {
    let mut ledger = Semaphore::new(1);
    ledger.request(1);
    ledger.request(1);
    assert!(ledger.grant().is_some());
    assert!(ledger.grant().is_none());
    ledger.release(1);
    assert!(ledger.grant().is_some());
}

#[test]
fn asking_for_nothing_is_granted_at_once() {
    let mut ledger = Semaphore::new(0);
    ledger.request(0);
    assert_eq!(ledger.grant(), Some(Waiter { ticket: 0, permits: 0 }));
    assert_eq!(ledger.held(), 0);
}
