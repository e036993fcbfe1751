use stardust::client_ip::ClientIdentity;
use stardust::rate_limiting::{
    Admission, Decision, Evictor, RateLimiterState, WindowRecord, LIMIT, STALE_NANOS, SWEEP_PERIOD_NANOS,
    WINDOW_NANOS,
};
use stardust::response::TOO_MANY_REQUESTS;

const MS: u64 = 1_000_000;
const SEC: u64 = 1_000_000_000;

fn v4(a: u8, b: u8, c: u8, d: u8) -> ClientIdentity {
    ClientIdentity::V4(u32::from_be_bytes([a, b, c, d]))
}

#[test]
fn defaults_are_kept() {
    assert_eq!(WINDOW_NANOS, SEC);
    assert_eq!(LIMIT, 2);
    assert_eq!(STALE_NANOS, 300 * SEC);
    assert_eq!(SWEEP_PERIOD_NANOS, 60 * SEC);
}

#[test]
fn first_request_is_admitted() {
    let mut store = RateLimiterState::new();
    let id = v4(10, 0, 0, 1);
    assert_eq!(store.record(id), None);
    assert_eq!(store.check_and_increment(id, 5 * SEC), Decision::Admit);
    assert_eq!(store.record(id), Some(WindowRecord { window_start: 5 * SEC, count: 1 }));
}

#[test]
fn burst_admits_limit_then_rejects() {
    let mut store = RateLimiterState::new();
    let id = v4(10, 0, 0, 2);
    let mut decisions = Vec::new();
    for k in 0..6u64 {
        decisions.push(store.check_and_increment(id, 7 * SEC + k * MS));
        assert_eq!(store.record(id), Some(WindowRecord { window_start: 7 * SEC, count: k + 1 }));
    }
    assert_eq!(
        decisions,
        vec![
            Decision::Admit,
            Decision::Admit,
            Decision::Reject,
            Decision::Reject,
            Decision::Reject,
            Decision::Reject
        ]
    );
}

#[test]
fn rejected_requests_still_count() {
    let mut store = RateLimiterState::new();
    let id = v4(10, 0, 0, 3);
    for _ in 0..3 {
        store.check_and_increment(id, 0);
    }
    assert_eq!(store.record(id), Some(WindowRecord { window_start: 0, count: 3 }));
    assert_eq!(store.check_and_increment(id, 1), Decision::Reject);
    assert_eq!(store.record(id), Some(WindowRecord { window_start: 0, count: 4 }));
}

#[test]
fn window_boundary_is_exclusive() {
    let mut store = RateLimiterState::new();
    let id = v4(10, 0, 0, 4);
    for _ in 0..3 {
        store.check_and_increment(id, 2 * SEC);
    }
    // exactly one window length later the old window still holds
    assert_eq!(store.check_and_increment(id, 3 * SEC), Decision::Reject);
    assert_eq!(store.record(id), Some(WindowRecord { window_start: 2 * SEC, count: 4 }));
    // one nanosecond more and a new window begins
    assert_eq!(store.check_and_increment(id, 3 * SEC + 1), Decision::Admit);
    assert_eq!(store.record(id), Some(WindowRecord { window_start: 3 * SEC + 1, count: 1 }));
}

#[test]
fn idle_client_starts_a_new_window() {
    let mut store = RateLimiterState::new();
    let id = v4(10, 0, 0, 5);
    for _ in 0..10 {
        store.check_and_increment(id, SEC);
    }
    assert_eq!(store.check_and_increment(id, SEC + 10), Decision::Reject);
    assert_eq!(store.check_and_increment(id, 3 * SEC), Decision::Admit);
    assert_eq!(store.record(id), Some(WindowRecord { window_start: 3 * SEC, count: 1 }));
}

#[test]
fn two_windows_may_admit_twice_the_limit() {
    let mut store = RateLimiterState::new();
    let id = v4(10, 0, 0, 6);
    let times = [0, 900 * MS, 1001 * MS, 1002 * MS, 1003 * MS];
    let mut admitted = 0;
    for t in times {
        if store.check_and_increment(id, t) == Decision::Admit {
            admitted += 1;
        }
    }
    assert_eq!(admitted, 4);
}

#[test]
fn clock_running_backwards_counts_in_the_same_window() {
    let mut store = RateLimiterState::new();
    let id = v4(10, 0, 0, 7);
    assert_eq!(store.check_and_increment(id, 5 * SEC), Decision::Admit);
    assert_eq!(store.check_and_increment(id, 4 * SEC), Decision::Admit);
    assert_eq!(store.check_and_increment(id, 0), Decision::Reject);
    assert_eq!(store.record(id), Some(WindowRecord { window_start: 5 * SEC, count: 3 }));
}

#[test]
fn count_stops_at_its_largest_value() {
    let full = WindowRecord { window_start: 0, count: u64::MAX };
    let next = full.advance(1);
    assert_eq!(next, WindowRecord { window_start: 0, count: u64::MAX });
    assert_eq!(next.decision(), Decision::Reject);
    let almost = WindowRecord { window_start: 0, count: u64::MAX - 1 };
    assert_eq!(almost.advance(1).count, u64::MAX);
}

#[test]
fn record_steps() {
    assert_eq!(WindowRecord::first(9), WindowRecord { window_start: 9, count: 1 });
    let r = WindowRecord { window_start: 100, count: 1 };
    assert_eq!(r.advance(100 + SEC), WindowRecord { window_start: 100, count: 2 });
    assert_eq!(r.advance(101 + SEC), WindowRecord { window_start: 101 + SEC, count: 1 });
    assert_eq!(WindowRecord { window_start: 0, count: 2 }.decision(), Decision::Admit);
    assert_eq!(WindowRecord { window_start: 0, count: 3 }.decision(), Decision::Reject);
    assert!(!r.stale_at(100 + 300 * SEC));
    assert!(r.stale_at(101 + 300 * SEC));
    assert!(!r.stale_at(0));
}

#[test]
fn identities_do_not_influence_each_other() {
    let a = v4(1, 1, 1, 1);
    let b = v4(2, 2, 2, 2);
    let c = ClientIdentity::V6(1);

    let mut alone = RateLimiterState::new();
    let mut alone_decisions = Vec::new();
    for k in 0..4u64 {
        alone_decisions.push(alone.check_and_increment(b, k));
    }

    let mut shared = RateLimiterState::new();
    let mut shared_decisions = Vec::new();
    for k in 0..4u64 {
        for _ in 0..5 {
            shared.check_and_increment(a, k);
            shared.check_and_increment(c, k);
        }
        shared_decisions.push(shared.check_and_increment(b, k));
    }
    assert_eq!(alone_decisions, shared_decisions);
    assert_eq!(alone.record(b), shared.record(b));
    assert_eq!(shared.record(a), Some(WindowRecord { window_start: 0, count: 20 }));
    assert_eq!(shared.record(c), Some(WindowRecord { window_start: 0, count: 20 }));
}

#[test]
fn v4_and_v6_with_the_same_bits_are_distinct() {
    let mut store = RateLimiterState::new();
    let four = ClientIdentity::V4(7);
    let six = ClientIdentity::V6(7);
    for _ in 0..3 {
        store.check_and_increment(four, 0);
    }
    assert_eq!(store.record(six), None);
    assert_eq!(store.check_and_increment(six, 0), Decision::Admit);
    assert_eq!(store.record(four), Some(WindowRecord { window_start: 0, count: 3 }));
}

#[test]
fn sweep_removes_stale_records_only() {
    let mut store = RateLimiterState::new();
    let old = v4(3, 3, 3, 3);
    let old_six = ClientIdentity::V6(0xfe80 << 112);
    let edge = v4(4, 4, 4, 4);
    let recent = v4(5, 5, 5, 5);
    store.check_and_increment(old, 0);
    store.check_and_increment(old_six, 10);
    store.check_and_increment(edge, SEC);
    store.check_and_increment(recent, 200 * SEC);
    store.sweep(301 * SEC);
    assert_eq!(store.record(old), None);
    assert_eq!(store.record(old_six), None);
    // exactly the threshold is not yet stale
    assert_eq!(store.record(edge), Some(WindowRecord { window_start: SEC, count: 1 }));
    assert_eq!(store.record(recent), Some(WindowRecord { window_start: 200 * SEC, count: 1 }));
    store.sweep(301 * SEC + 1);
    assert_eq!(store.record(edge), None);
    assert_eq!(store.record(recent), Some(WindowRecord { window_start: 200 * SEC, count: 1 }));
}

#[test]
fn swept_client_is_treated_as_new() {
    let mut store = RateLimiterState::new();
    let id = v4(6, 6, 6, 6);
    for _ in 0..50 {
        store.check_and_increment(id, 0);
    }
    store.sweep(300 * SEC + 1);
    assert_eq!(store.record(id), None);
    assert_eq!(store.check_and_increment(id, 300 * SEC + 2), Decision::Admit);
    assert_eq!(store.record(id), Some(WindowRecord { window_start: 300 * SEC + 2, count: 1 }));
}

#[test]
fn sweep_of_an_empty_store() {
    let mut store = RateLimiterState::new();
    store.sweep(u64::MAX);
    assert_eq!(store.record(v4(1, 2, 3, 4)), None);
}

#[test]
fn simultaneous_requests_admit_at_most_the_limit() {
    let mut store = RateLimiterState::new();
    let id = v4(8, 8, 8, 8);
    let mut admitted = 0u64;
    for _ in 0..100 {
        if store.check_and_increment(id, 42 * SEC) == Decision::Admit {
            admitted += 1;
        }
    }
    assert_eq!(admitted, LIMIT);
}

#[test]
fn scenario_three_quick_requests_then_a_late_one() {
    let mut store = RateLimiterState::new();
    let id = v4(1, 2, 3, 4);
    assert_eq!(store.check_and_increment(id, 0), Decision::Admit);
    assert_eq!(store.check_and_increment(id, 100 * MS), Decision::Admit);
    assert_eq!(store.check_and_increment(id, 200 * MS), Decision::Reject);
    assert_eq!(store.check_and_increment(id, 1300 * MS), Decision::Admit);
}

#[test]
fn handle_forwards_then_refuses() {
    let mut store = RateLimiterState::new();
    let ip = Some(v4(1, 2, 3, 4));
    assert!(matches!(store.handle(ip, 0), Admission::Forward));
    assert!(matches!(store.handle(ip, 1), Admission::Forward));
    match store.handle(ip, 2) {
        Admission::Refuse(reply) => {
            assert_eq!(reply.status_code, TOO_MANY_REQUESTS);
            assert_eq!(reply.status_code, 429);
            assert_eq!(reply.body.status, "Error");
            assert_eq!(reply.body.message, "Too many requests");
        }
        Admission::Forward => panic!("the third request must be refused"),
    }
    assert_eq!(store.record(v4(1, 2, 3, 4)), Some(WindowRecord { window_start: 0, count: 3 }));
}

#[test]
fn requests_without_an_address_share_the_loopback_counter() {
    let mut store = RateLimiterState::new();
    assert!(matches!(store.handle(None, 0), Admission::Forward));
    assert!(matches!(store.handle(None, 1), Admission::Forward));
    assert!(matches!(store.handle(None, 2), Admission::Refuse(_)));
    assert_eq!(
        store.record(v4(127, 0, 0, 1)),
        Some(WindowRecord { window_start: 0, count: 3 })
    );
    // a request that names the loopback address lands on the same counter
    assert!(matches!(store.handle(Some(v4(127, 0, 0, 1)), 3), Admission::Refuse(_)));
}

#[test]
fn evictor_sweeps_once_per_period() {
    let mut store = RateLimiterState::new();
    let id = v4(9, 9, 9, 1);
    store.check_and_increment(id, 0);
    let mut evictor = Evictor::new(0);
    assert_eq!(evictor.next_sweep, 60 * SEC);
    assert_eq!(evictor.wait_nanos(0), 60 * SEC);
    assert_eq!(evictor.wait_nanos(59 * SEC), SEC);
    assert_eq!(evictor.wait_nanos(61 * SEC), 0);
    assert!(!evictor.tick(&mut store, 60 * SEC - 1));
    assert_eq!(evictor.next_sweep, 60 * SEC);
    // sweeps at 60, 120, 180, 240 and 300 seconds keep the record
    for k in 1..=5u64 {
        assert!(evictor.tick(&mut store, k * 60 * SEC));
        assert_eq!(evictor.next_sweep, (k + 1) * 60 * SEC);
        assert_eq!(store.record(id), Some(WindowRecord { window_start: 0, count: 1 }));
    }
    assert!(!evictor.tick(&mut store, 301 * SEC));
    assert_eq!(store.record(id), Some(WindowRecord { window_start: 0, count: 1 }));
    assert!(evictor.tick(&mut store, 360 * SEC));
    assert_eq!(store.record(id), None);
}

#[test]
fn evictor_at_the_end_of_time() {
    let mut store = RateLimiterState::new();
    let mut evictor = Evictor::new(u64::MAX - 5);
    assert_eq!(evictor.next_sweep, u64::MAX);
    assert_eq!(evictor.wait_nanos(u64::MAX - 5), 5);
    assert!(evictor.tick(&mut store, u64::MAX));
    assert_eq!(evictor.next_sweep, u64::MAX);
}
