use riot_rust_api::rate_limiter::{
    elapsed_between, Admission, RateLimiter, DEFAULT_MAX_REQS_PER_2MIN, DEFAULT_MAX_REQS_PER_SEC,
    LONG_WINDOW_NANOS, SHORT_WINDOW_NANOS,
};

const MS: u64 = 1_000_000;
const SEC: u64 = 1_000_000_000;

#[test]
fn new_limiter_is_empty_and_ready() {
    assert_eq!(DEFAULT_MAX_REQS_PER_2MIN, 80);
    assert_eq!(DEFAULT_MAX_REQS_PER_SEC, 20);
    assert_eq!(SHORT_WINDOW_NANOS, SEC);
    assert_eq!(LONG_WINDOW_NANOS, 120 * SEC);
    let mut limiter = RateLimiter::new(80, 20);
    assert_eq!(limiter.max_reqs_per_2min(), 80);
    assert_eq!(limiter.max_reqs_per_sec(), 20);
    assert_eq!(limiter.short_len(), 0);
    assert_eq!(limiter.long_len(), 0);
    assert_eq!(limiter.wait(0), Admission::Ready);
}

#[test]
fn set_max_reqs_per_2min_replaces_the_cap_only() {
    let mut limiter = RateLimiter::new(80, 20);
    limiter.record(5);
    limiter.set_max_reqs_per_2min(3);
    assert_eq!(limiter.max_reqs_per_2min(), 3);
    assert_eq!(limiter.max_reqs_per_sec(), 20);
    assert_eq!(limiter.short_len(), 1);
    assert_eq!(limiter.long_len(), 1);
}

#[test]
fn short_window_at_cap_waits_until_its_oldest_instant_is_gone() {
    let mut limiter = RateLimiter::new(100, 2);
    assert_eq!(limiter.wait(0), Admission::Ready);
    limiter.record(0);
    assert_eq!(limiter.wait(100 * MS), Admission::Ready);
    limiter.record(100 * MS);
    assert_eq!(limiter.wait(200 * MS), Admission::Wait(800 * MS + 1));
    assert_eq!(limiter.short_len(), 2);
    // A full window after the oldest instant the window is still at its cap.
    assert_eq!(limiter.wait(SEC), Admission::Wait(1));
    assert_eq!(limiter.wait(SEC), Admission::Wait(1));
    assert_eq!(limiter.short_len(), 2);
    // The moment after, the oldest instant is pruned and the request goes through.
    assert_eq!(limiter.wait(SEC + 1), Admission::Ready);
    assert_eq!(limiter.short_len(), 1);
    limiter.record(SEC + 1);
    assert_eq!(limiter.wait(SEC + 2), Admission::Wait(100 * MS - 1));
    assert_eq!(limiter.short_len(), 2);
    assert_eq!(limiter.long_len(), 3);
}

#[test]
fn long_window_at_cap_waits_up_to_two_minutes() {
    let mut limiter = RateLimiter::new(2, 20);
    limiter.record(0);
    limiter.record(60 * SEC);
    assert_eq!(limiter.wait(90 * SEC), Admission::Wait(30 * SEC + 1));
    assert_eq!(limiter.short_len(), 0);
    assert_eq!(limiter.long_len(), 2);
    assert_eq!(limiter.wait(120 * SEC), Admission::Wait(1));
    assert_eq!(limiter.wait(120 * SEC), Admission::Wait(1));
    assert_eq!(limiter.wait(120 * SEC + 1), Admission::Ready);
    assert_eq!(limiter.long_len(), 1);
}

#[test]
fn readings_at_the_edge_of_a_window_are_not_let_through() {
    // Two a second: readings 0, 0.5 s, 1 s, 1 s admit the first two only.
    let mut limiter = RateLimiter::new(80, 2);
    let mut admitted = Vec::new();
    for now in [0, 500 * MS, SEC, SEC] {
        if limiter.wait(now) == Admission::Ready {
            limiter.record(now);
            admitted.push(now);
        }
    }
    assert_eq!(admitted, vec![0, 500 * MS]);
    // Two in two minutes: readings 0, 60 s, 120 s, 120 s admit the first two only.
    let mut limiter = RateLimiter::new(2, 20);
    let mut admitted = Vec::new();
    for now in [0, 60 * SEC, 120 * SEC, 120 * SEC] {
        if limiter.wait(now) == Admission::Ready {
            limiter.record(now);
            admitted.push(now);
        }
    }
    assert_eq!(admitted, vec![0, 60 * SEC]);
}

#[test]
fn short_window_is_asked_before_the_long_one() {
    let mut limiter = RateLimiter::new(1, 1);
    limiter.record(0);
    assert_eq!(limiter.wait(400 * MS), Admission::Wait(600 * MS + 1));
    assert_eq!(limiter.wait(2 * SEC), Admission::Wait(118 * SEC + 1));
}

#[test]
fn lowered_cap_waits_until_the_window_has_room() {
    let mut limiter = RateLimiter::new(5, 20);
    for at in [0, 10 * SEC, 20 * SEC] {
        limiter.record(at);
    }
    limiter.set_max_reqs_per_2min(2);
    assert_eq!(limiter.wait(30 * SEC), Admission::Wait(90 * SEC + 1));
    assert_eq!(limiter.wait(120 * SEC + 1), Admission::Wait(10 * SEC));
    assert_eq!(limiter.wait(130 * SEC + 1), Admission::Ready);
    assert_eq!(limiter.long_len(), 1);
}

#[test]
fn prune_drops_leading_stale_instants_only() {
    let mut limiter = RateLimiter::new(80, 20);
    limiter.record(0);
    limiter.record(500 * MS);
    limiter.record(1500 * MS);
    limiter.prune(1600 * MS);
    assert_eq!(limiter.short_len(), 1);
    assert_eq!(limiter.long_len(), 3);
    limiter.prune(121 * SEC);
    assert_eq!(limiter.short_len(), 0);
    assert_eq!(limiter.long_len(), 1);
}

#[test]
fn cap_of_zero_admits_into_an_empty_window() {
    let mut limiter = RateLimiter::new(0, 0);
    assert_eq!(limiter.wait(0), Admission::Ready);
    limiter.record(0);
    assert_eq!(limiter.wait(1), Admission::Wait(SEC));
    assert_eq!(limiter.wait(SEC + 1), Admission::Wait(119 * SEC));
    assert_eq!(limiter.wait(120 * SEC + 1), Admission::Ready);
}

#[test]
fn admissions_per_window_stay_within_the_caps() {
    // Drives the limiter as a caller would: wait as told, record on admission.
    let short_limit = 3usize;
    let long_limit = 7usize;
    let mut limiter = RateLimiter::new(long_limit, short_limit);
    let mut now: u64 = 0;
    let mut admitted: Vec<u64> = Vec::new();
    while now < 5 * LONG_WINDOW_NANOS {
        match limiter.wait(now) {
            Admission::Ready => {
                now += 1;
                limiter.record(now);
                admitted.push(now);
                now += 1;
            }
            Admission::Wait(nanos) => {
                assert!(nanos > 0);
                now += nanos;
            }
        }
    }
    assert!(admitted.len() >= 5 * long_limit);
    for (i, at) in admitted.iter().enumerate() {
        let in_short = admitted[..=i].iter().filter(|t| at - **t < SHORT_WINDOW_NANOS).count();
        let in_long = admitted[..=i].iter().filter(|t| at - **t < LONG_WINDOW_NANOS).count();
        assert!(in_short <= short_limit);
        assert!(in_long <= long_limit);
        if i >= short_limit {
            assert!(at - admitted[i - short_limit] >= SHORT_WINDOW_NANOS);
        }
        if i >= long_limit {
            assert!(at - admitted[i - long_limit] >= LONG_WINDOW_NANOS);
        }
    }
}

#[test]
fn elapsed_between_is_zero_for_an_instant_ahead() {
    assert_eq!(elapsed_between(10, 3), 7);
    assert_eq!(elapsed_between(3, 10), 0);
    assert_eq!(elapsed_between(3, 3), 0);
}
