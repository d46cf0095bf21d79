use fischl::limiter::{
    limiting_applies, max_tokens, mul_capped, set_global_download_speed_limit_kib, tokens_per_refill,
    BucketStep, ConsumeAction, ConsumeRequest, DownloadRateLimiter,
};

#[test]
fn refill_sizes() {
    assert_eq!(tokens_per_refill(0), 1);
    assert_eq!(tokens_per_refill(39), 1);
    assert_eq!(tokens_per_refill(40_000), 1000);
    assert_eq!(max_tokens(40_000), 2000);
    assert_eq!(max_tokens(100), 5);
    assert_eq!(max_tokens(10), 1);
    assert_eq!(mul_capped(3, 4), 12);
    assert_eq!(mul_capped(u64::MAX, 2), u64::MAX);
}

#[test]
fn limiting_applies_only_with_limit_and_bytes() {
    assert!(!limiting_applies(0, 10));
    assert!(!limiting_applies(10, 0));
    assert!(limiting_applies(10, 10));
}

#[test]
fn speed_limit_from_kib() {
    let mut l = DownloadRateLimiter::new();
    assert_eq!(l.limit_bps(), 0);
    set_global_download_speed_limit_kib(&mut l, 100);
    assert_eq!(l.limit_bps(), 102_400);
    set_global_download_speed_limit_kib(&mut l, u64::MAX);
    assert_eq!(l.limit_bps(), u64::MAX);
    set_global_download_speed_limit_kib(&mut l, 0);
    assert_eq!(l.limit_bps(), 0);
}

#[test]
fn empty_bucket_waits_for_the_interval() {
    let mut l = DownloadRateLimiter::new();
    // 10 ms after the last refill, nothing yet: wait the remaining 15 ms
    assert_eq!(l.step_at(40_000, 5000, 10_000_000), BucketStep::Wait(15_000_000));
}

#[test]
fn refill_is_capped_at_capacity() {
    let mut l = DownloadRateLimiter::new();
    // 4 intervals of 1000 tokens, capped at 2000
    assert_eq!(l.step_at(40_000, 5000, 100_000_000), BucketStep::Take(2000));
    // the refill moved on by whole intervals: 10 ms later, nothing new
    assert_eq!(l.step_at(40_000, 3000, 110_000_000), BucketStep::Wait(15_000_000));
    assert_eq!(l.step_at(40_000, 3000, 125_000_000), BucketStep::Take(1000));
}

#[test]
fn take_is_bounded_by_request() {
    let mut l = DownloadRateLimiter::new();
    assert_eq!(l.step_at(40_000, 300, 25_000_000), BucketStep::Take(300));
    assert_eq!(l.step_at(40_000, 1000, 25_000_000), BucketStep::Take(700));
}

#[test]
fn unlimited_consume_finishes_at_once() {
    let mut l = DownloadRateLimiter::new();
    let mut r = ConsumeRequest::begin(&l, 8192);
    assert_eq!(r.remaining(), 0);
    assert_eq!(r.poll(&mut l, false), ConsumeAction::Finished(true));
}

#[test]
fn consume_sleeps_then_takes() {
    let mut l = DownloadRateLimiter::new();
    l.set_limit_bps(40_000);
    let mut r = ConsumeRequest::begin(&l, 1500);
    assert_eq!(r.remaining(), 1500);
    assert_eq!(r.poll_at(&mut l, false, 5_000_000), ConsumeAction::Sleep(20_000_000));
    assert_eq!(r.poll_at(&mut l, false, 25_000_000), ConsumeAction::Again);
    assert_eq!(r.remaining(), 500);
    assert_eq!(r.poll_at(&mut l, false, 30_000_000), ConsumeAction::Sleep(20_000_000));
    assert_eq!(r.poll_at(&mut l, false, 50_000_000), ConsumeAction::Again);
    assert_eq!(r.remaining(), 0);
    assert_eq!(r.poll_at(&mut l, false, 50_000_000), ConsumeAction::Finished(true));
}

#[test]
fn consume_cancelled() {
    let mut l = DownloadRateLimiter::new();
    l.set_limit_bps(40_000);
    let mut r = ConsumeRequest::begin(&l, 1500);
    assert_eq!(r.poll_at(&mut l, true, 100_000_000), ConsumeAction::Finished(false));
    assert_eq!(r.remaining(), 1500);
}

#[test]
fn rate_holds_over_a_second() {
    let mut l = DownloadRateLimiter::new();
    let mut through = 0u64;
    for k in 1..=40u128 {
        match l.step_at(40_000, u64::MAX, k * 25_000_000) {
            BucketStep::Take(n) => through += n,
            BucketStep::Wait(_) => panic!("a refill is due"),
        }
    }
    // one second at 40 000 bytes/s
    assert_eq!(through, 40_000);
}

#[test]
fn full_bucket_window_bound() {
    let mut l = DownloadRateLimiter::new();
    // fill the bucket without taking anything
    assert_eq!(l.step_at(40_000, 0, 100_000_000), BucketStep::Take(0));
    let mut through = 0u64;
    let mut now = 100_000_000u128;
    while now <= 1_100_000_000 {
        if let BucketStep::Take(n) = l.step_at(40_000, u64::MAX, now) {
            through += n;
        }
        now += 5_000_000;
    }
    // capacity 2000, plus one refill of 1000, plus 40 000 bytes for the second
    assert!(through <= 2000 + 1000 + 40_000);
    assert_eq!(through, 42_000);
}
