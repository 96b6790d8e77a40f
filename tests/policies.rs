use rust_client_adapter::config::{parse_port, use_api_from};
use rust_client_adapter::decimal::{append_decimal, append_signed, parse_i64};
use rust_client_adapter::rate_limiter::RateLimiter;
use rust_client_adapter::retry::{RetryPolicy, RetryStep};

#[test]
fn three_attempts_then_exhausted() {
    let p = RetryPolicy::new(3, 100);
    let mut made: u32 = 0;
    let mut waits = Vec::new();
    loop {
        made += 1;
        match p.after_failure(made) {
            RetryStep::RetryAfter(d) => waits.push(d),
            RetryStep::Exhausted => break,
        }
    }
    assert_eq!(made, 3);
    assert_eq!(waits, vec![100, 200]);
}

#[test]
fn backoff_doubles_and_saturates() {
    let p = RetryPolicy::new(100, 1000);
    assert_eq!(p.delay_before(1), 0);
    assert_eq!(p.delay_before(2), 1000);
    assert_eq!(p.delay_before(3), 2000);
    assert_eq!(p.delay_before(5), 8000);
    assert_eq!(p.delay_before(80), u64::MAX);
    assert_eq!(RetryPolicy::new(0, 5).after_failure(1), RetryStep::Exhausted);
}

#[test]
fn gate_spaces_calls() {
    let mut g = RateLimiter::new(10_000);
    assert_eq!(g.wait_before(5), 0);
    g.record_call_end(1_000);
    assert_eq!(g.wait_before(1_000), 10_000);
    assert_eq!(g.wait_before(5_000), 6_000);
    assert_eq!(g.wait_before(11_000), 0);
    assert_eq!(g.wait_before(50_000), 0);
    // a call that started at 500 and ended at 1000, then one asking at 4000
    let start = 4_000 + g.wait_before(4_000);
    assert!(start - 500 >= 10_000);
}

#[test]
fn decimal_reading() {
    assert_eq!(parse_i64("0"), Some(0));
    assert_eq!(parse_i64("+17"), Some(17));
    assert_eq!(parse_i64("-9223372036854775808"), Some(i64::MIN));
    assert_eq!(parse_i64("9223372036854775807"), Some(i64::MAX));
    assert_eq!(parse_i64("-9223372036854775809"), None);
    assert_eq!(parse_i64("-"), None);
    assert_eq!(parse_i64("1 2"), None);
}

#[test]
fn decimal_writing() {
    let mut s = String::from("n=");
    append_decimal(&mut s, 0);
    assert_eq!(s, "n=0");
    let mut t = String::new();
    append_decimal(&mut t, u64::MAX);
    assert_eq!(t, "18446744073709551615");
    let mut u = String::new();
    append_signed(&mut u, i64::MIN);
    assert_eq!(u, "-9223372036854775808");
}

#[test]
fn settings() {
    assert!(use_api_from(Some("true")));
    assert!(!use_api_from(Some("TRUE")));
    assert!(!use_api_from(None));
    assert_eq!(parse_port("5432"), Some(5432));
    assert_eq!(parse_port("+80"), Some(80));
    assert_eq!(parse_port("65536"), None);
    assert_eq!(parse_port("-0"), None);
    assert_eq!(parse_port(""), None);
}
