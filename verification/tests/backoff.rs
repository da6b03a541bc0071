use std::time::{Duration, Instant};

use cherry_pit::wq::backoff::BackoffRegulator;

#[test]
fn set_backoff_never_shortens_already_armed_resume_at() {
    let mut regulator = BackoffRegulator::new();
    let far = Instant::now() + Duration::from_secs(100);
    let near = Instant::now() + Duration::from_secs(1);

    regulator.set_backoff(far);
    regulator.set_backoff(near);

    assert_eq!(
        regulator.resume_at(),
        Some(far),
        "a later set_backoff call with an earlier resume_at must not shorten the armed wait"
    );
}

#[test]
fn set_backoff_extends_when_new_resume_at_is_later() {
    let mut regulator = BackoffRegulator::new();
    let near = Instant::now() + Duration::from_secs(1);
    let far = Instant::now() + Duration::from_secs(100);

    regulator.set_backoff(near);
    regulator.set_backoff(far);

    assert_eq!(regulator.resume_at(), Some(far));
}

#[test]
fn fresh_regulator_is_unarmed_and_admits() {
    let regulator = BackoffRegulator::new();
    assert_eq!(regulator.resume_at(), None);
    assert_eq!(regulator.resume_at_offset(), None);
    assert_eq!(regulator.wait_before_admit(0), None);
    assert_eq!(regulator.wait_before_admit(u128::MAX), None);
    let default = BackoffRegulator::default();
    assert_eq!(default.resume_at_offset(), None);
}

#[test]
fn armed_offset_is_monotone_and_saturating() {
    let mut regulator = BackoffRegulator::new();
    regulator.set_backoff_offset(500);
    assert_eq!(regulator.resume_at_offset(), Some(500));
    regulator.set_backoff_offset(200);
    assert_eq!(regulator.resume_at_offset(), Some(500));
    regulator.set_backoff_offset(u128::MAX);
    assert_eq!(regulator.resume_at_offset(), Some(u64::MAX));
}

#[test]
fn admission_waits_until_the_resume_offset() {
    let mut regulator = BackoffRegulator::new();
    regulator.set_backoff_offset(1_000);
    assert_eq!(regulator.wait_before_admit(400), Some(600));
    assert_eq!(regulator.wait_before_admit(999), Some(1));
    assert_eq!(regulator.wait_before_admit(1_000), None);
    assert_eq!(regulator.wait_before_admit(5_000), None);
}

#[test]
fn backoff_order_does_not_matter() {
    let mut a = BackoffRegulator::new();
    let mut b = BackoffRegulator::new();
    a.set_backoff_offset(10);
    a.set_backoff_offset(70);
    b.set_backoff_offset(70);
    b.set_backoff_offset(10);
    assert_eq!(a.resume_at_offset(), b.resume_at_offset());
}

#[test]
fn past_resume_instant_admits_now() {
    let mut regulator = BackoffRegulator::new();
    let soon = Instant::now() + Duration::from_millis(1);
    regulator.set_backoff(soon);
    let later = Instant::now() + Duration::from_secs(5);
    let now_offset = regulator.offset_of(later);
    assert_eq!(regulator.wait_before_admit(now_offset), None);
}

#[test]
fn armed_offset_is_the_distance_from_creation() {
    let origin_plus_zero = Instant::now();
    let mut regulator = BackoffRegulator::new();
    let at = origin_plus_zero + Duration::from_secs(3);
    regulator.set_backoff(at);
    let offset = regulator.resume_at_offset().expect("armed") as u128;
    assert!(offset > 2_900_000_000 && offset <= 3_000_000_000);
    assert_eq!(regulator.offset_of(at), offset);
    assert_eq!(regulator.resume_at(), Some(at));
    // Instants before creation measure as zero and arm nothing.
    let mut fresh = BackoffRegulator::new();
    let before = origin_plus_zero.checked_sub(Duration::from_secs(1)).unwrap_or(origin_plus_zero);
    assert_eq!(fresh.offset_of(before), 0);
    fresh.set_backoff(before);
    assert_eq!(fresh.resume_at(), None);
}
