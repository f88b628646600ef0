use std::time::{Duration, SystemTimeError, UNIX_EPOCH};
use taskbook::clock::{get_unix, seconds_since_epoch};

#[test]
fn time_since_the_epoch_counts_whole_seconds() {
    let whole: Result<Duration, SystemTimeError> = Ok(Duration::new(5, 0));
    assert_eq!(seconds_since_epoch(whole), Some(5));
    let nearly_six: Result<Duration, SystemTimeError> = Ok(Duration::new(5, 999_999_999));
    assert_eq!(seconds_since_epoch(nearly_six), Some(5));
    let none: Result<Duration, SystemTimeError> = Ok(Duration::new(0, 0));
    assert_eq!(seconds_since_epoch(none), Some(0));
    let most: Result<Duration, SystemTimeError> = Ok(Duration::new(u64::MAX, 0));
    assert_eq!(seconds_since_epoch(most), Some(u64::MAX));
    let later = UNIX_EPOCH + Duration::new(1700000000, 250);
    assert_eq!(seconds_since_epoch(later.duration_since(UNIX_EPOCH)), Some(1700000000));
}

#[test]
fn reading_before_the_epoch_gives_no_seconds() {
    let later = UNIX_EPOCH + Duration::new(10, 0);
    let before = UNIX_EPOCH.duration_since(later);
    assert!(before.is_err());
    assert_eq!(seconds_since_epoch(before), None);
}

#[test]
fn clock_reads_seconds_since_the_epoch() {
    let first = get_unix().expect("the clock stands after the epoch");
    assert!(first > 1_600_000_000);
    assert!(first < 100_000_000_000);
    let second = get_unix().expect("the clock stands after the epoch");
    assert!(second >= first);
    assert!(second - first < 60);
}

#[test]
fn created_task_carries_the_time_of_the_clock() {
    let before = get_unix().unwrap();
    let now = get_unix().unwrap();
    let mut store = taskbook::store::Store::new();
    let text = taskbook::snapshot::create(&mut store, "A".to_string(), String::new(), now);
    let after = get_unix().unwrap();
    let loaded = taskbook::snapshot::load_from_text(&text).unwrap();
    assert_eq!(loaded.tasks.len(), 1);
    assert_eq!(loaded.tasks[0].time_created, now);
    assert!(before <= loaded.tasks[0].time_created);
    assert!(loaded.tasks[0].time_created <= after);
    assert!(!loaded.tasks[0].completed);
    assert_eq!(loaded.tasks[0].time_completed, 0);
}
