use std::time::{Duration, SystemTime, UNIX_EPOCH};

use ddc::display_tools::{get_size_color_code, get_time_color_code, ColorCode};
use ddc::file_info::Timestamp;

fn timestamp(time: SystemTime) -> Timestamp {
    let since_epoch = time.duration_since(UNIX_EPOCH).unwrap();
    Timestamp::new(since_epoch.as_secs() as i64, since_epoch.subsec_nanos())
}

fn days(count: u64) -> Duration {
    Duration::from_secs(count * 24 * 60 * 60)
}

#[test]
fn display_tools_test_size_color_coding() {
    assert_eq!(get_size_color_code(1000), ColorCode::Low);
    assert_eq!(get_size_color_code(1000 * 1000), ColorCode::Low);
    assert_eq!(get_size_color_code(50 * 1000 * 1000), ColorCode::Low);
    assert_eq!(get_size_color_code(80 * 1000 * 1000), ColorCode::Low);
    assert_eq!(get_size_color_code(90 * 1000 * 1000), ColorCode::Medium);
    assert_eq!(get_size_color_code(100 * 1000 * 1000), ColorCode::Medium);
    assert_eq!(get_size_color_code(500 * 1000 * 1000), ColorCode::Medium);
    assert_eq!(get_size_color_code(800 * 1000 * 1000), ColorCode::Medium);
    assert_eq!(get_size_color_code(900 * 1000 * 1000), ColorCode::High);
    assert_eq!(get_size_color_code(1000 * 1000 * 1000), ColorCode::High);
}

#[test]
fn display_tools_test_time_color_coding() {
    let system_now = SystemTime::now();
    let now = timestamp(system_now);

    assert_eq!(get_time_color_code(&now, &None), ColorCode::NoColor);
    assert_eq!(
        get_time_color_code(&now, &Some(timestamp(system_now - days(1)))),
        ColorCode::Low
    );
    assert_eq!(
        get_time_color_code(&now, &Some(timestamp(system_now - days(10)))),
        ColorCode::Low
    );
    assert_eq!(
        get_time_color_code(&now, &Some(timestamp(system_now - days(20)))),
        ColorCode::Medium
    );
    assert_eq!(
        get_time_color_code(&now, &Some(timestamp(system_now - days(50)))),
        ColorCode::Medium
    );
    assert_eq!(
        get_time_color_code(&now, &Some(timestamp(system_now - days(60)))),
        ColorCode::High
    );
    assert_eq!(
        get_time_color_code(&now, &Some(timestamp(system_now - days(70)))),
        ColorCode::High
    );
}

#[test]
fn size_color_code_changes_at_its_bounds() {
    assert_eq!(get_size_color_code(0), ColorCode::Low);
    assert_eq!(get_size_color_code(89_999_999), ColorCode::Low);
    assert_eq!(get_size_color_code(90_000_000), ColorCode::Medium);
    assert_eq!(get_size_color_code(899_999_999), ColorCode::Medium);
    assert_eq!(get_size_color_code(900_000_000), ColorCode::High);
    assert_eq!(get_size_color_code(u64::MAX), ColorCode::High);
}

#[test]
fn time_color_code_changes_at_its_bounds() {
    let now = Timestamp::new(1_700_000_000, 500);
    let day: i64 = 86_400;

    assert_eq!(get_time_color_code(&now, &Some(now)), ColorCode::Low);
    assert_eq!(
        get_time_color_code(&now, &Some(Timestamp::new(1_700_000_000 - 14 * day, 501))),
        ColorCode::Low
    );
    assert_eq!(
        get_time_color_code(&now, &Some(Timestamp::new(1_700_000_000 - 14 * day, 500))),
        ColorCode::Medium
    );
    assert_eq!(
        get_time_color_code(&now, &Some(Timestamp::new(1_700_000_000 - 60 * day, 501))),
        ColorCode::Medium
    );
    assert_eq!(
        get_time_color_code(&now, &Some(Timestamp::new(1_700_000_000 - 60 * day, 500))),
        ColorCode::High
    );
}

#[test]
fn time_color_code_says_nothing_of_the_future() {
    let now = Timestamp::new(1_700_000_000, 0);

    assert_eq!(
        get_time_color_code(&now, &Some(Timestamp::new(1_700_000_000, 1))),
        ColorCode::NoColor
    );
    assert_eq!(
        get_time_color_code(&now, &Some(Timestamp::new(1_700_000_001, 0))),
        ColorCode::NoColor
    );
    assert_eq!(
        get_time_color_code(&Timestamp::new(-5, 0), &Some(Timestamp::new(-4, 0))),
        ColorCode::NoColor
    );
    assert_eq!(
        get_time_color_code(&Timestamp::new(-4, 0), &Some(Timestamp::new(-5, 0))),
        ColorCode::Low
    );
}
