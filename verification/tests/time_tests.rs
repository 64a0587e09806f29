use zoom_lomax::fmt::{date_key, target_path, time_key, to_ascii_lower};
use zoom_lomax::time::{date_back, day_number, in_range, round_time_to_hour, LocalTime};

fn at(year: i32, month: u8, day: u8, hour: u8, minute: u8, second: u8) -> LocalTime {
    LocalTime { year, month, day, hour, minute, second }
}

#[test]
fn rounding_up_within_tolerance() {
    let mut t = at(2024, 1, 9, 9, 58, 30);
    round_time_to_hour(&mut t);
    assert_eq!(t, at(2024, 1, 9, 10, 0, 0));
}

#[test]
fn rounding_down_within_tolerance() {
    let mut t = at(2024, 1, 9, 10, 2, 10);
    round_time_to_hour(&mut t);
    assert_eq!(t, at(2024, 1, 9, 10, 0, 0));
}

#[test]
fn rounding_leaves_off_hour_times_alone() {
    let mut t = at(2024, 1, 9, 10, 30, 0);
    round_time_to_hour(&mut t);
    assert_eq!(t, at(2024, 1, 9, 10, 30, 0));
    let mut u = at(2024, 1, 9, 10, 6, 0);
    round_time_to_hour(&mut u);
    assert_eq!(u, at(2024, 1, 9, 10, 6, 0));
    let mut v = at(2024, 1, 9, 10, 54, 59);
    round_time_to_hour(&mut v);
    assert_eq!(v, at(2024, 1, 9, 10, 54, 59));
}

#[test]
fn rounding_rolls_over_midnight_and_leap_day() {
    let mut t = at(2023, 12, 31, 23, 57, 0);
    round_time_to_hour(&mut t);
    assert_eq!(t, at(2024, 1, 1, 0, 0, 0));
    let mut u = at(2024, 2, 28, 23, 55, 1);
    round_time_to_hour(&mut u);
    assert_eq!(u, at(2024, 2, 29, 0, 0, 0));
    let mut v = at(2023, 2, 28, 23, 55, 1);
    round_time_to_hour(&mut v);
    assert_eq!(v, at(2023, 3, 1, 0, 0, 0));
}

#[test]
fn range_filter_boundary() {
    let now = at(2024, 1, 10, 0, 0, 0);
    assert!(in_range(&at(2024, 1, 9, 0, 0, 1), &now, 1));
    assert!(!in_range(&at(2024, 1, 9, 0, 0, 0), &now, 1));
    assert!(!in_range(&at(2024, 1, 8, 23, 59, 59), &now, 1));
}

#[test]
fn range_filter_zero_days_means_after_now() {
    let now = at(2024, 1, 10, 12, 0, 0);
    assert!(!in_range(&at(2024, 1, 10, 11, 59, 59), &now, 0));
    assert!(!in_range(&at(2024, 1, 10, 12, 0, 0), &now, 0));
    assert!(in_range(&at(2024, 1, 10, 12, 0, 1), &now, 0));
}

#[test]
fn day_numbers_count_calendar_days() {
    assert_eq!(day_number(&at(1, 1, 1, 0, 0, 0)), 0);
    assert_eq!(day_number(&at(1, 1, 2, 0, 0, 0)), 1);
    assert_eq!(day_number(&at(1, 2, 1, 0, 0, 0)), 31);
    assert_eq!(day_number(&at(2, 1, 1, 0, 0, 0)), 365);
    let jan10 = day_number(&at(2024, 1, 10, 0, 0, 0));
    let jan9 = day_number(&at(2024, 1, 9, 0, 0, 0));
    assert_eq!(jan10 - jan9, 1);
    let mar1 = day_number(&at(2024, 3, 1, 0, 0, 0));
    let feb28 = day_number(&at(2024, 2, 28, 0, 0, 0));
    assert_eq!(mar1 - feb28, 2);
}

#[test]
fn date_back_walks_the_calendar() {
    assert_eq!(date_back(&at(2024, 1, 10, 15, 30, 9), 1), at(2024, 1, 9, 0, 0, 0));
    assert_eq!(date_back(&at(2024, 1, 10, 0, 0, 0), 10), at(2023, 12, 31, 0, 0, 0));
    assert_eq!(date_back(&at(2024, 3, 1, 0, 0, 0), 1), at(2024, 2, 29, 0, 0, 0));
    assert_eq!(date_back(&at(2024, 1, 10, 0, 0, 0), 0), at(2024, 1, 10, 0, 0, 0));
    assert_eq!(date_back(&at(1, 1, 3, 0, 0, 0), 1000), at(1, 1, 1, 0, 0, 0));
}

#[test]
fn date_and_time_keys_are_zero_padded() {
    assert_eq!(date_key(&at(2024, 1, 9, 0, 0, 0)), "2024-01-09");
    assert_eq!(date_key(&at(987, 11, 30, 0, 0, 0)), "0987-11-30");
    assert_eq!(time_key(&at(2024, 1, 9, 9, 5, 0)), "09.05");
    assert_eq!(time_key(&at(2024, 1, 9, 23, 59, 0)), "23.59");
}

#[test]
fn lowercasing_folds_ascii_only() {
    assert_eq!(to_ascii_lower("MP4"), "mp4");
    assert_eq!(to_ascii_lower("Chat.TXT"), "chat.txt");
    assert_eq!(to_ascii_lower("m4a"), "m4a");
    assert_eq!(to_ascii_lower(""), "");
}

#[test]
fn target_paths_join_with_slashes() {
    assert_eq!(target_path("/home/me/dir", "2024-01-09", "10.00.mp4"), "/home/me/dir/2024-01-09/10.00.mp4");
}
