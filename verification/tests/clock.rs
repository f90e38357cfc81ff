use chrono::NaiveDate;
use statusline::clock::{format_time, time, ClockTime};

fn at(year: i32, month: u32, day: u32, hour: u32, minute: u32, second: u32) -> ClockTime {
    ClockTime { year, month, day, hour, minute, second }
}

#[test]
fn clock_fragment_in_the_afternoon() {
    assert_eq!(format_time(&at(2024, 1, 5, 15, 7, 0)), "Jan 05  3:07 PM");
}

#[test]
fn clock_fragment_at_midnight_and_noon() {
    assert_eq!(format_time(&at(2023, 12, 31, 0, 0, 59)), "Dec 31 12:00 AM");
    assert_eq!(format_time(&at(2023, 7, 8, 12, 34, 0)), "Jul 08 12:34 PM");
}

#[test]
fn clock_fragment_with_two_digit_hours() {
    assert_eq!(format_time(&at(2025, 10, 28, 11, 59, 1)), "Oct 28 11:59 AM");
    assert_eq!(format_time(&at(2025, 10, 28, 22, 5, 1)), "Oct 28 10:05 PM");
    assert_eq!(format_time(&at(2025, 10, 28, 9, 0, 1)), "Oct 28  9:00 AM");
}

#[test]
fn clock_fragment_on_a_leap_day() {
    assert_eq!(format_time(&at(2024, 2, 29, 23, 59, 59)), "Feb 29 11:59 PM");
    assert_eq!(format_time(&at(2000, 2, 29, 1, 2, 3)), "Feb 29  1:02 AM");
}

#[test]
fn clock_fragment_names_every_month() {
    let names = ["Jan", "Feb", "Mar", "Apr", "May", "Jun", "Jul", "Aug", "Sep", "Oct", "Nov", "Dec"];
    for month in 1..=12u32 {
        let text = format_time(&at(2021, month, 1, 13, 0, 0));
        assert_eq!(text, format!("{} 01  1:00 PM", names[month as usize - 1]));
    }
}

#[test]
fn clock_fragment_of_every_minute_of_a_day() {
    for hour in 0..24u32 {
        for minute in 0..60u32 {
            let hour12 = if hour % 12 == 0 { 12 } else { hour % 12 };
            let half = if hour >= 12 { "PM" } else { "AM" };
            let expected = format!("Mar 09 {:2}:{:02} {}", hour12, minute, half);
            assert_eq!(format_time(&at(1999, 3, 9, hour, minute, 30)), expected);
        }
    }
}

#[test]
fn clock_fragment_at_the_ends_of_the_calendar() {
    assert_eq!(format_time(&at(-262143, 1, 1, 0, 0, 0)), "Jan 01 12:00 AM");
    assert_eq!(format_time(&at(262142, 12, 31, 23, 59, 59)), "Dec 31 11:59 PM");
}

#[test]
fn time_now_has_the_shape_of_a_clock_fragment() {
    let text = time();
    let chars: Vec<char> = text.chars().collect();
    assert_eq!(chars.len(), 15, "{:?}", text);
    assert!(chars[0].is_ascii_uppercase() && chars[1].is_ascii_lowercase());
    assert_eq!(chars[3], ' ');
    assert!(chars[4].is_ascii_digit() && chars[5].is_ascii_digit());
    assert_eq!(chars[6], ' ');
    assert!(chars[7] == ' ' || chars[7] == '1');
    assert!(chars[8].is_ascii_digit());
    assert_eq!(chars[9], ':');
    assert!(chars[10].is_ascii_digit() && chars[11].is_ascii_digit());
    assert_eq!(chars[12], ' ');
    assert!(text.ends_with("AM") || text.ends_with("PM"));
}

#[test]
fn valid_days_are_those_of_the_calendar() {
    let years = [-262144, -262143, -401, -400, -100, -4, -1, 0, 1, 4, 100, 1900, 2000, 2023, 2024,
        2100, 262142, 262143];
    for year in years {
        for month in 0..=13u32 {
            for day in 0..=32u32 {
                let expected = NaiveDate::from_ymd_opt(year, month, day).is_some();
                assert_eq!(at(year, month, day, 0, 0, 0).is_valid(), expected, "{} {} {}", year, month, day);
            }
        }
    }
}

#[test]
fn valid_times_are_those_of_the_day() {
    assert!(at(2024, 2, 29, 23, 59, 59).is_valid());
    assert!(at(2024, 2, 29, 0, 0, 0).is_valid());
    assert!(!at(2024, 2, 29, 24, 0, 0).is_valid());
    assert!(!at(2024, 2, 29, 0, 60, 0).is_valid());
    assert!(!at(2024, 2, 29, 0, 0, 60).is_valid());
    assert!(!at(2023, 2, 29, 0, 0, 0).is_valid());
    assert!(!at(2023, 4, 31, 0, 0, 0).is_valid());
}

#[test]
fn clock_fragment_is_what_chrono_writes() {
    for (year, month, day) in [(2024, 2, 29), (1970, 1, 1), (-4, 12, 9), (9999, 6, 30)] {
        for (hour, minute) in [(0, 0), (1, 9), (11, 59), (12, 0), (13, 30), (23, 59)] {
            let stamp = NaiveDate::from_ymd_opt(year, month, day)
                .unwrap()
                .and_hms_opt(hour, minute, 7)
                .unwrap();
            assert_eq!(
                format_time(&at(year, month, day, hour, minute, 7)),
                stamp.format("%b %d %l:%M %p").to_string()
            );
        }
    }
}
