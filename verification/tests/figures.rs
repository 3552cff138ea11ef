use tubecast::figures::{fmt_duration, fmt_relative_ts, human_count, time_read, unix_now};

#[test]
fn fmt_duration_edge_cases() {
    assert_eq!(fmt_duration(0), "0:00");
    assert_eq!(fmt_duration(1), "0:01");
    assert_eq!(fmt_duration(59), "0:59");
    assert_eq!(fmt_duration(60), "1:00");
    assert_eq!(fmt_duration(3599), "59:59");
    assert_eq!(fmt_duration(3600), "1:00:00");
    assert_eq!(fmt_duration(3661), "1:01:01");
}

#[test]
fn human_count_boundaries() {
    assert_eq!(human_count(0), "0");
    assert_eq!(human_count(999), "999");
    assert_eq!(human_count(1_000), "1.0K");
    assert_eq!(human_count(1_500), "1.5K");
    assert_eq!(human_count(1_000_000), "1.0M");
    assert_eq!(human_count(1_000_000_000), "1.0B");
}

#[test]
fn fmt_duration_never_empty() {
    for secs in (0i64..1_000_000).step_by(997) {
        assert!(fmt_duration(secs).contains(':'));
    }
}

#[test]
fn human_count_never_empty() {
    for n in (0i64..i64::MAX).step_by(1 << 53) {
        assert!(!human_count(n).is_empty());
    }
}

fn by_std_duration(secs: i64) -> String {
    let (h, m, s) = (secs / 3600, (secs % 3600) / 60, secs % 60);
    if h > 0 {
        format!("{h}:{m:02}:{s:02}")
    } else {
        format!("{m}:{s:02}")
    }
}

#[test]
fn durations_agree_with_std_formatting() {
    for secs in [-7201, -3661, -600, -61, -60, -59, -10, -9, -1, 86_399, i64::MAX, i64::MIN] {
        assert_eq!(fmt_duration(secs), by_std_duration(secs), "{secs}");
    }
}

fn by_double(n: i64) -> String {
    let n = n as f64;
    if n >= 1e9 {
        format!("{:.1}B", n / 1e9)
    } else if n >= 1e6 {
        format!("{:.1}M", n / 1e6)
    } else if n >= 1e3 {
        format!("{:.1}K", n / 1e3)
    } else {
        format!("{n:.0}")
    }
}

#[test]
fn counts_agree_with_double_precision() {
    let mut n: u64 = 0x9e37_79b9_7f4a_7c15;
    for i in 0..20_000u32 {
        n ^= n << 13;
        n ^= n >> 7;
        n ^= n << 17;
        let count = (n >> (i % 64)) as i64;
        assert_eq!(human_count(count), by_double(count), "{count}");
    }
}

#[test]
fn counts_agree_near_ties() {
    for unit in [1_000i64, 1_000_000, 1_000_000_000] {
        for tenths in 10..10_300 {
            for step in [-1, 0, 1] {
                let count = tenths * (unit / 10) + unit / 20 + step;
                assert_eq!(human_count(count), by_double(count), "{count}");
            }
        }
    }
    for count in [i64::MAX, i64::MIN, -1, -999, -1_500, (1 << 53) + 1, (1 << 53) - 1, 999_999, 999_950] {
        assert_eq!(human_count(count), by_double(count), "{count}");
    }
}

#[test]
fn relative_dates() {
    let day = 86_400;
    assert_eq!(fmt_relative_ts(0, 1), "");
    assert_eq!(fmt_relative_ts(10, 10), "today");
    assert_eq!(fmt_relative_ts(day - 1, 0), "today");
    assert_eq!(fmt_relative_ts(day, 0), "1 days ago");
    assert_eq!(fmt_relative_ts(29 * day, 0), "29 days ago");
    assert_eq!(fmt_relative_ts(30 * day, 0), "1 month ago");
    assert_eq!(fmt_relative_ts(60 * day, 0), "2 months ago");
    assert_eq!(fmt_relative_ts(364 * day, 0), "12 months ago");
    assert_eq!(fmt_relative_ts(365 * day, 0), "1 year ago");
    assert_eq!(fmt_relative_ts(730 * day, 0), "2 years ago");
}

#[test]
fn clock_is_past_the_epoch() {
    assert!(unix_now() > 1_000_000_000);
}

#[test]
fn readings_of_the_clock() {
    assert_eq!(time_read(Some(1_700_000_000)), 1_700_000_000);
    assert_eq!(time_read(Some(i64::MAX as u64)), i64::MAX);
    assert_eq!(time_read(Some(i64::MAX as u64 + 1)), 0);
    assert_eq!(time_read(None), 0);
}

#[test]
fn durations_read_back() {
    for secs in [0, 9, 59, 60, 61, 3_599, 3_600, 35_999, 360_000, 1_234_567] {
        let read = fmt_duration(secs)
            .split(':')
            .fold(0, |sum, field| 60 * sum + field.parse::<i64>().unwrap());
        assert_eq!(read, secs);
    }
}
