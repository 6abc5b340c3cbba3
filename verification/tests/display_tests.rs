use b8t_core::display::{format_distance, format_number, format_time, format_timestamp_ms};

fn float_number(value: i64) -> String {
    if value >= 1_000_000 {
        format!("{:.1}M", value as f64 / 1_000_000.0)
    } else if value >= 1_000 {
        format!("{:.1}K", value as f64 / 1_000.0)
    } else {
        value.to_string()
    }
}

fn float_distance(cm: i64) -> String {
    if cm >= 100_000 {
        format!("{:.1}km", cm as f64 / 100_000.0)
    } else if cm >= 100 {
        format!("{}m", cm / 100)
    } else {
        format!("{cm}cm")
    }
}

#[test]
fn format_number_agrees_with_float_formatting() {
    let mut v: i64 = -2000;
    while v < 3_000_000 {
        assert_eq!(format_number(v), float_number(v), "value {}", v);
        v += 1;
    }
    let mut big: i64 = i64::MAX;
    for _ in 0..200000 {
        assert_eq!(format_number(big), float_number(big), "value {}", big);
        big = big / 3 * 2 + 7;
        if big < 1_000_000 {
            break;
        }
    }
    let mut x: u64 = 0x9E3779B97F4A7C15;
    for _ in 0..300000 {
        x ^= x << 13;
        x ^= x >> 7;
        x ^= x << 17;
        let v = (x >> 1) as i64 >> (x % 60);
        assert_eq!(format_number(v), float_number(v), "value {}", v);
    }
    assert_eq!(format_number(i64::MAX), float_number(i64::MAX));
    assert_eq!(format_number(i64::MIN), float_number(i64::MIN));
}

#[test]
fn format_distance_agrees_with_float_formatting() {
    let mut v: i64 = -300;
    while v < 2_000_000 {
        assert_eq!(format_distance(v), float_distance(v), "cm {}", v);
        v += 1;
    }
    let mut x: u64 = 0x1234_5678_9ABC_DEF1;
    for _ in 0..300000 {
        x ^= x << 13;
        x ^= x >> 7;
        x ^= x << 17;
        let v = (x >> 1) as i64 >> (x % 60);
        assert_eq!(format_distance(v), float_distance(v), "cm {}", v);
    }
}

#[test]
fn format_time_examples() {
    assert_eq!(format_time(0), "0m");
    assert_eq!(format_time(64328), "53m");
    assert_eq!(format_time(72_000), "1h 0m");
    assert_eq!(format_time(72_000 * 3 + 1_200 * 15 + 5), "3h 15m");
    assert_eq!(format_time(-1_300), "-1m");
}

#[test]
fn format_timestamp_examples() {
    assert_eq!(format_timestamp_ms(0), "unknown");
    assert_eq!(format_timestamp_ms(-5), "unknown");
    assert_eq!(format_timestamp_ms(1773928561072), "<t:1773928561:d>");
}
