use acterminal::format::{format_bytes, millis_label, seconds_label, tick_time_label};

fn reference_time(time_ms: i64) -> String {
    let secs = if time_ms > 1_000_000_000 { time_ms / 1000 } else { time_ms };
    let h = (secs / 3600) % 24;
    let m = (secs / 60) % 60;
    let s = secs % 60;
    format!("{:02}:{:02}:{:02}", h, m, s)
}

fn reference_bytes(bytes: u64) -> String {
    const KB: u64 = 1024;
    const MB: u64 = KB * 1024;
    const GB: u64 = MB * 1024;
    if bytes >= GB {
        format!("{:.1} GB", bytes as f64 / GB as f64)
    } else if bytes >= MB {
        format!("{:.1} MB", bytes as f64 / MB as f64)
    } else if bytes >= KB {
        format!("{:.1} KB", bytes as f64 / KB as f64)
    } else {
        format!("{} B", bytes)
    }
}

#[test]
fn time_labels() {
    assert_eq!(tick_time_label(0), "00:00:00");
    assert_eq!(tick_time_label(3_661), "01:01:01");
    assert_eq!(tick_time_label(1_700_000_000_123), "22:13:20");
    assert_eq!(tick_time_label(-30), "00:00:-30");
    assert_eq!(tick_time_label(-3_725), "-1:-2:-5");
    for t in [0i64, 59, 60, 86_399, 86_400, 999_999_999, 1_000_000_000, 1_000_000_001, 1_712_345_678_901, -1, -61, -86_401, i64::MIN, i64::MAX] {
        assert_eq!(tick_time_label(t), reference_time(t), "time {}", t);
    }
}

#[test]
fn clock_labels() {
    assert_eq!(seconds_label(3_600 * 25 + 7), "01:00:07");
    assert_eq!(millis_label(1_500), "00:00:01");
    assert_eq!(millis_label(-1_500), "00:00:-1");
}

#[test]
fn byte_counts() {
    assert_eq!(format_bytes(0), "0 B");
    assert_eq!(format_bytes(1023), "1023 B");
    assert_eq!(format_bytes(1024), "1.0 KB");
    assert_eq!(format_bytes(1536), "1.5 KB");
    assert_eq!(format_bytes(1024 * 1024 - 1), "1024.0 KB");
    assert_eq!(format_bytes(5 * 1024 * 1024 * 1024), "5.0 GB");
}

#[test]
fn byte_counts_match_float_formatting() {
    let mut samples: Vec<u64> = Vec::new();
    for b in 0..5000u64 {
        samples.push(b);
    }
    for k in 0..200u64 {
        samples.push(1024 + 256 * k);
        samples.push(1024 * 1024 + 52_428 * k + k);
        samples.push((1u64 << 30) * (k + 1) + (1u64 << 26) * k);
        samples.push((1u64 << 20) * 3 + (1u64 << 14) * k);
    }
    for s in 0..11u32 {
        for d in 0..40u64 {
            samples.push((1u64 << 53).wrapping_add(d << s));
            samples.push(u64::MAX - (d << s));
            samples.push((1u64 << 63) + (d << (s + 1)) + (1u64 << s));
        }
    }
    samples.push(u64::MAX);
    for b in samples {
        assert_eq!(format_bytes(b), reference_bytes(b), "bytes {}", b);
    }
}
