use ae_taskmanager::format::{format_bytes, format_speed, format_uptime};

fn reference_bytes(bytes: u64) -> String {
    let kb = bytes as f64 / 1024.0;
    let mb = kb / 1024.0;
    let gb = mb / 1024.0;
    if gb > 1.0 {
        format!("{:.1} GB", gb)
    } else if mb > 1.0 {
        format!("{:.1} MB", mb)
    } else if kb > 1.0 {
        format!("{:.1} KB", kb)
    } else {
        format!("{} B", bytes)
    }
}

fn reference_speed(bytes_sec: u64) -> String {
    let kb = bytes_sec as f64 / 1024.0;
    let mb = kb / 1024.0;
    if mb > 1.0 {
        format!("{:.1} MB/s", mb)
    } else if kb > 1.0 {
        format!("{:.1} KB/s", kb)
    } else {
        format!("{} B/s", bytes_sec)
    }
}

fn sample_values() -> Vec<u64> {
    let mut v: Vec<u64> = vec![
        0, 1, 512, 1023, 1024, 1025, 1075, 1076, 1126, 1127, 1536, 2048, 10239, 10240,
        1048575, 1048576, 1048577, 1101004, 1101005, 1310720, 1363148, 1572864, 2621440,
        1073741823, 1073741824, 1073741825, 1181116006, 1342177280, 1610612736,
        8589934592, 1099511627776, 9007199254740991, 9007199254740992, 9007199254740993,
        18014398509481985, 18446744073709551615, 18446744073709551000,
        1280, 1792, 2304, 2816, 1310720, 1835008, 1342177280, 1879048192,
    ];
    // Ties of the one-decimal rounding: k * 2^n / 20 with k odd.
    for unit in [1024u64, 1048576, 1073741824] {
        for k in [1u64, 3, 5, 7, 9, 11, 13, 15, 17, 19, 21, 23, 25, 27, 29, 31, 33, 35, 37, 39] {
            let base = unit * 2;
            v.push(base * k / 20 + unit);
            v.push(unit + k * unit / 20);
            v.push(k * unit / 20 * 20 + unit / 20 * k);
        }
    }
    let mut x: u64 = 0x9E37_79B9_7F4A_7C15;
    for _ in 0..2000 {
        x ^= x << 13;
        x ^= x >> 7;
        x ^= x << 17;
        v.push(x >> (x % 64));
    }
    v
}

#[test]
fn format_bytes_matches_float_formatting() {
    for n in sample_values() {
        assert_eq!(format_bytes(n), reference_bytes(n), "bytes {}", n);
    }
}

#[test]
fn format_speed_matches_float_formatting() {
    for n in sample_values() {
        assert_eq!(format_speed(n), reference_speed(n), "rate {}", n);
    }
}

#[test]
fn format_bytes_examples() {
    assert_eq!(format_bytes(0), "0 B");
    assert_eq!(format_bytes(1024), "1024 B");
    assert_eq!(format_bytes(1536), "1.5 KB");
    assert_eq!(format_bytes(1048576), "1024.0 KB");
    assert_eq!(format_bytes(5 * 1048576), "5.0 MB");
    assert_eq!(format_bytes(3 * 1073741824 / 2), "1.5 GB");
    // Halfway cases round to the even tenth.
    assert_eq!(format_bytes(1280), "1.2 KB");
    assert_eq!(format_bytes(1792), "1.8 KB");
    assert_eq!(format_bytes(1310720), "1.2 MB");
}

#[test]
fn format_speed_examples() {
    assert_eq!(format_speed(100), "100 B/s");
    assert_eq!(format_speed(2048), "2.0 KB/s");
    assert_eq!(format_speed(3 * 1048576), "3.0 MB/s");
}

#[test]
fn format_uptime_examples() {
    assert_eq!(format_uptime(0), "0m 0s");
    assert_eq!(format_uptime(59), "0m 59s");
    assert_eq!(format_uptime(61), "1m 1s");
    assert_eq!(format_uptime(3600), "1h 0m 0s");
    assert_eq!(format_uptime(3661), "1h 1m 1s");
    assert_eq!(format_uptime(86400), "1d 0h 0m 0s");
    assert_eq!(format_uptime(90061), "1d 1h 1m 1s");
    assert_eq!(format_uptime(86399), "23h 59m 59s");
}
