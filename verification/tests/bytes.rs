use rsfetch::format::bytes::humanize_bytes;

#[test]
fn zero_bytes() {
    assert_eq!(humanize_bytes(0), "0 B");
}

#[test]
fn bytes_below_one_kib_are_whole() {
    assert_eq!(humanize_bytes(512), "512 B");
    assert_eq!(humanize_bytes(1023), "1023 B");
}

#[test]
fn exact_kib_boundary() {
    assert_eq!(humanize_bytes(1024), "1.0 KiB");
}

#[test]
fn fractional_kib() {
    assert_eq!(humanize_bytes(1536), "1.5 KiB");
}

#[test]
fn rounds_up_into_next_unit_at_boundary() {
    // 1 byte below 1 MiB rounds to a full MiB, not "1024.0 KiB".
    assert_eq!(humanize_bytes(1024 * 1024 - 1), "1.0 MiB");
}

#[test]
fn gibibytes() {
    assert_eq!(humanize_bytes(33_516_687_360), "31.2 GiB");
}

#[test]
fn tebibytes() {
    assert_eq!(humanize_bytes(2 * 1024 * 1024 * 1024 * 1024), "2.0 TiB");
}

/// The floating-point formatting this function is specified after.
fn float_reference(bytes: u64) -> String {
    const UNITS: [&str; 5] = ["B", "KiB", "MiB", "GiB", "TiB"];
    const STEP: f64 = 1024.0;
    if bytes < STEP as u64 {
        return format!("{bytes} B");
    }
    let mut value = bytes as f64;
    let mut unit = 0;
    while value >= STEP && unit < UNITS.len() - 1 {
        value /= STEP;
        unit += 1;
    }
    if unit < UNITS.len() - 1 && (value * 10.0).round() / 10.0 >= STEP {
        value /= STEP;
        unit += 1;
    }
    format!("{value:.1} {}", UNITS[unit])
}

#[test]
fn matches_float_formatting_on_boundaries_and_ties() {
    let mut samples: Vec<u64> = vec![0, 1, 1023, 1024, 1025, 1280, 1331, 1332, 1536, 2047, 2048, 1126, 1127];
    for k in 1..=4u32 {
        let p = 1024u64.pow(k);
        for d in 0..64u64 {
            samples.push(p + d);
            samples.push(p - d);
            samples.push(p * 1023 + d * 13);
            samples.push(p * 1024 - 1 - d);
            samples.push(p * 512 + d * p / 20);
        }
        for t in 0..200u64 {
            // Exact ties at x.x5 of each unit.
            samples.push((p * (2 * t + 1)) / 20 + p);
        }
    }
    for &b in &[u64::MAX, u64::MAX - 1, u64::MAX - 1024, 1u64 << 53, (1u64 << 53) + 1, (1u64 << 60) + 12345, 9_007_199_254_740_993, 18_000_000_000_000_000_000] {
        samples.push(b);
    }
    let mut x: u64 = 0x9E37_79B9_7F4A_7C15;
    for _ in 0..20000 {
        x ^= x << 13;
        x ^= x >> 7;
        x ^= x << 17;
        samples.push(x >> (x % 64));
    }
    for b in samples {
        assert_eq!(humanize_bytes(b), float_reference(b), "bytes = {b}");
    }
}

#[test]
fn ties_round_to_even_tenths() {
    // 1280 B is exactly 1.25 KiB; 1.35 KiB is 1382.4 B (no tie).
    assert_eq!(humanize_bytes(1280), "1.2 KiB");
    assert_eq!(humanize_bytes(1792), "1.8 KiB"); // 1.75 -> 1.8
}

#[test]
fn largest_values_stay_in_tebibytes() {
    assert_eq!(humanize_bytes(u64::MAX), "16777216.0 TiB");
    assert_eq!(humanize_bytes(1024u64.pow(4) * 1024), "1024.0 TiB");
}

#[test]
fn every_unit_name_appears() {
    assert_eq!(humanize_bytes(5 * 1024), "5.0 KiB");
    assert_eq!(humanize_bytes(5 * 1024 * 1024), "5.0 MiB");
    assert_eq!(humanize_bytes(5 * 1024 * 1024 * 1024), "5.0 GiB");
}
