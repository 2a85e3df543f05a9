use rsfetch::format::units::humanize_uptime;

#[test]
fn zero() {
    assert_eq!(humanize_uptime(0), "0s");
}

#[test]
fn seconds_only() {
    assert_eq!(humanize_uptime(30), "30s");
}

#[test]
fn minutes_and_seconds() {
    assert_eq!(humanize_uptime(90), "1m 30s");
}

#[test]
fn whole_hour_drops_zero_minutes() {
    assert_eq!(humanize_uptime(3600), "1h");
}

#[test]
fn hours_drop_seconds() {
    assert_eq!(humanize_uptime(3661), "1h 1m");
}

#[test]
fn days_and_hours() {
    assert_eq!(humanize_uptime(90_000), "1d 1h");
}

#[test]
fn exact_day_drops_zero_hours_and_minutes() {
    assert_eq!(humanize_uptime(86_400), "1d");
}

#[test]
fn multiple_days_with_hours_and_minutes_drops_seconds() {
    assert_eq!(humanize_uptime(90_061), "1d 1h 1m");
}

#[test]
fn whole_minutes_drop_zero_seconds() {
    assert_eq!(humanize_uptime(120), "2m");
}

#[test]
fn days_with_minutes_only() {
    assert_eq!(humanize_uptime(86_400 + 5 * 60 + 7), "1d 5m");
}

#[test]
fn largest_duration() {
    assert_eq!(humanize_uptime(u64::MAX), "213503982334601d 7h");
}
