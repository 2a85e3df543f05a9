use rsfetch::info::{cpu_model_from, shell_from, MemoryInfo};

#[test]
fn cpu_model_is_trimmed_brand() {
    assert_eq!(cpu_model_from(Some("  Intel(R) Core(TM) i9  ")), Some("Intel(R) Core(TM) i9".to_string()));
    assert_eq!(cpu_model_from(Some("AMD\t\n")), Some("AMD".to_string()));
}

#[test]
fn blank_or_missing_cpu_brand_is_absent() {
    assert_eq!(cpu_model_from(Some("   ")), None);
    assert_eq!(cpu_model_from(Some("")), None);
    assert_eq!(cpu_model_from(None), None);
}

#[test]
fn trim_matches_str_trim_on_unicode_whitespace() {
    for s in ["\u{a0}x\u{3000}", "\u{2000}a b\u{200a}", " \u{85}y\r\n", "\u{200b}z"] {
        assert_eq!(cpu_model_from(Some(s)), Some(s.trim().to_string()).filter(|t| !t.is_empty()));
    }
}

#[test]
fn shell_requires_non_empty_value() {
    assert_eq!(shell_from(Some("/bin/zsh".to_string())), Some("/bin/zsh".to_string()));
    assert_eq!(shell_from(Some(String::new())), None);
    assert_eq!(shell_from(None), None);
}

#[test]
fn memory_default_is_all_zero() {
    let m = MemoryInfo::default();
    assert_eq!((m.total, m.used, m.swap_total, m.swap_used), (0, 0, 0, 0));
}
