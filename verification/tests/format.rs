use rsfetch::field::Field;
use rsfetch::format::{build_rows, cpu_value, disk_value, mem_value, os_value, render_block, select_disks, swap_value};
use rsfetch::info::{DiskInfo, MemoryInfo, SystemInfo};
use rsfetch::theme::Theme;

fn rows(pairs: &[(&str, &str)]) -> Vec<(String, String)> {
    pairs.iter().map(|(l, v)| (l.to_string(), v.to_string())).collect()
}

fn sample() -> SystemInfo {
    SystemInfo {
        host_name: Some("testhost".into()),
        os_name: Some("TestOS".into()),
        os_version: Some("1.0".into()),
        kernel_version: Some("5.0".into()),
        shell: Some("/bin/zsh".into()),
        uptime_secs: 3661,
        cpu_model: Some("TestCPU".into()),
        cpu_count: 4,
        memory: MemoryInfo {
            total: 16 * 1024 * 1024 * 1024,
            used: 8 * 1024 * 1024 * 1024,
            swap_total: 0,
            swap_used: 0,
        },
        disks: vec![
            DiskInfo {
                mount_point: "/".into(),
                total: 100 * 1024 * 1024 * 1024,
                available: 40 * 1024 * 1024 * 1024,
                file_system: "ext4".into(),
            },
            DiskInfo {
                mount_point: "/mnt/c".into(),
                total: 200,
                available: 100,
                file_system: "9p".into(),
            },
        ],
    }
}

#[test]
fn mem_value_formats_used_total_and_percent() {
    let mem = MemoryInfo {
        total: 16 * 1024 * 1024 * 1024,
        used: 8 * 1024 * 1024 * 1024,
        swap_total: 0,
        swap_used: 0,
    };
    assert_eq!(mem_value(&mem), "8.0 GiB / 16.0 GiB (50%)");
}

#[test]
fn mem_value_handles_zero_total_without_dividing_by_zero() {
    assert_eq!(mem_value(&MemoryInfo::default()), "0 B / 0 B (0%)");
}

#[test]
fn build_rows_respects_field_order_and_values() {
    let out = build_rows(&sample(), &[Field::Cpu, Field::Host], false);
    assert_eq!(out, rows(&[("CPU", "TestCPU (4 cores)"), ("Host", "testhost")]));
}

#[test]
fn build_rows_skips_absent_optional_fields() {
    let mut info = sample();
    info.host_name = None;
    let out = build_rows(&info, &[Field::Host, Field::Uptime], false);
    assert_eq!(out, rows(&[("Uptime", "1h 1m")]));
}

#[test]
fn build_rows_hides_swap_when_absent() {
    let out = build_rows(&sample(), &[Field::Swap], false);
    assert!(out.is_empty());
}

#[test]
fn build_rows_shows_root_disk_only_by_default() {
    let out = build_rows(&sample(), &[Field::Disks], false);
    assert_eq!(out.len(), 1);
    assert_eq!(out[0].0, "Disk (/)");
}

#[test]
fn build_rows_shows_all_disks_when_requested() {
    let out = build_rows(&sample(), &[Field::Disks], true);
    let labels: Vec<&str> = out.iter().map(|(l, _)| l.as_str()).collect();
    assert_eq!(labels, vec!["Disk (/)", "Disk (/mnt/c)"]);
}

#[test]
fn build_rows_all_fields_in_default_order() {
    let mut info = sample();
    info.memory.swap_total = 2 * 1024 * 1024 * 1024;
    info.memory.swap_used = 512 * 1024 * 1024;
    let out = build_rows(&info, &Field::default_order(), false);
    assert_eq!(
        out,
        rows(&[
            ("Host", "testhost"),
            ("OS", "TestOS 1.0"),
            ("Kernel", "5.0"),
            ("Shell", "/bin/zsh"),
            ("Uptime", "1h 1m"),
            ("CPU", "TestCPU (4 cores)"),
            ("Memory", "8.0 GiB / 16.0 GiB (50%)"),
            ("Swap", "512.0 MiB / 2.0 GiB"),
            ("Disk (/)", "60.0 GiB / 100.0 GiB"),
        ])
    );
}

#[test]
fn build_rows_repeats_requested_fields() {
    let out = build_rows(&sample(), &[Field::Kernel, Field::Kernel], false);
    assert_eq!(out, rows(&[("Kernel", "5.0"), ("Kernel", "5.0")]));
}

#[test]
fn os_value_variants() {
    let mut info = sample();
    assert_eq!(os_value(&info), Some("TestOS 1.0".to_string()));
    info.os_version = None;
    assert_eq!(os_value(&info), Some("TestOS".to_string()));
    info.os_name = None;
    info.os_version = Some("1.0".into());
    assert_eq!(os_value(&info), None);
}

#[test]
fn cpu_value_without_model() {
    let mut info = sample();
    info.cpu_model = None;
    info.cpu_count = 32;
    assert_eq!(cpu_value(&info), "32 cores");
}

#[test]
fn disk_value_saturates_when_available_exceeds_total() {
    let disk = DiskInfo { mount_point: "/".into(), total: 100, available: 200, file_system: "x".into() };
    assert_eq!(disk_value(&disk), "0 B / 100 B");
}

#[test]
fn swap_value_formats_both_sizes() {
    let mem = MemoryInfo { total: 0, used: 0, swap_total: 2048, swap_used: 1024 };
    assert_eq!(swap_value(&mem), "1.0 KiB / 2.0 KiB");
}

#[test]
fn mem_percent_truncates() {
    let mem = MemoryInfo { total: 3, used: 1, swap_total: 0, swap_used: 0 };
    assert_eq!(mem_value(&mem), "1 B / 3 B (33%)");
}

#[test]
fn select_disks_keeps_order() {
    let info = sample();
    let all = select_disks(&info.disks, true);
    assert_eq!(all.len(), 2);
    assert_eq!(all[1].mount_point, "/mnt/c");
    let root = select_disks(&info.disks, false);
    assert_eq!(root.len(), 1);
    assert_eq!(root[0].mount_point, "/");
}

fn theme() -> Theme {
    Theme::by_name("default").unwrap()
}

/// Remove ANSI SGR escape sequences so visible width can be asserted.
fn strip_ansi(s: &str) -> String {
    let mut out = String::new();
    let mut chars = s.chars();
    while let Some(c) = chars.next() {
        if c == '\u{1b}' {
            for c2 in chars.by_ref() {
                if c2 == 'm' {
                    break;
                }
            }
        } else {
            out.push(c);
        }
    }
    out
}

#[test]
fn empty_input_yields_no_lines() {
    assert!(render_block(&[], ":", &theme(), false).is_empty());
}

#[test]
fn pads_labels_so_separators_align() {
    let out = render_block(&rows(&[("OS", "Fedora"), ("Kernel", "6.6")]), ":", &theme(), false);
    assert_eq!(out, vec!["OS    : Fedora", "Kernel: 6.6"]);
}

#[test]
fn single_row_has_no_padding() {
    let out = render_block(&rows(&[("CPU", "i9")]), ":", &theme(), false);
    assert_eq!(out, vec!["CPU: i9"]);
}

#[test]
fn colored_lines_preserve_visible_alignment() {
    let input = rows(&[("OS", "Fedora"), ("Kernel", "6.6")]);
    let out = render_block(&input, ":", &theme(), true);
    assert!(out[0].contains('\u{1b}'), "expected ANSI escapes when colored");
    let visible: Vec<String> = out.iter().map(|l| strip_ansi(l)).collect();
    assert_eq!(visible, vec!["OS    : Fedora", "Kernel: 6.6"]);
}

#[test]
fn colored_line_exact_escapes() {
    let out = render_block(&rows(&[("OS", "Fedora")]), ":", &theme(), true);
    assert_eq!(out, vec!["\u{1b}[36;1mOS\u{1b}[0m\u{1b}[2m:\u{1b}[0m Fedora"]);
}

#[test]
fn mono_theme_colors_only_labels() {
    let mono = Theme::by_name("mono").unwrap();
    let out = render_block(&rows(&[("CPU", "i9")]), "=>", &mono, true);
    assert_eq!(out, vec!["\u{1b}[1mCPU\u{1b}[0m=> i9"]);
}

#[test]
fn multichar_labels_count_characters_not_bytes() {
    let out = render_block(&rows(&[("Größe", "1"), ("OS", "2")]), ":", &theme(), false);
    assert_eq!(out, vec!["Größe: 1", "OS   : 2"]);
}
