use rsfetch::cli::Cli;
use rsfetch::config::{config_path_from, unreadable_means_defaults, Config, ConfigFile};
use rsfetch::field::Field;
use rsfetch::theme::ColorMode;

#[test]
fn defaults_when_nothing_set() {
    let cfg = Config::resolve(ConfigFile::default(), &Cli::default());
    assert_eq!(cfg, Config::default());
}

#[test]
fn config_file_overrides_defaults() {
    let file = ConfigFile {
        fields: Some(vec![Field::Host, Field::Cpu]),
        separator: Some(" =>".to_string()),
        all_disks: Some(true),
        color: Some(ColorMode::Never),
        theme: Some("mono".to_string()),
        logo: Some("arch".to_string()),
    };
    let cfg = Config::resolve(file, &Cli::default());
    assert_eq!(cfg.fields, vec![Field::Host, Field::Cpu]);
    assert_eq!(cfg.separator, " =>");
    assert!(cfg.show_all_disks);
    assert_eq!(cfg.color, ColorMode::Never);
    assert_eq!(cfg.theme, "mono");
    assert_eq!(cfg.logo, "arch");
}

#[test]
fn cli_overrides_config_file() {
    let file = ConfigFile {
        fields: Some(vec![Field::Host]),
        separator: Some("X".to_string()),
        all_disks: Some(false),
        color: Some(ColorMode::Never),
        theme: Some("mono".to_string()),
        logo: Some("arch".to_string()),
    };
    let cli = Cli {
        fields: Some(vec![Field::Cpu, Field::Memory]),
        separator: Some(":".to_string()),
        all_disks: true,
        color: Some(ColorMode::Always),
        theme: Some("default".to_string()),
        logo: Some("none".to_string()),
        ..Cli::default()
    };
    let cfg = Config::resolve(file, &cli);
    assert_eq!(cfg.fields, vec![Field::Cpu, Field::Memory]);
    assert_eq!(cfg.separator, ":");
    assert!(cfg.show_all_disks, "CLI --all-disks should force-enable");
    assert_eq!(cfg.color, ColorMode::Always);
    assert_eq!(cfg.theme, "default");
    assert_eq!(cfg.logo, "none");
}

#[test]
fn default_config_values() {
    let cfg = Config::default();
    assert_eq!(cfg.fields, Field::default_order());
    assert_eq!(cfg.separator, ":");
    assert!(!cfg.show_all_disks);
    assert_eq!(cfg.color, ColorMode::Auto);
    assert_eq!(cfg.theme, "default");
    assert_eq!(cfg.logo, "auto");
}

#[test]
fn cli_without_all_disks_keeps_file_setting() {
    let file = ConfigFile { all_disks: Some(true), ..ConfigFile::default() };
    let cfg = Config::resolve(file, &Cli::default());
    assert!(cfg.show_all_disks);
    let cfg = Config::resolve(ConfigFile::default(), &Cli::default());
    assert!(!cfg.show_all_disks);
}

#[test]
fn partial_layers_mix() {
    let file = ConfigFile { separator: Some(" >".to_string()), theme: Some("mono".to_string()), ..ConfigFile::default() };
    let cli = Cli { theme: Some("default".to_string()), ..Cli::default() };
    let cfg = Config::resolve(file, &cli);
    assert_eq!(cfg.separator, " >");
    assert_eq!(cfg.theme, "default");
    assert_eq!(cfg.logo, "auto");
    assert_eq!(cfg.fields, Field::default_order());
}

#[test]
fn config_path_prefers_xdg() {
    assert_eq!(config_path_from(Some("/x"), Some("/home/u")), Some("/x/rsfetch/config.toml".to_string()));
    assert_eq!(config_path_from(Some("/x/"), None), Some("/x/rsfetch/config.toml".to_string()));
}

#[test]
fn config_path_falls_back_to_home() {
    assert_eq!(config_path_from(Some(""), Some("/home/u")), Some("/home/u/.config/rsfetch/config.toml".to_string()));
    assert_eq!(config_path_from(None, Some("/home/u")), Some("/home/u/.config/rsfetch/config.toml".to_string()));
}

#[test]
fn config_path_none_without_env() {
    assert_eq!(config_path_from(None, None), None);
    assert_eq!(config_path_from(Some(""), Some("")), None);
}

#[test]
fn only_missing_default_file_means_defaults() {
    assert!(unreadable_means_defaults(false, true));
    assert!(!unreadable_means_defaults(true, true));
    assert!(!unreadable_means_defaults(false, false));
    assert!(!unreadable_means_defaults(true, false));
}
