use rsfetch::logo::{art, by_name, detect, resolve, Logo, UnknownLogo};

#[test]
fn detects_distros_from_os_name() {
    assert_eq!(detect(Some("Arch Linux"), Some("6.6")), art::ARCH);
    assert_eq!(detect(Some("Ubuntu"), Some("5.15")), art::UBUNTU);
    assert_eq!(detect(Some("Debian GNU/Linux"), Some("6.1")), art::DEBIAN);
    assert_eq!(detect(Some("Fedora Linux"), Some("6.6")), art::FEDORA);
}

#[test]
fn wsl_kernel_takes_precedence_over_distro() {
    assert_eq!(detect(Some("Fedora Linux"), Some("6.6.114.1-microsoft-standard-WSL2")), art::WSL);
}

#[test]
fn unknown_os_falls_back_to_generic() {
    assert_eq!(detect(Some("Plan 9"), Some("4")), art::GENERIC);
    assert_eq!(detect(None, None), art::GENERIC);
}

#[test]
fn from_art_trims_blank_lines_and_measures() {
    let logo = Logo::from_art("\n\nabc\nde\n\n");
    assert_eq!(logo.lines(), &["abc".to_string(), "de".to_string()]);
    assert_eq!(logo.height(), 2);
    assert_eq!(logo.width(), 3);
}

#[test]
fn resolve_none_disables_logo() {
    assert_eq!(resolve("none", Some("Arch"), None), Ok(None));
    assert_eq!(resolve("off", Some("Arch"), None), Ok(None));
}

#[test]
fn resolve_auto_detects_from_system() {
    assert_eq!(resolve("auto", Some("Arch Linux"), Some("6.6")), Ok(Some(Logo::from_art(art::ARCH))));
}

#[test]
fn resolve_named_logo() {
    assert_eq!(resolve("fedora", None, None), Ok(Some(Logo::from_art(art::FEDORA))));
}

#[test]
fn resolve_unknown_logo_errors() {
    assert_eq!(resolve("bogus", None, None), Err(UnknownLogo("bogus".into())));
}

#[test]
fn detect_darwin_and_wsl_kernel_case() {
    assert_eq!(detect(Some("Darwin"), None), art::MAC);
    assert_eq!(detect(None, Some("5.15-WSL")), art::WSL);
    assert_eq!(detect(Some("ARCH"), Some("6")), art::ARCH);
}

#[test]
fn by_name_ignores_case() {
    assert_eq!(by_name("Arch"), Some(art::ARCH));
    assert_eq!(by_name("GENERIC"), Some(art::GENERIC));
    assert_eq!(by_name("mac"), None);
    assert_eq!(resolve("NONE", None, None), Ok(None));
    assert_eq!(resolve("Wsl", None, None), Ok(Some(Logo::from_art(art::WSL))));
}

#[test]
fn unknown_logo_message() {
    assert_eq!(UnknownLogo("x".to_string()).message(), "unknown logo 'x'");
}

#[test]
fn from_art_keeps_inner_blank_lines_and_strips_crlf() {
    let logo = Logo::from_art(" \r\nab\r\n\t\n c \n \n");
    assert_eq!(logo.lines(), &["ab".to_string(), "\t".to_string(), " c ".to_string()]);
    assert_eq!(logo.width(), 3);
    let empty = Logo::from_art("  \n\n");
    assert_eq!(empty.height(), 0);
    assert_eq!(empty.width(), 0);
    let bare = Logo::from_art("x\r");
    assert_eq!(bare.lines(), &["x\r".to_string()]);
}

#[test]
fn builtin_logos_match_str_lines() {
    for a in [art::GENERIC, art::ARCH, art::DEBIAN, art::FEDORA, art::UBUNTU, art::WSL, art::MAC] {
        let logo = Logo::from_art(a);
        let expected: Vec<String> = a.trim_matches('\n').lines().map(|l| l.to_string()).collect();
        assert_eq!(logo.lines(), expected.as_slice());
        assert_eq!(logo.width(), expected.iter().map(|l| l.chars().count()).max().unwrap());
    }
}
