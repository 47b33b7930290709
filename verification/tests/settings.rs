use miel_ftp::models::settings::{is_hidden, AppSettings, Bandwidth};

#[test]
fn defaults_hide_system_files() {
    let s = AppSettings::default();
    assert!(s.hide_system_files);
    assert!(!s.show_dotfiles);
    assert!(is_hidden(".DS_Store", &s));
}

#[test]
fn dotfile_hidden_when_show_dotfiles_off() {
    let s = AppSettings {
        hide_system_files: false,
        show_dotfiles: false,
        custom_hidden: vec![],
        bandwidth: Bandwidth::Unlimited,
    };
    assert!(is_hidden(".env", &s));
    assert!(!is_hidden("file.txt", &s));
}

#[test]
fn dotfile_visible_when_show_dotfiles_on() {
    let s = AppSettings {
        hide_system_files: false,
        show_dotfiles: true,
        custom_hidden: vec![],
        bandwidth: Bandwidth::Unlimited,
    };
    assert!(!is_hidden(".env", &s));
}

#[test]
fn system_file_hidden_even_with_dotfiles_shown() {
    let s = AppSettings {
        hide_system_files: true,
        show_dotfiles: true,
        custom_hidden: vec![],
        bandwidth: Bandwidth::Unlimited,
    };
    assert!(is_hidden(".DS_Store", &s));
    assert!(!is_hidden(".env", &s));
}

#[test]
fn custom_hidden_exact_match() {
    let s = AppSettings {
        hide_system_files: false,
        show_dotfiles: true,
        custom_hidden: vec!["backup.tmp".into()],
        bandwidth: Bandwidth::Unlimited,
    };
    assert!(is_hidden("backup.tmp", &s));
    assert!(!is_hidden("other.tmp", &s));
}

#[test]
fn bandwidth_defaults_unlimited() {
    let s = AppSettings::default();
    assert_eq!(s.bandwidth, Bandwidth::Unlimited);
    assert_eq!(s.bandwidth.limit_kbps(), None);
}

#[test]
fn bandwidth_from_input() {
    assert_eq!(Bandwidth::from_kbps_input("128"), Some(Bandwidth::KBps(128)));
    assert_eq!(Bandwidth::from_kbps_input("0"), Some(Bandwidth::Unlimited));
    assert_eq!(Bandwidth::from_kbps_input("abc"), None);
}

#[test]
fn bandwidth_display_reads_back() {
    for b in [Bandwidth::Unlimited, Bandwidth::KBps(0), Bandwidth::KBps(1), Bandwidth::KBps(4096)] {
        let shown = b.display_value();
        let read = Bandwidth::from_kbps_input(&shown);
        let expected = match b {
            Bandwidth::KBps(0) => Bandwidth::Unlimited,
            other => other,
        };
        assert_eq!(read, Some(expected));
    }
    assert_eq!(Bandwidth::Unlimited.display_value(), "0");
    assert_eq!(Bandwidth::KBps(512).display_value(), "512");
    assert_eq!(Bandwidth::KBps(512).limit_kbps(), Some(512));
}
