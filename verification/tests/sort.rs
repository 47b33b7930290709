use miel_ftp::models::ftp_entry::FtpEntry;
use miel_ftp::models::settings::AppSettings;
use miel_ftp::models::sort::{apply_view, SortKey, SortOrder, SortSpec};

fn entry(name: &str, is_dir: bool, size: Option<u64>) -> FtpEntry {
    FtpEntry {
        name: name.to_string(),
        is_dir,
        size,
        modified: None,
    }
}

#[test]
fn dirs_always_first() {
    let entries = vec![entry("file.txt", false, Some(10)), entry("folder", true, None)];
    let result = apply_view(&entries, SortSpec::default(), "", &AppSettings::default());
    assert!(result[0].is_dir);
    assert!(!result[1].is_dir);
}

#[test]
fn filter_case_insensitive() {
    let entries = vec![entry("Alpha.txt", false, Some(1)), entry("beta.txt", false, Some(2))];
    let result = apply_view(&entries, SortSpec::default(), "ALPHA", &AppSettings::default());
    assert_eq!(result.len(), 1);
    assert_eq!(result[0].name, "Alpha.txt");
}

#[test]
fn sort_by_size_desc() {
    let entries = vec![
        entry("a.txt", false, Some(100)),
        entry("b.txt", false, Some(500)),
        entry("c.txt", false, Some(200)),
    ];
    let result = apply_view(
        &entries,
        SortSpec {
            key: SortKey::Size,
            order: SortOrder::Desc,
        },
        "",
        &AppSettings::default(),
    );
    assert_eq!(result[0].name, "b.txt");
    assert_eq!(result[1].name, "c.txt");
    assert_eq!(result[2].name, "a.txt");
}

#[test]
fn hides_system_files_when_enabled() {
    let entries = vec![entry(".DS_Store", false, Some(1)), entry("visible.txt", false, Some(2))];
    let settings = AppSettings::default();
    let result = apply_view(&entries, SortSpec::default(), "", &settings);
    assert_eq!(result.len(), 1);
    assert_eq!(result[0].name, "visible.txt");
}

#[test]
fn dirs_first_in_every_order() {
    let entries = vec![
        entry("b.txt", false, Some(3)),
        entry("zeta", true, None),
        entry("a.txt", false, Some(9)),
        entry("alpha", true, None),
    ];
    for key in [SortKey::Name, SortKey::Size, SortKey::Modified] {
        for order in [SortOrder::Asc, SortOrder::Desc] {
            let view = apply_view(&entries, SortSpec { key, order }, "", &AppSettings::default());
            assert_eq!(view.len(), 4);
            assert!(view[0].is_dir && view[1].is_dir);
            assert!(!view[2].is_dir && !view[3].is_dir);
        }
    }
}

#[test]
fn names_sort_case_insensitively_and_ties_keep_order() {
    let entries = vec![
        entry("b", false, Some(1)),
        entry("A", false, Some(1)),
        entry("c", false, Some(1)),
    ];
    let by_name = apply_view(&entries, SortSpec::default(), "", &AppSettings::default());
    let names: Vec<&str> = by_name.iter().map(|e| e.name.as_str()).collect();
    assert_eq!(names, vec!["A", "b", "c"]);
    let by_size = apply_view(
        &entries,
        SortSpec { key: SortKey::Size, order: SortOrder::Asc },
        "",
        &AppSettings::default(),
    );
    let names: Vec<&str> = by_size.iter().map(|e| e.name.as_str()).collect();
    assert_eq!(names, vec!["b", "A", "c"]);
}

#[test]
fn clicking_a_header_twice() {
    let s = SortSpec::default();
    let once = s.toggle_key(SortKey::Name);
    assert_eq!(once.order, SortOrder::Desc);
    assert_eq!(once.toggle_key(SortKey::Name), s);
    let other = s.toggle_key(SortKey::Size);
    assert_eq!(other, SortSpec { key: SortKey::Size, order: SortOrder::Asc });
    assert_eq!(other.toggle_key(SortKey::Size), SortSpec { key: SortKey::Size, order: SortOrder::Desc });
}

#[test]
fn blank_filter_shows_every_entry_not_hidden() {
    let entries = vec![
        entry("Zeta", false, Some(1)),
        entry(".hidden", false, Some(2)),
        entry("docs", true, None),
        entry("Ñandú.txt", false, Some(3)),
    ];
    let result = apply_view(&entries, SortSpec::default(), "   ", &AppSettings::default());
    let names: Vec<&str> = result.iter().map(|e| e.name.as_str()).collect();
    assert_eq!(names, vec!["docs", "Zeta", "Ñandú.txt"]);
}
