use miel_ftp::models::ftp_entry::{list_entry, local_entry, FtpEntry};

#[test]
fn parses_unix_list_line() {
    let line = "-rw-r--r-- 1 user group 1234 Apr 10 12:00 file.txt";
    let entry = FtpEntry::from_list_line(line).expect("should parse");
    assert_eq!(entry.name, "file.txt");
    assert!(!entry.is_dir);
    assert_eq!(entry.size, Some(1234));
    assert!(entry.modified.is_some());
}

#[test]
fn parses_directory_list_line() {
    let line = "drwxr-xr-x 2 user group 4096 Apr 10 12:00 folder";
    let entry = FtpEntry::from_list_line(line).expect("should parse");
    assert_eq!(entry.name, "folder");
    assert!(entry.is_dir);
    assert_eq!(entry.size, None);
}

#[test]
fn ignores_dot_entries() {
    assert!(FtpEntry::from_list_line("drwxr-xr-x 2 u g 4096 Apr 10 12:00 .").is_none());
    assert!(FtpEntry::from_list_line("drwxr-xr-x 2 u g 4096 Apr 10 12:00 ..").is_none());
}

#[test]
fn list_line_with_year_keeps_its_stamp() {
    let entry = FtpEntry::from_list_line("-rw-r--r-- 1 u g 5 Nov 5 2019 old.txt").expect("should parse");
    assert_eq!(entry.name, "old.txt");
    assert_eq!(entry.modified.as_deref(), Some("2019-11-05 00:00"));
    assert!(FtpEntry::from_list_line("not a listing").is_none());
}

#[test]
fn listed_entries_drop_dots_and_directory_sizes() {
    assert!(list_entry(".".into(), true, 1, Some("s".into())).is_none());
    assert!(list_entry("..".into(), true, 1, Some("s".into())).is_none());
    let d = list_entry("dir".into(), true, 4096, Some("2024-01-01 00:00".into())).unwrap();
    assert_eq!(d.size, None);
    let f = list_entry("f".into(), false, 12, Some("2024-01-01 00:00".into())).unwrap();
    assert_eq!(f.size, Some(12));
    assert_eq!(f.modified.as_deref(), Some("2024-01-01 00:00"));
}

#[test]
fn local_entries_size_only_files() {
    let d = local_entry("src".into(), Some((true, 4096)), None);
    assert!(d.is_dir);
    assert_eq!(d.size, None);
    let f = local_entry("a.rs".into(), Some((false, 12)), Some("2024-01-01 10:00".into()));
    assert_eq!((f.is_dir, f.size), (false, Some(12)));
    let unknown = local_entry("x".into(), None, None);
    assert_eq!((unknown.is_dir, unknown.size), (false, None));
}

#[test]
fn parses_dos_list_lines() {
    let d = FtpEntry::from_list_line("10-19-20  03:19PM <DIR> pub").expect("should parse");
    assert_eq!((d.name.as_str(), d.is_dir, d.size), ("pub", true, None));
    assert_eq!(d.modified.as_deref(), Some("2020-10-19 15:19"));
    let f = FtpEntry::from_list_line("04-08-14  03:09PM 403   readme.txt").expect("should parse");
    assert_eq!((f.name.as_str(), f.is_dir, f.size), ("readme.txt", false, Some(403)));
}
