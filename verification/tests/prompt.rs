use miel_ftp::models::prompt::validate_entry_name;

#[test]
fn rejects_empty_name() {
    assert!(validate_entry_name("  ").is_err());
}

#[test]
fn rejects_dot_entries() {
    assert!(validate_entry_name(".").is_err());
    assert!(validate_entry_name("..").is_err());
}

#[test]
fn rejects_slashes() {
    assert!(validate_entry_name("foo/bar").is_err());
    assert!(validate_entry_name("foo\\bar").is_err());
}

#[test]
fn accepts_valid_name() {
    assert_eq!(validate_entry_name("  my file.txt  ").unwrap(), "my file.txt");
}

#[test]
fn validation_messages_name_the_problem() {
    assert_eq!(validate_entry_name("   ").unwrap_err(), "el nombre no puede estar vacío");
    assert_eq!(validate_entry_name(" .. ").unwrap_err(), "nombre inválido");
    assert_eq!(validate_entry_name("a/b").unwrap_err(), "el nombre no puede contener / o \\");
}
