use modsyncnext2::{get_minecraft_versions, VersionEntry};

#[test]
fn versions_are_the_named_directories_in_order() {
    let listing = vec![
        VersionEntry::Directory(Some("1.20.1".to_string())),
        VersionEntry::NotADirectory,
        VersionEntry::Directory(None),
        VersionEntry::Unreadable,
        VersionEntry::Directory(Some("1.12.2-forge".to_string())),
    ];
    assert_eq!(
        get_minecraft_versions(Some(listing)),
        vec!["1.20.1".to_string(), "1.12.2-forge".to_string()]
    );
}

#[test]
fn no_versions_in_an_empty_directory() {
    assert_eq!(get_minecraft_versions(Some(vec![])), Vec::<String>::new());
}

#[test]
fn no_versions_without_a_versions_directory() {
    assert_eq!(get_minecraft_versions(None), Vec::<String>::new());
}

#[test]
fn files_are_no_versions() {
    let listing = vec![VersionEntry::NotADirectory, VersionEntry::NotADirectory];
    assert_eq!(get_minecraft_versions(Some(listing)), Vec::<String>::new());
}
