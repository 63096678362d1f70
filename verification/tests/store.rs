use modsyncnext2::{has_file_changed, FileHashInfo, FingerprintStore};

fn info(name: &str, size: u64, last_modified: u128, hash: &str) -> FileHashInfo {
    FileHashInfo { name: name.to_string(), size, last_modified, hash: hash.to_string() }
}

#[test]
fn same_size_and_time_is_unchanged() {
    let old = info("a.jar", 100, 1000, "AA");
    let new = info("a.jar", 100, 1000, "temp");
    assert!(!has_file_changed(&old, &new));
}

#[test]
fn another_size_is_a_change() {
    let old = info("a.jar", 100, 1000, "AA");
    let new = info("a.jar", 101, 1000, "AA");
    assert!(has_file_changed(&old, &new));
}

#[test]
fn another_time_is_a_change() {
    let old = info("a.jar", 100, 1000, "AA");
    let new = info("a.jar", 100, 1001, "AA");
    assert!(has_file_changed(&old, &new));
}

#[test]
fn another_size_and_time_is_a_change() {
    let old = info("a.jar", 100, 1000, "AA");
    let new = info("a.jar", 7, 8, "AA");
    assert!(has_file_changed(&old, &new));
}

#[test]
fn name_and_digest_play_no_part_in_the_staleness_test() {
    let old = info("a.jar", 100, 1000, "AA");
    let new = info("renamed.jar", 100, 1000, "BB");
    assert!(!has_file_changed(&old, &new));
}

#[test]
fn times_beyond_64_bits_are_compared_in_full() {
    let old = info("a.jar", 1, 1u128 << 64, "AA");
    let new = info("a.jar", 1, 0, "AA");
    assert!(has_file_changed(&old, &new));
}

#[test]
fn clone_keeps_every_field() {
    let first = info("a.jar", 100, 1000, "AA");
    assert_eq!(first.clone(), first);
}

#[test]
fn new_store_is_empty() {
    let store = FingerprintStore::new();
    assert_eq!(store.get("./mods/a.jar"), None);
    assert!(store.entries().is_empty());
}

#[test]
fn put_then_get_gives_the_fingerprint() {
    let mut store = FingerprintStore::new();
    store.put("./mods/a.jar".to_string(), info("a.jar", 100, 1000, "AA"));
    assert_eq!(store.get("./mods/a.jar"), Some(info("a.jar", 100, 1000, "AA")));
    assert_eq!(store.get("./mods/b.jar"), None);
}

#[test]
fn put_overwrites_and_leaves_the_rest() {
    let mut store = FingerprintStore::new();
    store.put("./mods/a.jar".to_string(), info("a.jar", 100, 1000, "AA"));
    store.put("./mods/b.jar".to_string(), info("b.jar", 200, 2000, "BB"));
    store.put("./mods/a.jar".to_string(), info("a.jar", 101, 1001, "CC"));
    assert_eq!(store.get("./mods/a.jar"), Some(info("a.jar", 101, 1001, "CC")));
    assert_eq!(store.get("./mods/b.jar"), Some(info("b.jar", 200, 2000, "BB")));
    assert_eq!(store.entries().len(), 2);
}

#[test]
fn entries_list_every_key_once_in_order_of_arrival() {
    let mut store = FingerprintStore::new();
    store.put("./mods/b.jar".to_string(), info("b.jar", 200, 2000, "BB"));
    store.put("./mods/a.jar".to_string(), info("a.jar", 100, 1000, "AA"));
    store.put("./mods/b.jar".to_string(), info("b.jar", 201, 2001, "BC"));
    assert_eq!(
        store.entries(),
        vec![
            ("./mods/b.jar".to_string(), info("b.jar", 201, 2001, "BC")),
            ("./mods/a.jar".to_string(), info("a.jar", 100, 1000, "AA")),
        ]
    );
}

#[test]
fn store_from_entries_holds_them() {
    let store = FingerprintStore::from_entries(vec![
        ("./mods/a.jar".to_string(), info("a.jar", 100, 1000, "AA")),
        ("/opt/b.jar".to_string(), info("b.jar", 200, 2000, "BB")),
    ]);
    assert_eq!(store.get("./mods/a.jar"), Some(info("a.jar", 100, 1000, "AA")));
    assert_eq!(store.get("/opt/b.jar"), Some(info("b.jar", 200, 2000, "BB")));
    assert_eq!(store.get("./mods/c.jar"), None);
}

#[test]
fn last_line_of_a_repeated_key_counts() {
    let store = FingerprintStore::from_entries(vec![
        ("./mods/a.jar".to_string(), info("a.jar", 100, 1000, "AA")),
        ("./mods/a.jar".to_string(), info("a.jar", 101, 1001, "AB")),
    ]);
    assert_eq!(store.get("./mods/a.jar"), Some(info("a.jar", 101, 1001, "AB")));
    assert_eq!(store.entries().len(), 1);
}

#[test]
fn writing_out_and_reading_back_gives_the_same_store() {
    let mut store = FingerprintStore::new();
    store.put("./mods/a.jar".to_string(), info("a.jar", 100, 1000, "AA"));
    store.put("./mods/b.jar".to_string(), info("b.jar", 200, 2000, "BB"));
    store.put("/opt/c.jar".to_string(), info("c.jar", 300, 3000, "CC"));
    let listing = store.entries();
    let reloaded = FingerprintStore::load(Some(listing.clone()));
    assert_eq!(reloaded.entries(), listing);
    for (key, value) in listing {
        assert_eq!(reloaded.get(&key), Some(value.clone()));
        assert_eq!(store.get(&key), Some(value));
    }
}

#[test]
fn load_without_a_saved_listing_is_empty() {
    let store = FingerprintStore::load(None);
    assert!(store.entries().is_empty());
    assert_eq!(store.get("./mods/a.jar"), None);
}
