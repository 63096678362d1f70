use modsyncnext2::{
    config_dir_path, hash_cache_path, join_path, minecraft_path, mods_path,
    to_relative_path_string, versions_path, Config,
};

fn key(path: &str, base: &str) -> String {
    match to_relative_path_string(Some(path), base) {
        Some(key) => key,
        None => panic!("a textual path always has a key"),
    }
}

#[test]
fn join_puts_a_slash_between() {
    assert_eq!(join_path("/home/mc", "mods"), "/home/mc/mods");
}

#[test]
fn join_adds_no_slash_after_a_separator() {
    assert_eq!(join_path("/home/mc/", "mods"), "/home/mc/mods");
    assert_eq!(join_path("C:\\mc\\", "mods"), "C:\\mc\\mods");
    assert_eq!(join_path("./", ".minecraft"), "./.minecraft");
}

#[test]
fn join_to_the_empty_base_is_the_component() {
    assert_eq!(join_path("", "mods"), "mods");
}

#[test]
fn base_is_the_configured_directory() {
    assert_eq!(minecraft_path(Some("/games/mc".to_string())), "/games/mc");
}

#[test]
fn base_defaults_to_the_current_directory() {
    assert_eq!(minecraft_path(None), "./");
}

#[test]
fn shared_mods_directory_when_isolate_is_set() {
    let mut config = Config::default();
    config.minecraft.isolate = true;
    assert_eq!(mods_path(&config, "/games/mc", "1.20.1"), "/games/mc/.minecraft/mods");
}

#[test]
fn per_version_mods_directory_otherwise() {
    let config = Config::default();
    assert_eq!(
        mods_path(&config, "/games/mc", "1.20.1"),
        "/games/mc/.minecraft/versions/1.20.1/mods"
    );
    assert_eq!(mods_path(&config, "./", "1.20.1"), "./.minecraft/versions/1.20.1/mods");
}

#[test]
fn versions_directory() {
    assert_eq!(versions_path("/games/mc"), "/games/mc/.minecraft/versions");
}

#[test]
fn cache_file_lies_in_the_msn_directory() {
    assert_eq!(config_dir_path("/games/mc"), "/games/mc/MSN");
    assert_eq!(hash_cache_path("/games/mc"), "/games/mc/MSN/hash.json");
    assert_eq!(hash_cache_path("./"), "./MSN/hash.json");
}

#[test]
fn key_of_a_file_below_the_base_is_relative() {
    assert_eq!(key("/home/mc/mods/a.jar", "/home/mc"), "./mods/a.jar");
}

#[test]
fn key_with_a_base_that_ends_in_a_separator() {
    assert_eq!(key("/home/mc/mods/a.jar", "/home/mc/"), "./mods/a.jar");
}

#[test]
fn key_under_the_default_base_keeps_every_character_of_the_rest() {
    assert_eq!(
        key("./.minecraft/mods/a.jar", "./"),
        "./.minecraft/mods/a.jar"
    );
}

#[test]
fn key_with_backslashes() {
    assert_eq!(
        key("C:\\Games\\mc\\.minecraft\\mods\\a.jar", "C:\\Games\\mc"),
        "./.minecraft\\mods\\a.jar"
    );
    assert_eq!(
        key("C:\\Games\\mc\\.minecraft\\mods\\a.jar", "C:\\Games\\mc\\"),
        "./.minecraft\\mods\\a.jar"
    );
}

#[test]
fn key_of_a_file_elsewhere_is_its_path() {
    assert_eq!(key("/opt/other/a.jar", "/home/mc"), "/opt/other/a.jar");
}

#[test]
fn key_needs_a_whole_directory_name_to_match() {
    assert_eq!(key("/home/mcx/a.jar", "/home/mc"), "/home/mcx/a.jar");
}

#[test]
fn key_of_the_base_itself_is_its_path() {
    assert_eq!(key("/home/mc", "/home/mc"), "/home/mc");
}

#[test]
fn key_of_a_path_shorter_than_the_base() {
    assert_eq!(key("/home", "/home/mc"), "/home");
    assert_eq!(key("", "/home/mc"), "");
}

#[test]
fn key_under_the_empty_base_is_the_path() {
    assert_eq!(key("/home/mc/a.jar", ""), "/home/mc/a.jar");
}

#[test]
fn key_of_the_directory_right_below_the_base() {
    assert_eq!(key("/home/mc/", "/home/mc"), "./");
}

#[test]
fn key_keeps_characters_outside_ascii() {
    assert_eq!(key("/home/模组/mods/地图.jar", "/home/模组"), "./mods/地图.jar");
}

#[test]
fn key_of_a_path_without_text_is_missing() {
    assert_eq!(to_relative_path_string(None, "/home/mc"), None);
}

#[test]
fn key_is_the_same_on_every_call() {
    let first = key("/home/mc/mods/a.jar", "/home/mc");
    let second = key("/home/mc/mods/a.jar", "/home/mc");
    assert_eq!(first, second);
}

#[test]
fn key_of_a_key_is_that_key() {
    let once = key("/home/mc/mods/a.jar", "/home/mc");
    assert_eq!(key(&once, "/home/mc"), once);
    let elsewhere = key("/opt/other/a.jar", "/home/mc");
    assert_eq!(key(&elsewhere, "/home/mc"), elsewhere);
}

#[test]
fn keys_tell_files_apart() {
    let base = "/home/mc";
    assert_ne!(key("/home/mc/mods/a.jar", base), key("/home/mc/mods/b.jar", base));
    assert_ne!(key("/home/mc/mods/a.jar", base), key("/mods/a.jar", base));
    assert_ne!(key("/home/mc/a.jar", base), key("/home/mc/mods/a.jar", base));
}
