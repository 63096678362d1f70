//! Fingerprint cache for a local mod collection.
//!
//! Every file of a mods directory gets a content digest. Digests are costly,
//! so the last observed size, modification time and digest of each file are
//! kept in a store keyed by a normalized path, and a digest is computed again
//! only when size or modification time differ from what the store holds.
//!
//! The library touches neither the file system nor environment variables. Its
//! callers list directories, read files and hand over what they found as
//! plain values.

pub mod config;
pub mod digest;
pub mod paths;
pub mod rescan;
pub mod scanner;
pub mod store;
pub mod versions;

pub use config::{replace_current_config, ActionAfterSync, Config, Minecraft, Sync};
pub use digest::{compute_sha256, to_upper_hex};
pub use paths::{
    config_dir_path, hash_cache_path, join_path, minecraft_path, mods_path,
    to_relative_path_string, versions_path,
};
pub use scanner::{
    get_mod_info, record_mod_info, Lookup, ModEntry, ModFile, Scan, ScanAction, ScanError,
    StaleFile,
};
pub use store::{has_file_changed, FileHashInfo, FingerprintStore};
pub use versions::{get_minecraft_versions, VersionEntry};
