//! Scanning a mods directory against the fingerprint store.
//!
//! Reading the directory and the files is the caller's part. A scan is
//! handed the listing of the directory as plain values. It walks the
//! listing, reuses what the store holds for files that have not changed, and
//! asks the caller for the content of each file whose fingerprint is missing
//! or stale.

use crate::digest::{compute_sha256, sha256, upper_hex};
use crate::paths::{cache_key, to_relative_path_string};
use crate::store::{has_file_changed, FileHashInfo, FileHashInfoView, FingerprintStore};
use vstd::prelude::*;
use vstd::string::*;

verus! {

/// A regular file as a listing shows it.
#[derive(Debug)]
pub struct ModFile {
    /// Base name of the file.
    pub name: String,
    /// Path of the file as text, `None` where the path has no textual form.
    pub path: Option<String>,
    /// Length in bytes.
    pub size: u64,
    /// Modification time in milliseconds since the epoch.
    pub last_modified: u128,
}

/// Mathematical value of a [`ModFile`].
pub struct ModFileView {
    pub name: Seq<char>,
    pub path: Option<Seq<char>>,
    pub size: u64,
    pub last_modified: u128,
}

impl View for ModFile {
    type V = ModFileView;

    open spec fn view(&self) -> ModFileView {
        ModFileView {
            name: self.name@,
            path: match self.path {
                Some(text) => Some(text@),
                None => None,
            },
            size: self.size,
            last_modified: self.last_modified,
        }
    }
}

/// One entry of the listing of a mods directory.
#[derive(Debug)]
pub enum ModEntry {
    /// The entry, its size or its modification time could not be read.
    Unreadable,
    /// A directory, or anything else that is not a regular file.
    NotAFile,
    /// A regular file.
    File(ModFile),
}

/// Mathematical value of a [`ModEntry`].
pub enum ModEntryView {
    Unreadable,
    NotAFile,
    File(ModFileView),
}

impl View for ModEntry {
    type V = ModEntryView;

    open spec fn view(&self) -> ModEntryView {
        match self {
            ModEntry::Unreadable => ModEntryView::Unreadable,
            ModEntry::NotAFile => ModEntryView::NotAFile,
            ModEntry::File(file) => ModEntryView::File(file@),
        }
    }
}

/// A file whose fingerprint has to be computed from its content.
#[derive(Debug)]
pub struct StaleFile {
    /// Cache key of the file.
    pub key: String,
    /// Path under which the content is to be read.
    pub path: String,
    /// Base name of the file.
    pub name: String,
    /// Length in bytes, as the listing gave it.
    pub size: u64,
    /// Modification time, as the listing gave it.
    pub last_modified: u128,
}

/// Mathematical value of a [`StaleFile`].
pub struct StaleFileView {
    pub key: Seq<char>,
    pub path: Seq<char>,
    pub name: Seq<char>,
    pub size: u64,
    pub last_modified: u128,
}

impl View for StaleFile {
    type V = StaleFileView;

    open spec fn view(&self) -> StaleFileView {
        StaleFileView {
            key: self.key@,
            path: self.path@,
            name: self.name@,
            size: self.size,
            last_modified: self.last_modified,
        }
    }
}

/// What the store says about one entry of a listing.
#[derive(Debug)]
pub enum Lookup {
    /// The entry yields no fingerprint.
    Skipped,
    /// The store holds a fingerprint that still matches the file.
    Cached(FileHashInfo),
    /// The store holds nothing for the file, or what it holds is stale.
    Stale(StaleFile),
}

/// Mathematical value of a [`Lookup`].
pub enum LookupView {
    Skipped,
    Cached(FileHashInfoView),
    Stale(StaleFileView),
}

impl View for Lookup {
    type V = LookupView;

    open spec fn view(&self) -> LookupView {
        match self {
            Lookup::Skipped => LookupView::Skipped,
            Lookup::Cached(info) => LookupView::Cached(info@),
            Lookup::Stale(stale) => LookupView::Stale(stale@),
        }
    }
}

/// Whether the store holds a fingerprint under `key` whose size and
/// modification time are those given.
pub open spec fn is_fresh(
    store: Map<Seq<char>, FileHashInfoView>,
    key: Seq<char>,
    size: u64,
    last_modified: u128,
) -> bool {
    store.contains_key(key) && store[key].size == size && store[key].last_modified
        == last_modified
}

/// What a scan does about one entry, given the store.
///
/// Entries that are unreadable, are no regular files or have no textual
/// path are skipped. For a file, the store is asked under the file's cache
/// key. A fingerprint found there with the file's size and modification
/// time is reused as it stands. Otherwise the file is stale.
pub open spec fn lookup(
    store: Map<Seq<char>, FileHashInfoView>,
    base: Seq<char>,
    entry: ModEntryView,
) -> LookupView {
    match entry {
        ModEntryView::Unreadable => LookupView::Skipped,
        ModEntryView::NotAFile => LookupView::Skipped,
        ModEntryView::File(file) => match file.path {
            None => LookupView::Skipped,
            Some(path) => {
                let key = cache_key(path, base);
                if is_fresh(store, key, file.size, file.last_modified) {
                    LookupView::Cached(store[key])
                } else {
                    LookupView::Stale(
                        StaleFileView {
                            key,
                            path,
                            name: file.name,
                            size: file.size,
                            last_modified: file.last_modified,
                        },
                    )
                }
            },
        },
    }
}

/// The fingerprint of a stale file, given its content: name, size and
/// modification time as the listing gave them, and the digest of the content.
pub open spec fn fresh_info(stale: StaleFileView, content: Seq<u8>) -> FileHashInfoView {
    FileHashInfoView {
        name: stale.name,
        size: stale.size,
        last_modified: stale.last_modified,
        hash: upper_hex(sha256(content)),
    }
}

/// Looks a regular file up in the store under its cache key.
fn lookup_file(store: &FingerprintStore, key: String, path: &String, file: &ModFile) -> (found:
    Lookup)
    requires
        file.path == Some(*path),
    ensures
        found@ == if is_fresh(store@, key@, file.size, file.last_modified) {
            LookupView::Cached(store@[key@])
        } else {
            LookupView::Stale(
                StaleFileView {
                    key: key@,
                    path: path@,
                    name: file.name@,
                    size: file.size,
                    last_modified: file.last_modified,
                },
            )
        },
{
    let observed = FileHashInfo {
        name: file.name.clone(),
        size: file.size,
        last_modified: file.last_modified,
        hash: String::new(),
    };
    match store.get(key.as_str()) {
        Some(cached) => {
            if !has_file_changed(&cached, &observed) {
                return Lookup::Cached(cached);
            }
        },
        None => {},
    }
    Lookup::Stale(
        StaleFile {
            key,
            path: path.clone(),
            name: observed.name,
            size: observed.size,
            last_modified: observed.last_modified,
        },
    )
}

/// Decides what to do about one entry of a listing. The store is only read.
pub fn get_mod_info(store: &FingerprintStore, base: &str, entry: &ModEntry) -> (found: Lookup)
    ensures
        found@ == lookup(store@, base@, entry@),
{
    match entry {
        ModEntry::Unreadable => Lookup::Skipped,
        ModEntry::NotAFile => Lookup::Skipped,
        ModEntry::File(file) => match &file.path {
            None => Lookup::Skipped,
            Some(path) => match to_relative_path_string(Some(path.as_str()), base) {
                None => Lookup::Skipped,
                Some(key) => lookup_file(store, key, path, file),
            },
        },
    }
}

/// Computes the fingerprint of a stale file from its content and files it in
/// the store under the file's cache key, in place of what was there.
pub fn record_mod_info(store: &mut FingerprintStore, stale: StaleFile, content: &[u8]) -> (info:
    FileHashInfo)
    ensures
        info@ == fresh_info(stale@, content@),
        final(store)@ == old(store)@.insert(stale.key@, info@),
{
    let info = FileHashInfo {
        name: stale.name,
        size: stale.size,
        last_modified: stale.last_modified,
        hash: compute_sha256(content),
    };
    store.put(stale.key, info.clone());
    info
}

/// A scan of one mods directory in progress.
///
/// The scan holds the listing, how far it has come, and the fingerprints
/// found so far in the order of the listing. [`Scan::next`] walks on to the
/// next file whose content is needed. The caller reads that file and calls
/// [`Scan::supply`] with the content, or [`Scan::fail`] where the file cannot
/// be read, which ends the scan. [`Scan::finish`] gives the outcome. A
/// caller that would rather leave an unreadable file out than end the scan
/// calls neither of the two and walks on.
pub struct Scan {
    entries: Vec<ModEntry>,
    cursor: usize,
    found: Vec<FileHashInfo>,
    failed: Option<String>,
}

/// Mathematical value of a [`Scan`].
pub struct ScanView {
    /// The listing.
    pub entries: Seq<ModEntryView>,
    /// How many entries of the listing have been dealt with.
    pub cursor: nat,
    /// The fingerprints found so far.
    pub found: Seq<FileHashInfoView>,
    /// Path of the file that could not be read, once there is one.
    pub failed: Option<Seq<char>>,
}

/// What the caller of [`Scan::next`] has to do.
#[derive(Debug)]
pub enum ScanAction {
    /// Read the content of this file and hand it to the scan.
    Read(StaleFile),
    /// Nothing: the scan is over.
    Done,
}

/// Mathematical value of a [`ScanAction`].
pub enum ScanActionView {
    Read(StaleFileView),
    Done,
}

impl View for ScanAction {
    type V = ScanActionView;

    open spec fn view(&self) -> ScanActionView {
        match self {
            ScanAction::Read(stale) => ScanActionView::Read(stale@),
            ScanAction::Done => ScanActionView::Done,
        }
    }
}

/// A scan that ended because a file could not be read.
#[derive(Debug, PartialEq, Eq)]
pub struct ScanError {
    /// Path of the file.
    pub path: String,
}

/// The mathematical values of the entries of a listing.
pub open spec fn entries_view(entries: Seq<ModEntry>) -> Seq<ModEntryView> {
    entries.map_values(|entry: ModEntry| entry@)
}

/// The mathematical values of a sequence of fingerprints.
pub open spec fn infos_view(infos: Seq<FileHashInfo>) -> Seq<FileHashInfoView> {
    infos.map_values(|info: FileHashInfo| info@)
}

/// A scan that has not looked at its listing yet.
pub open spec fn fresh_scan(entries: Seq<ModEntryView>) -> ScanView {
    ScanView { entries, cursor: 0, found: Seq::empty(), failed: None }
}

/// Whether a scan is over: it has failed, or has come to the end of its
/// listing.
pub open spec fn is_over(scan: ScanView) -> bool {
    scan.failed is Some || scan.cursor >= scan.entries.len()
}

/// Where [`Scan::next`] leaves a scan, and what it asks of the caller.
///
/// A scan that is over stays as it is. Otherwise the scan walks on from its
/// cursor: skipped entries are passed over, fingerprints that the store
/// holds for unchanged files are added to those found, and the walk stops
/// behind the first stale file, whose content it asks for, or at the end of
/// the listing.
pub open spec fn advance(
    scan: ScanView,
    store: Map<Seq<char>, FileHashInfoView>,
    base: Seq<char>,
) -> (ScanView, ScanActionView)
    decreases scan.entries.len() - scan.cursor,
{
    if is_over(scan) {
        (scan, ScanActionView::Done)
    } else {
        let passed = ScanView { cursor: scan.cursor + 1, ..scan };
        match lookup(store, base, scan.entries[scan.cursor as int]) {
            LookupView::Skipped => advance(passed, store, base),
            LookupView::Cached(info) => advance(
                ScanView { found: scan.found.push(info), ..passed },
                store,
                base,
            ),
            LookupView::Stale(stale) => (passed, ScanActionView::Read(stale)),
        }
    }
}

impl View for Scan {
    type V = ScanView;

    closed spec fn view(&self) -> ScanView {
        ScanView {
            entries: entries_view(self.entries@),
            cursor: self.cursor as nat,
            found: infos_view(self.found@),
            failed: match self.failed {
                Some(path) => Some(path@),
                None => None,
            },
        }
    }
}

impl Scan {
    /// Starts a scan over the listing of a mods directory. `None` stands for
    /// a directory that is missing or cannot be listed, and is scanned like
    /// an empty one.
    pub fn new(listing: Option<Vec<ModEntry>>) -> (scan: Scan)
        ensures
            scan@ == fresh_scan(
                match listing {
                    Some(entries) => entries_view(entries@),
                    None => Seq::empty(),
                },
            ),
    {
        let entries = match listing {
            Some(entries) => entries,
            None => Vec::new(),
        };
        let scan = Scan { entries, cursor: 0, found: Vec::new(), failed: None };
        assert(scan@.found =~= Seq::empty());
        assert(listing is None ==> scan@.entries =~= Seq::empty());
        scan
    }

    /// Walks on to the next file whose content is needed, or to the end of
    /// the scan. The store is only read.
    pub fn next(&mut self, store: &FingerprintStore, base: &str) -> (action: ScanAction)
        ensures
            (final(self)@, action@) == advance(old(self)@, store@, base@),
    {
        loop
            invariant
                advance(self@, store@, base@) == advance(old(self)@, store@, base@),
            decreases self.entries@.len() - self.cursor,
        {
            if self.failed.is_some() || self.cursor >= self.entries.len() {
                return ScanAction::Done;
            }
            let ghost before = self@;
            let found = get_mod_info(store, base, &self.entries[self.cursor]);
            assert(before.entries[before.cursor as int] == self.entries@[self.cursor as int]@);
            self.cursor = self.cursor + 1;
            match found {
                Lookup::Skipped => {},
                Lookup::Cached(info) => {
                    self.found.push(info);
                    assert(self@.found =~= before.found.push(info@));
                },
                Lookup::Stale(stale) => {
                    return ScanAction::Read(stale);
                },
            }
        }
    }

    /// Takes the content of the file that [`Scan::next`] asked for: computes
    /// the file's fingerprint, files it in the store and adds it to the
    /// fingerprints found.
    pub fn supply(&mut self, store: &mut FingerprintStore, stale: StaleFile, content: &[u8])
        ensures
            final(store)@ == old(store)@.insert(stale.key@, fresh_info(stale@, content@)),
            final(self)@ == (ScanView {
                found: old(self)@.found.push(fresh_info(stale@, content@)),
                ..old(self)@
            }),
    {
        let info = record_mod_info(store, stale, content);
        self.found.push(info);
        assert(infos_view(self.found@) =~= infos_view(old(self).found@).push(info@));
    }

    /// Ends the scan because the file that [`Scan::next`] asked for cannot
    /// be read. The first failure is the one that is kept.
    pub fn fail(&mut self, stale: StaleFile)
        ensures
            final(self)@ == (ScanView {
                failed: if old(self)@.failed is Some {
                    old(self)@.failed
                } else {
                    Some(stale.path@)
                },
                ..old(self)@
            }),
    {
        if self.failed.is_none() {
            self.failed = Some(stale.path);
        }
    }

    /// The outcome of the scan: the fingerprints found, in the order of the
    /// listing, or the file that could not be read.
    pub fn finish(self) -> (outcome: Result<Vec<FileHashInfo>, ScanError>)
        ensures
            match self@.failed {
                None => outcome matches Ok(found) && infos_view(found@) == self@.found,
                Some(path) => outcome matches Err(error) && error.path@ == path,
            },
    {
        match self.failed {
            Some(path) => Err(ScanError { path }),
            None => Ok(self.found),
        }
    }
}

/// The entry that a listing shows for a regular file with a textual path.
pub open spec fn file_entry(
    name: Seq<char>,
    path: Seq<char>,
    size: u64,
    last_modified: u128,
) -> ModEntryView {
    ModEntryView::File(ModFileView { name, path: Some(path), size, last_modified })
}

/// A file whose size and modification time are those of its fingerprint in
/// the store is not read again: the scan reuses the fingerprint from the
/// store exactly as it stands there.
pub proof fn lemma_unchanged_file_is_reused(
    store: Map<Seq<char>, FileHashInfoView>,
    base: Seq<char>,
    name: Seq<char>,
    path: Seq<char>,
    size: u64,
    last_modified: u128,
)
    requires
        store.contains_key(cache_key(path, base)),
        store[cache_key(path, base)].size == size,
        store[cache_key(path, base)].last_modified == last_modified,
    ensures
        lookup(store, base, file_entry(name, path, size, last_modified)) == LookupView::Cached(
            store[cache_key(path, base)],
        ),
{
}

/// A file whose size or modification time differs from its fingerprint in
/// the store is stale, and so is a file that the store does not know. Once
/// its content has been supplied, the store holds for it a fingerprint with
/// the new size and modification time and the digest of that content, in
/// place of the old one.
pub proof fn lemma_changed_file_is_recomputed(
    store: Map<Seq<char>, FileHashInfoView>,
    base: Seq<char>,
    name: Seq<char>,
    path: Seq<char>,
    size: u64,
    last_modified: u128,
    content: Seq<u8>,
)
    requires
        !store.contains_key(cache_key(path, base)) || store[cache_key(path, base)].size != size
            || store[cache_key(path, base)].last_modified != last_modified,
    ensures
        lookup(store, base, file_entry(name, path, size, last_modified)) matches LookupView::Stale(
            stale,
        ) && {
            let key = cache_key(path, base);
            let after = store.insert(stale.key, fresh_info(stale, content));
            &&& stale.key == key
            &&& stale.path == path
            &&& after[key].size == size
            &&& after[key].last_modified == last_modified
            &&& after[key].hash == upper_hex(sha256(content))
            &&& after[key].name == name
        },
{
}

/// A second scan of an unchanged file hits the cache. After the fingerprint
/// of a stale file has been filed, a file with the same path, size and
/// modification time is no longer stale, and the scan returns for it the
/// fingerprint that was filed.
pub proof fn lemma_rescan_hits_cache(
    store: Map<Seq<char>, FileHashInfoView>,
    base: Seq<char>,
    name: Seq<char>,
    path: Seq<char>,
    size: u64,
    last_modified: u128,
    content: Seq<u8>,
)
    requires
        lookup(store, base, file_entry(name, path, size, last_modified)) is Stale,
    ensures
        ({
            let stale = lookup(store, base, file_entry(name, path, size, last_modified))->Stale_0;
            let filed = fresh_info(stale, content);
            lookup(
                store.insert(stale.key, filed),
                base,
                file_entry(name, path, size, last_modified),
            ) == LookupView::Cached(filed)
        }),
{
}

/// Filing a fingerprint under one key leaves every file with another key as
/// it was: what the scan does about such a file does not change.
pub proof fn lemma_other_keys_do_not_matter(
    store: Map<Seq<char>, FileHashInfoView>,
    base: Seq<char>,
    name: Seq<char>,
    path: Seq<char>,
    size: u64,
    last_modified: u128,
    key: Seq<char>,
    info: FileHashInfoView,
)
    requires
        key != cache_key(path, base),
    ensures
        lookup(store.insert(key, info), base, file_entry(name, path, size, last_modified))
            == lookup(store, base, file_entry(name, path, size, last_modified)),
{
}

/// The digest in a fingerprint depends on the content of the file alone:
/// the same content gives the same digest, whatever the name, the size and
/// the modification time that go with it.
pub proof fn lemma_same_content_same_digest(
    first: StaleFileView,
    second: StaleFileView,
    content: Seq<u8>,
)
    ensures
        fresh_info(first, content).hash == fresh_info(second, content).hash,
{
}

/// Whether no entry of a listing from `from` on is stale.
pub open spec fn nothing_stale(
    entries: Seq<ModEntryView>,
    from: nat,
    store: Map<Seq<char>, FileHashInfoView>,
    base: Seq<char>,
) -> bool {
    forall|i: int| from <= i < entries.len() ==> !(#[trigger] lookup(store, base, entries[i]) is Stale)
}

/// A scan of a directory in which nothing is stale asks for no content, so
/// computes no digest, and comes to the end of its listing in one walk.
pub proof fn lemma_unchanged_directory_needs_no_digest(
    scan: ScanView,
    store: Map<Seq<char>, FileHashInfoView>,
    base: Seq<char>,
)
    requires
        scan.failed is None,
        scan.cursor <= scan.entries.len(),
        nothing_stale(scan.entries, scan.cursor, store, base),
    ensures
        advance(scan, store, base).1 == ScanActionView::Done,
        advance(scan, store, base).0.cursor == scan.entries.len(),
        advance(scan, store, base).0.entries == scan.entries,
        advance(scan, store, base).0.failed is None,
    decreases scan.entries.len() - scan.cursor,
{
    if scan.cursor < scan.entries.len() {
        let passed = ScanView { cursor: scan.cursor + 1, ..scan };
        let found = lookup(store, base, scan.entries[scan.cursor as int]);
        assert(!(found is Stale));
        match found {
            LookupView::Skipped => {
                lemma_unchanged_directory_needs_no_digest(passed, store, base);
            },
            LookupView::Cached(info) => {
                lemma_unchanged_directory_needs_no_digest(
                    ScanView { found: scan.found.push(info), ..passed },
                    store,
                    base,
                );
            },
            LookupView::Stale(stale) => {},
        }
    }
}

/// A scan of an empty listing is over at once and has found nothing. The
/// same holds of a directory that is missing, which is scanned as an empty
/// one.
pub proof fn lemma_empty_directory_yields_nothing(
    store: Map<Seq<char>, FileHashInfoView>,
    base: Seq<char>,
)
    ensures
        advance(fresh_scan(Seq::empty()), store, base) == (
            fresh_scan(Seq::empty()),
            ScanActionView::Done,
        ),
        fresh_scan(Seq::empty()).found == Seq::<FileHashInfoView>::empty(),
{
}

} // verus!
