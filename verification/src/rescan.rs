//! What a whole scan comes to, and what holds of two scans in a row.
//!
//! A scan is driven step by step, with the reading of files in between. This
//! module says in one piece what the steps add up to, given what the files
//! hold, and proves that a scan of a directory that has not changed since
//! the scan before reads no file and finds the same fingerprints.

use crate::paths::cache_key;
use crate::scanner::{
    advance, fresh_info, lookup, LookupView, ModEntryView, ScanActionView, ScanView,
};
use crate::store::FileHashInfoView;
use vstd::prelude::*;

verus! {

/// How far a scan has come: the store as it stands, the fingerprints found,
/// and the path of the file that could not be read, once there is one.
pub struct Progress {
    pub store: Map<Seq<char>, FileHashInfoView>,
    pub found: Seq<FileHashInfoView>,
    pub failed: Option<Seq<char>>,
}

/// Where a scan stands after the first `n` entries of a listing.
///
/// `contents` holds the content of every file that can be read, by path.
/// The scan starts with the given store and nothing found. Each entry is
/// looked up in the store as it stands by then. A skipped entry changes
/// nothing, a fingerprint from the store is added to those found, and a
/// stale file has its fingerprint computed from its content, filed and
/// added. A stale file that cannot be read ends the scan.
pub open spec fn scanned(
    entries: Seq<ModEntryView>,
    n: nat,
    store: Map<Seq<char>, FileHashInfoView>,
    base: Seq<char>,
    contents: Map<Seq<char>, Seq<u8>>,
) -> Progress
    decreases n,
{
    if n == 0 {
        Progress { store, found: Seq::empty(), failed: None }
    } else {
        let before = scanned(entries, (n - 1) as nat, store, base, contents);
        if before.failed is Some {
            before
        } else {
            match lookup(before.store, base, entries[n - 1]) {
                LookupView::Skipped => before,
                LookupView::Cached(info) => Progress { found: before.found.push(info), ..before },
                LookupView::Stale(stale) => if contents.contains_key(stale.path) {
                    let info = fresh_info(stale, contents[stale.path]);
                    Progress {
                        store: before.store.insert(stale.key, info),
                        found: before.found.push(info),
                        failed: None,
                    }
                } else {
                    Progress { failed: Some(stale.path), ..before }
                },
            }
        }
    }
}

/// The cache key of an entry: that of a regular file with a textual path.
/// Other entries have none.
pub open spec fn entry_key(entry: ModEntryView, base: Seq<char>) -> Option<Seq<char>> {
    match entry {
        ModEntryView::File(file) => match file.path {
            Some(path) => Some(cache_key(path, base)),
            None => None,
        },
        _ => None,
    }
}

/// Whether no two entries of a listing have the same cache key.
pub open spec fn keys_differ(entries: Seq<ModEntryView>, base: Seq<char>) -> bool {
    forall|i: int, j: int|
        0 <= i < j < entries.len() && entry_key(#[trigger] entries[i], base) is Some ==> entry_key(
            entries[i],
            base,
        ) != entry_key(#[trigger] entries[j], base)
}

/// One walk of a scan follows [`scanned`].
///
/// Take a scan that has not failed and stands where [`scanned`] stands after
/// as many entries as the scan has dealt with. If the walk ends the scan,
/// the scan stands where [`scanned`] stands after the whole listing. If the
/// walk asks for a file, then once the content has been supplied, or the
/// scan has been told that there is none, the scan stands where [`scanned`]
/// stands after the entries dealt with by then.
pub proof fn lemma_walk_follows_scan(
    scan: ScanView,
    store: Map<Seq<char>, FileHashInfoView>,
    start: Map<Seq<char>, FileHashInfoView>,
    base: Seq<char>,
    contents: Map<Seq<char>, Seq<u8>>,
)
    requires
        scan.cursor <= scan.entries.len(),
        scanned(scan.entries, scan.cursor, start, base, contents) == (Progress {
            store,
            found: scan.found,
            failed: scan.failed,
        }),
        scan.failed is None,
    ensures
        ({
            let (walked, action) = advance(scan, store, base);
            &&& walked.entries == scan.entries
            &&& walked.failed is None
            &&& scan.cursor <= walked.cursor <= scan.entries.len()
            &&& match action {
                ScanActionView::Done => walked.cursor == scan.entries.len() && scanned(
                    scan.entries,
                    walked.cursor,
                    start,
                    base,
                    contents,
                ) == (Progress { store, found: walked.found, failed: None }),
                ScanActionView::Read(stale) => scanned(
                    scan.entries,
                    walked.cursor,
                    start,
                    base,
                    contents,
                ) == if contents.contains_key(stale.path) {
                    Progress {
                        store: store.insert(stale.key, fresh_info(stale, contents[stale.path])),
                        found: walked.found.push(fresh_info(stale, contents[stale.path])),
                        failed: None,
                    }
                } else {
                    Progress { store, found: walked.found, failed: Some(stale.path) }
                },
            }
        }),
    decreases scan.entries.len() - scan.cursor,
{
    if scan.cursor < scan.entries.len() {
        let passed = ScanView { cursor: scan.cursor + 1, ..scan };
        match lookup(store, base, scan.entries[scan.cursor as int]) {
            LookupView::Skipped => {
                lemma_walk_follows_scan(passed, store, start, base, contents);
            },
            LookupView::Cached(info) => {
                lemma_walk_follows_scan(
                    ScanView { found: scan.found.push(info), ..passed },
                    store,
                    start,
                    base,
                    contents,
                );
            },
            LookupView::Stale(stale) => {},
        }
    }
}

/// A scan that has failed stays failed.
proof fn lemma_failure_stays(
    entries: Seq<ModEntryView>,
    n: nat,
    m: nat,
    store: Map<Seq<char>, FileHashInfoView>,
    base: Seq<char>,
    contents: Map<Seq<char>, Seq<u8>>,
)
    requires
        n <= m,
        scanned(entries, n, store, base, contents).failed is Some,
    ensures
        scanned(entries, m, store, base, contents).failed is Some,
    decreases m - n,
{
    if n < m {
        lemma_failure_stays(entries, n, (m - 1) as nat, store, base, contents);
    }
}

/// Between two points of a scan, the store changes only under the keys of
/// the entries in between.
proof fn lemma_other_keys_stay(
    entries: Seq<ModEntryView>,
    n: nat,
    m: nat,
    store: Map<Seq<char>, FileHashInfoView>,
    base: Seq<char>,
    contents: Map<Seq<char>, Seq<u8>>,
    key: Seq<char>,
)
    requires
        n <= m <= entries.len(),
        forall|j: int| n <= j < m ==> entry_key(#[trigger] entries[j], base) != Some(key),
    ensures
        scanned(entries, m, store, base, contents).store.contains_key(key) == scanned(
            entries,
            n,
            store,
            base,
            contents,
        ).store.contains_key(key),
        scanned(entries, m, store, base, contents).store[key] == scanned(
            entries,
            n,
            store,
            base,
            contents,
        ).store[key],
    decreases m - n,
{
    if n < m {
        lemma_other_keys_stay(entries, n, (m - 1) as nat, store, base, contents, key);
        assert(entry_key(entries[m - 1], base) != Some(key));
    }
}

proof fn lemma_rescan_prefix(
    entries: Seq<ModEntryView>,
    n: nat,
    store: Map<Seq<char>, FileHashInfoView>,
    base: Seq<char>,
    contents: Map<Seq<char>, Seq<u8>>,
    later_contents: Map<Seq<char>, Seq<u8>>,
)
    requires
        n <= entries.len(),
        keys_differ(entries, base),
        scanned(entries, entries.len(), store, base, contents).failed is None,
    ensures
        scanned(
            entries,
            n,
            scanned(entries, entries.len(), store, base, contents).store,
            base,
            later_contents,
        ) == (Progress {
            store: scanned(entries, entries.len(), store, base, contents).store,
            found: scanned(entries, n, store, base, contents).found,
            failed: None,
        }),
    decreases n,
{
    let first = scanned(entries, entries.len(), store, base, contents);
    if n > 0 {
        let before = scanned(entries, (n - 1) as nat, store, base, contents);
        let after = scanned(entries, n, store, base, contents);
        let entry = entries[n - 1];
        lemma_rescan_prefix(entries, (n - 1) as nat, store, base, contents, later_contents);
        if before.failed is Some {
            lemma_failure_stays(entries, (n - 1) as nat, entries.len(), store, base, contents);
        }
        if after.failed is Some {
            lemma_failure_stays(entries, n, entries.len(), store, base, contents);
        }
        match entry_key(entry, base) {
            None => {},
            Some(key) => {
                assert forall|j: int| n <= j < entries.len() implies entry_key(
                    #[trigger] entries[j],
                    base,
                ) != Some(key) by {
                    assert(entry_key(entries[n - 1], base) is Some);
                }
                lemma_other_keys_stay(entries, n, entries.len(), store, base, contents, key);
            },
        }
    }
}

/// A second scan of an unchanged directory reads nothing.
///
/// Take a listing in which no two files have the same cache key, and a scan
/// of it that did not fail. A scan of the same listing that starts with the
/// store that the first one left finds the same fingerprints and leaves the
/// store as it is, whatever the files hold by then, and even if none of them
/// can be read: it asks for no content, so computes no digest.
pub proof fn lemma_rescan_reads_nothing(
    entries: Seq<ModEntryView>,
    store: Map<Seq<char>, FileHashInfoView>,
    base: Seq<char>,
    contents: Map<Seq<char>, Seq<u8>>,
    later_contents: Map<Seq<char>, Seq<u8>>,
)
    requires
        keys_differ(entries, base),
        scanned(entries, entries.len(), store, base, contents).failed is None,
    ensures
        scanned(
            entries,
            entries.len(),
            scanned(entries, entries.len(), store, base, contents).store,
            base,
            later_contents,
        ) == scanned(entries, entries.len(), store, base, contents),
{
    lemma_rescan_prefix(entries, entries.len(), store, base, contents, later_contents);
}

/// A scan of a directory without files finds nothing and leaves the store as
/// it is. An empty directory is such a directory.
pub proof fn lemma_scan_without_files(
    entries: Seq<ModEntryView>,
    n: nat,
    store: Map<Seq<char>, FileHashInfoView>,
    base: Seq<char>,
    contents: Map<Seq<char>, Seq<u8>>,
)
    requires
        n <= entries.len(),
        forall|i: int| 0 <= i < entries.len() ==> !(#[trigger] entries[i] is File),
    ensures
        scanned(entries, n, store, base, contents) == (Progress {
            store,
            found: Seq::empty(),
            failed: None,
        }),
    decreases n,
{
    if n > 0 {
        lemma_scan_without_files(entries, (n - 1) as nat, store, base, contents);
        assert(!(entries[n - 1] is File));
    }
}

} // verus!
