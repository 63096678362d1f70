//! The fingerprint of one file and the store that remembers fingerprints.

use vstd::hash_map::StringHashMap;
use vstd::prelude::*;
use vstd::string::*;

verus! {

/// The last observed state of one file.
///
/// `hash` is the content digest in uppercase hexadecimal. It may be relied on
/// only while `size` and `last_modified` still match the file.
#[derive(Debug, PartialEq, Eq)]
pub struct FileHashInfo {
    /// Base name of the file, for display only.
    pub name: String,
    /// Length of the file in bytes.
    pub size: u64,
    /// Modification time in milliseconds since the epoch.
    pub last_modified: u128,
    /// Content digest, uppercase hexadecimal.
    pub hash: String,
}

/// Mathematical value of a [`FileHashInfo`].
pub struct FileHashInfoView {
    pub name: Seq<char>,
    pub size: u64,
    pub last_modified: u128,
    pub hash: Seq<char>,
}

impl View for FileHashInfo {
    type V = FileHashInfoView;

    open spec fn view(&self) -> FileHashInfoView {
        FileHashInfoView {
            name: self.name@,
            size: self.size,
            last_modified: self.last_modified,
            hash: self.hash@,
        }
    }
}

impl Clone for FileHashInfo {
    fn clone(&self) -> (copy: Self)
        ensures
            copy@ == self@,
    {
        FileHashInfo {
            name: self.name.clone(),
            size: self.size,
            last_modified: self.last_modified,
            hash: self.hash.clone(),
        }
    }
}

/// Whether size or modification time differ between two observations.
pub open spec fn changed(old_info: FileHashInfoView, new_info: FileHashInfoView) -> bool {
    old_info.last_modified != new_info.last_modified || old_info.size != new_info.size
}

/// Staleness test: `true` exactly when the modification time or the size of
/// the two observations differ. Name and digest play no part.
pub fn has_file_changed(file1: &FileHashInfo, file2: &FileHashInfo) -> (differs: bool)
    ensures
        differs == changed(file1@, file2@),
{
    file1.last_modified != file2.last_modified || file1.size != file2.size
}

/// One line of a listing of fingerprints: a cache key and the fingerprint
/// filed under it.
pub type EntryView = (Seq<char>, FileHashInfoView);

/// The mathematical value of a listing held in a vector.
pub open spec fn listing_view(entries: Seq<(String, FileHashInfo)>) -> Seq<EntryView> {
    entries.map_values(|entry: (String, FileHashInfo)| (entry.0@, entry.1@))
}

/// The mapping that a listing describes. Where a key occurs more than once,
/// its last line counts.
pub open spec fn map_of(listing: Seq<EntryView>) -> Map<Seq<char>, FileHashInfoView>
    decreases listing.len(),
{
    if listing.len() == 0 {
        Map::empty()
    } else {
        map_of(listing.drop_last()).insert(listing.last().0, listing.last().1)
    }
}

/// Whether a listing holds exactly the entries of a mapping, each key once.
pub open spec fn is_listing_of(
    listing: Seq<EntryView>,
    mapping: Map<Seq<char>, FileHashInfoView>,
) -> bool {
    &&& forall|i: int|
        0 <= i < listing.len() ==> mapping.contains_key((#[trigger] listing[i]).0)
            && mapping[listing[i].0] == listing[i].1
    &&& forall|i: int, j: int|
        0 <= i < j < listing.len() ==> (#[trigger] listing[i]).0 != (#[trigger] listing[j]).0
    &&& forall|key: Seq<char>| #[trigger]
        mapping.contains_key(key) ==> exists|i: int|
            0 <= i < listing.len() && (#[trigger] listing[i]).0 == key
}

/// Writing a store out and reading it back gives the same mapping: the
/// mapping that a listing of a mapping describes is that mapping.
pub proof fn lemma_listing_round_trip(
    listing: Seq<EntryView>,
    mapping: Map<Seq<char>, FileHashInfoView>,
)
    requires
        is_listing_of(listing, mapping),
    ensures
        map_of(listing) == mapping,
    decreases listing.len(),
{
    if listing.len() == 0 {
        assert(mapping =~= Map::empty());
    } else {
        let rest = listing.drop_last();
        let last = listing.last();
        let smaller = mapping.remove(last.0);
        assert forall|i: int| 0 <= i < rest.len() implies smaller.contains_key(
            (#[trigger] rest[i]).0,
        ) && smaller[rest[i].0] == rest[i].1 by {
            assert(rest[i] == listing[i]);
            assert(listing[i].0 != listing[listing.len() - 1].0);
        }
        assert forall|i: int, j: int| 0 <= i < j < rest.len() implies (#[trigger] rest[i]).0 != (
        #[trigger] rest[j]).0 by {
            assert(rest[i] == listing[i]);
            assert(rest[j] == listing[j]);
        }
        assert forall|key: Seq<char>| #[trigger] smaller.contains_key(key) implies exists|i: int|
            0 <= i < rest.len() && (#[trigger] rest[i]).0 == key by {
            assert(mapping.contains_key(key));
            let i = choose|i: int| 0 <= i < listing.len() && (#[trigger] listing[i]).0 == key;
            assert(i != listing.len() - 1);
            assert(rest[i] == listing[i]);
        }
        lemma_listing_round_trip(rest, smaller);
        assert(mapping.contains_key(listing[listing.len() - 1].0));
        assert(map_of(listing) =~= mapping);
    }
}

/// The fingerprints of the files seen so far, each filed under the cache key
/// of its file.
///
/// A store starts out empty or is made from a listing, changes only through
/// [`FingerprintStore::put`], and can be written out as a listing again.
pub struct FingerprintStore {
    map: StringHashMap<FileHashInfo>,
    /// Every key of `map` once, in the order in which the keys came in.
    keys: Vec<String>,
}

impl View for FingerprintStore {
    type V = Map<Seq<char>, FileHashInfoView>;

    closed spec fn view(&self) -> Map<Seq<char>, FileHashInfoView> {
        self.map@.map_values(|info: FileHashInfo| info@)
    }
}

impl FingerprintStore {
    /// The invariant of a store: its list of keys names each key of the
    /// mapping once and nothing else.
    #[verifier::type_invariant]
    spec fn wf(&self) -> bool {
        &&& forall|i: int|
            0 <= i < self.keys@.len() ==> self.map@.contains_key((#[trigger] self.keys@[i])@)
        &&& forall|i: int, j: int|
            0 <= i < j < self.keys@.len() ==> (#[trigger] self.keys@[i])@ != (
            #[trigger] self.keys@[j])@
        &&& forall|key: Seq<char>| #[trigger]
            self.map@.contains_key(key) ==> exists|i: int|
                0 <= i < self.keys@.len() && (#[trigger] self.keys@[i])@ == key
    }

    /// A store without entries.
    pub fn new() -> (store: FingerprintStore)
        ensures
            store@ == Map::<Seq<char>, FileHashInfoView>::empty(),
    {
        let store = FingerprintStore { map: StringHashMap::new(), keys: Vec::new() };
        assert(store@ =~= Map::<Seq<char>, FileHashInfoView>::empty());
        store
    }

    /// The fingerprint filed under `key`, if there is one.
    pub fn get(&self, key: &str) -> (found: Option<FileHashInfo>)
        ensures
            match found {
                Some(info) => self@.contains_key(key@) && info@ == self@[key@],
                None => !self@.contains_key(key@),
            },
    {
        match self.map.get(key) {
            Some(info) => Some(info.clone()),
            None => None,
        }
    }

    /// Files `info` under `key`, in place of what was filed there before.
    /// Every other entry stays as it is.
    pub fn put(&mut self, key: String, info: FileHashInfo)
        ensures
            final(self)@ == old(self)@.insert(key@, info@),
    {
        proof {
            use_type_invariant(&*self);
        }
        let mut taken = FingerprintStore::new();
        std::mem::swap(self, &mut taken);
        let FingerprintStore { mut map, mut keys } = taken;
        let ghost old_map = map@;
        let ghost old_keys = keys@;
        if !map.contains_key(key.as_str()) {
            keys.push(key.clone());
        }
        map.insert(key, info);
        proof {
            let n = old_keys.len() as int;
            assert forall|k: Seq<char>| #[trigger] map@.contains_key(k) implies exists|i: int|
                0 <= i < keys@.len() && (#[trigger] keys@[i])@ == k by {
                if old_map.contains_key(k) {
                    let i = choose|i: int| 0 <= i < n && (#[trigger] old_keys[i])@ == k;
                    assert(keys@[i] == old_keys[i]);
                } else {
                    assert(k == key@);
                    assert(keys@[n]@ == key@);
                }
            }
            assert forall|i: int| 0 <= i < keys@.len() implies map@.contains_key(
                (#[trigger] keys@[i])@,
            ) by {
                if i < n {
                    assert(keys@[i] == old_keys[i]);
                }
            }
            assert forall|i: int, j: int| 0 <= i < j < keys@.len() implies (#[trigger] keys@[i])@
                != (#[trigger] keys@[j])@ by {
                assert(keys@[i] == old_keys[i]);
                if j < n {
                    assert(keys@[j] == old_keys[j]);
                }
            }
            let candidate = FingerprintStore { map, keys };
            assert(candidate.keys@ == keys@ && candidate.map@ == map@);
            assert(candidate.wf());
        }
        *self = FingerprintStore { map, keys };
        assert(self@ =~= old(self)@.insert(key@, info@));
    }

    /// The store as a listing: every entry once, in the order in which the
    /// keys came in.
    pub fn entries(&self) -> (listing: Vec<(String, FileHashInfo)>)
        ensures
            is_listing_of(listing_view(listing@), self@),
    {
        proof {
            use_type_invariant(self);
        }
        let mut listing: Vec<(String, FileHashInfo)> = Vec::new();
        let mut i: usize = 0;
        while i < self.keys.len()
            invariant
                self.wf(),
                i <= self.keys@.len(),
                listing@.len() == i,
                forall|j: int|
                    0 <= j < i ==> (#[trigger] listing@[j]).0@ == self.keys@[j]@ && listing@[j].1@
                        == self@[self.keys@[j]@],
            decreases self.keys@.len() - i,
        {
            let key = self.keys[i].clone();
            assert(self.map@.contains_key(self.keys@[i as int]@));
            match self.map.get(key.as_str()) {
                Some(info) => {
                    listing.push((key, info.clone()));
                },
                None => {},
            }
            i = i + 1;
        }
        proof {
            let view = listing_view(listing@);
            assert forall|j: int| 0 <= j < view.len() implies self@.contains_key(
                (#[trigger] view[j]).0,
            ) && self@[view[j].0] == view[j].1 by {
                assert(listing@[j].0@ == self.keys@[j]@);
                assert(self.map@.contains_key(self.keys@[j]@));
            }
            assert forall|j: int, k: int| 0 <= j < k < view.len() implies (#[trigger] view[j]).0 != (
            #[trigger] view[k]).0 by {
                assert(listing@[j].0@ == self.keys@[j]@);
                assert(listing@[k].0@ == self.keys@[k]@);
            }
            assert forall|key: Seq<char>| #[trigger] self@.contains_key(key) implies exists|j: int|
                0 <= j < view.len() && (#[trigger] view[j]).0 == key by {
                assert(self.map@.contains_key(key));
                let j = choose|j: int| 0 <= j < self.keys@.len() && (#[trigger] self.keys@[j])@ == key;
                assert(listing@[j].0@ == self.keys@[j]@);
                assert(view[j].0 == key);
            }
        }
        listing
    }

    /// The store that a listing describes. Where a key occurs more than
    /// once, its last line counts.
    pub fn from_entries(listing: Vec<(String, FileHashInfo)>) -> (store: FingerprintStore)
        ensures
            store@ == map_of(listing_view(listing@)),
    {
        let mut store = FingerprintStore::new();
        let mut i: usize = 0;
        while i < listing.len()
            invariant
                i <= listing@.len(),
                store@ == map_of(listing_view(listing@).take(i as int)),
            decreases listing@.len() - i,
        {
            let key = listing[i].0.clone();
            let info = listing[i].1.clone();
            store.put(key, info);
            proof {
                let view = listing_view(listing@);
                assert(view.take(i + 1).drop_last() =~= view.take(i as int));
                assert(view.take(i + 1).last() == view[i as int]);
            }
            i = i + 1;
        }
        proof {
            let view = listing_view(listing@);
            assert(view.take(i as int) =~= view);
        }
        store
    }

    /// The store to start a run with, given what the file of the last run
    /// held: the store that its listing describes, or an empty store where
    /// there was no file or none that could be read.
    pub fn load(saved: Option<Vec<(String, FileHashInfo)>>) -> (store: FingerprintStore)
        ensures
            store@ == match saved {
                Some(listing) => map_of(listing_view(listing@)),
                None => Map::empty(),
            },
    {
        match saved {
            Some(listing) => FingerprintStore::from_entries(listing),
            None => FingerprintStore::new(),
        }
    }
}

} // verus!
