//! The installed versions: the folders of the versions directory.

use vstd::prelude::*;
use vstd::string::*;

verus! {

/// One entry of the listing of the versions directory.
#[derive(Debug)]
pub enum VersionEntry {
    /// The entry or its kind could not be read.
    Unreadable,
    /// A file, or anything else that is not a directory.
    NotADirectory,
    /// A directory, with its name where the name has a textual form.
    Directory(Option<String>),
}

/// Mathematical value of a [`VersionEntry`].
pub enum VersionEntryView {
    Unreadable,
    NotADirectory,
    Directory(Option<Seq<char>>),
}

impl View for VersionEntry {
    type V = VersionEntryView;

    open spec fn view(&self) -> VersionEntryView {
        match self {
            VersionEntry::Unreadable => VersionEntryView::Unreadable,
            VersionEntry::NotADirectory => VersionEntryView::NotADirectory,
            VersionEntry::Directory(name) => VersionEntryView::Directory(
                match name {
                    Some(text) => Some(text@),
                    None => None,
                },
            ),
        }
    }
}

/// The mathematical values of the entries of a listing.
pub open spec fn entries_view(entries: Seq<VersionEntry>) -> Seq<VersionEntryView> {
    entries.map_values(|entry: VersionEntry| entry@)
}

/// The mathematical values of a sequence of names.
pub open spec fn names_view(names: Seq<String>) -> Seq<Seq<char>> {
    names.map_values(|name: String| name@)
}

/// The name that an entry contributes: that of a directory whose name has a
/// textual form. Every other entry contributes nothing.
pub open spec fn version_name(entry: VersionEntryView) -> Option<Seq<char>> {
    match entry {
        VersionEntryView::Directory(Some(name)) => Some(name),
        _ => None,
    }
}

/// The names of the versions that a listing shows, in the order of the
/// listing.
pub open spec fn version_names(entries: Seq<VersionEntryView>) -> Seq<Seq<char>>
    decreases entries.len(),
{
    if entries.len() == 0 {
        Seq::empty()
    } else {
        let before = version_names(entries.drop_last());
        match version_name(entries.last()) {
            Some(name) => before.push(name),
            None => before,
        }
    }
}

/// The names of the installed versions, given the listing of the versions
/// directory. `None` stands for a directory that is missing or cannot be
/// listed: no version is installed then.
pub fn get_minecraft_versions(listing: Option<Vec<VersionEntry>>) -> (names: Vec<String>)
    ensures
        names_view(names@) == version_names(
            match listing {
                Some(entries) => entries_view(entries@),
                None => Seq::empty(),
            },
        ),
{
    let mut names: Vec<String> = Vec::new();
    let entries = match listing {
        Some(entries) => entries,
        None => {
            assert(names_view(names@) =~= Seq::empty());
            return names;
        },
    };
    let ghost all = entries_view(entries@);
    let mut i: usize = 0;
    assert(names_view(names@) =~= Seq::empty());
    while i < entries.len()
        invariant
            i <= entries@.len(),
            all == entries_view(entries@),
            names_view(names@) == version_names(all.take(i as int)),
        decreases entries@.len() - i,
    {
        let ghost before = names_view(names@);
        proof {
            assert(all.take(i + 1).drop_last() =~= all.take(i as int));
            assert(all.take(i + 1).last() == entries@[i as int]@);
        }
        match &entries[i] {
            VersionEntry::Directory(Some(name)) => {
                names.push(name.clone());
                assert(names_view(names@) =~= before.push(name@));
            },
            _ => {},
        }
        i = i + 1;
    }
    proof {
        assert(all.take(i as int) =~= all);
    }
    names
}

} // verus!
