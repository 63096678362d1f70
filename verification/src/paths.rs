//! Paths as text: where the installation's directories lie, and the cache key
//! of a file.
//!
//! A path is a sequence of characters. Both `/` and `\` separate its parts,
//! so that a path means the same whichever of the two the host reports.
//! Paths that this module builds are joined with `/`.

use crate::config::Config;
use vstd::prelude::*;
use vstd::string::*;

verus! {

/// Whether a character separates the parts of a path.
pub open spec fn is_separator(c: char) -> bool {
    c == '/' || c == '\\'
}

/// The marker that a base-relative cache key begins with.
pub open spec fn relative_marker() -> Seq<char> {
    seq!['.', '/']
}

/// `base` with `component` below it: the two written one after the other,
/// with a `/` between them unless `base` is empty or ends in a separator.
pub open spec fn joined(base: Seq<char>, component: Seq<char>) -> Seq<char> {
    if base.len() == 0 || is_separator(base.last()) {
        base + component
    } else {
        base + seq!['/'] + component
    }
}

/// The directory the installation lies in: the configured one, or the
/// current directory `./` where none is configured.
pub open spec fn base_dir(configured: Option<Seq<char>>) -> Seq<char> {
    match configured {
        Some(dir) => dir,
        None => relative_marker(),
    }
}

/// The mods directory to scan. With `isolate` set it is the one directory all
/// versions share, `.minecraft/mods` under `base`. Otherwise it is the
/// directory of the given version, `.minecraft/versions/<version>/mods`.
pub open spec fn mods_dir(base: Seq<char>, isolate: bool, version: Seq<char>) -> Seq<char> {
    if isolate {
        joined(joined(base, ".minecraft"@), "mods"@)
    } else {
        joined(joined(joined(joined(base, ".minecraft"@), "versions"@), version), "mods"@)
    }
}

/// The directory that holds one folder per installed version.
pub open spec fn versions_dir(base: Seq<char>) -> Seq<char> {
    joined(joined(base, ".minecraft"@), "versions"@)
}

/// The directory that holds the tool's own files, `MSN` under `base`.
pub open spec fn cache_dir(base: Seq<char>) -> Seq<char> {
    joined(base, "MSN"@)
}

/// The file that keeps the fingerprints between runs, `MSN/hash.json` under
/// `base`.
pub open spec fn cache_file(base: Seq<char>) -> Seq<char> {
    joined(cache_dir(base), "hash.json"@)
}

/// How many leading characters a path below `base` shares with it, the
/// separator after `base` included.
pub open spec fn shared_len(base: Seq<char>) -> nat {
    if base.len() > 0 && is_separator(base.last()) {
        base.len()
    } else {
        base.len() + 1
    }
}

/// Whether `path` lies below `base`: it begins with `base`, and `base` ends
/// in a separator or is followed by one in `path`. Nothing lies below the
/// empty base, and a path does not lie below itself.
pub open spec fn is_descendant(path: Seq<char>, base: Seq<char>) -> bool {
    &&& base.len() > 0
    &&& shared_len(base) <= path.len()
    &&& path.take(base.len() as int) == base
    &&& is_separator(path[shared_len(base) - 1])
}

/// The cache key of the file at `path`. Below `base`, the shared prefix is
/// replaced by `./`; elsewhere the key is the path itself.
pub open spec fn cache_key(path: Seq<char>, base: Seq<char>) -> Seq<char> {
    if is_descendant(path, base) {
        relative_marker() + path.skip(shared_len(base) as int)
    } else {
        path
    }
}

/// Whether a path does not begin with a dot. Absolute paths are such paths;
/// none of them can be mistaken for a base-relative key.
pub open spec fn has_no_leading_dot(path: Seq<char>) -> bool {
    path.len() > 0 ==> path[0] != '.'
}

/// The characters of a string, in order.
fn chars_of(text: &str) -> (chars: Vec<char>)
    ensures
        chars@ == text@,
{
    let mut chars: Vec<char> = Vec::new();
    for c in it: text.chars()
        invariant
            chars@ == it.seq().take(it.index() as int),
            it.seq() == text@,
    {
        chars.push(c);
    }
    chars
}

fn is_separator_char(c: char) -> (separates: bool)
    ensures
        separates == is_separator(c),
{
    c == '/' || c == '\\'
}

/// Puts `component` below `base`.
pub fn join_path(base: &str, component: &str) -> (path: String)
    ensures
        path@ == joined(base@, component@),
{
    let chars = chars_of(base);
    let mut path = base.to_owned();
    if chars.len() > 0 && !is_separator_char(chars[chars.len() - 1]) {
        proof {
            reveal_strlit("/");
        }
        path.append("/");
        assert(path@ =~= base@ + seq!['/']);
    }
    path.append(component);
    path
}

/// The directory the installation lies in, given the directory that the
/// user has configured, if there is one.
pub fn minecraft_path(configured: Option<String>) -> (base: String)
    ensures
        base@ == base_dir(
            match configured {
                Some(dir) => Some(dir@),
                None => None,
            },
        ),
{
    match configured {
        Some(dir) => dir,
        None => {
            proof {
                reveal_strlit("./");
            }
            let base = String::from_str("./");
            assert(base@ =~= relative_marker());
            base
        },
    }
}

/// The mods directory that a scan for `version` looks into.
pub fn mods_path(config: &Config, base: &str, version: &str) -> (dir: String)
    ensures
        dir@ == mods_dir(base@, config.minecraft.isolate, version@),
{
    let game = join_path(base, ".minecraft");
    if config.minecraft.isolate {
        join_path(game.as_str(), "mods")
    } else {
        let versions = join_path(game.as_str(), "versions");
        let own = join_path(versions.as_str(), version);
        join_path(own.as_str(), "mods")
    }
}

/// The directory whose folders are the installed versions.
pub fn versions_path(base: &str) -> (dir: String)
    ensures
        dir@ == versions_dir(base@),
{
    let game = join_path(base, ".minecraft");
    join_path(game.as_str(), "versions")
}

/// The directory of the tool's own files.
pub fn config_dir_path(base: &str) -> (dir: String)
    ensures
        dir@ == cache_dir(base@),
{
    join_path(base, "MSN")
}

/// The file that keeps the fingerprints between runs.
pub fn hash_cache_path(base: &str) -> (file: String)
    ensures
        file@ == cache_file(base@),
{
    let dir = config_dir_path(base);
    join_path(dir.as_str(), "hash.json")
}

fn descends(path: &Vec<char>, base: &Vec<char>) -> (below: bool)
    ensures
        below == is_descendant(path@, base@),
{
    let n = base.len();
    if n == 0 || path.len() < n {
        return false;
    }
    let mut i: usize = 0;
    while i < n
        invariant
            i <= n,
            n == base.len(),
            n <= path.len(),
            path@.take(i as int) == base@.take(i as int),
        decreases n - i,
    {
        if path[i] != base[i] {
            proof {
                if path@.take(n as int) == base@ {
                    assert(path@.take(n as int)[i as int] == base@[i as int]);
                }
            }
            return false;
        }
        proof {
            assert(path@.take(i + 1) =~= path@.take(i as int).push(path@[i as int]));
            assert(base@.take(i + 1) =~= base@.take(i as int).push(base@[i as int]));
        }
        i = i + 1;
    }
    proof {
        assert(base@.take(n as int) =~= base@);
    }
    if is_separator_char(base[n - 1]) {
        true
    } else {
        path.len() > n && is_separator_char(path[n])
    }
}

/// The cache key of a file.
///
/// `path` is the file's path as text, or `None` where the path has no
/// textual form; such a file has no key. `base` is the directory the
/// installation lies in. A file below `base` gets the key `./` followed by
/// its path from `base` on; any other file has its path for a key. The key
/// depends on nothing but the two texts.
pub fn to_relative_path_string(path: Option<&str>, base: &str) -> (key: Option<String>)
    ensures
        match path {
            None => key is None,
            Some(text) => key matches Some(k) && k@ == cache_key(text@, base@),
        },
{
    match path {
        None => None,
        Some(text) => {
            let path_chars = chars_of(text);
            let base_chars = chars_of(base);
            if descends(&path_chars, &base_chars) {
                let n = base_chars.len();
                assert(shared_len(base@) <= path_chars.len());
                let from = if is_separator_char(base_chars[n - 1]) {
                    n
                } else {
                    n + 1
                };
                proof {
                    reveal_strlit("./");
                }
                let mut key = String::from_str("./");
                assert(key@ =~= relative_marker());
                key.append(text.substring_char(from, path_chars.len()));
                assert(text@.subrange(from as int, text@.len() as int) =~= text@.skip(from as int));
                Some(key)
            } else {
                Some(text.to_owned())
            }
        },
    }
}

/// Resolving a key again gives the same key: under a base that does not
/// begin with a dot, a cache key is its own cache key.
pub proof fn lemma_cache_key_idempotent(path: Seq<char>, base: Seq<char>)
    requires
        has_no_leading_dot(base),
    ensures
        cache_key(cache_key(path, base), base) == cache_key(path, base),
{
    if is_descendant(path, base) {
        let key = cache_key(path, base);
        assert(key[0] == '.');
        if is_descendant(key, base) {
            assert(key.take(base.len() as int)[0] == base[0]);
        }
    }
}

/// Cache keys tell files apart. Two paths without a leading dot that have the
/// same key under one base are the same path, or both lie below the base and
/// differ at most in which separator follows the base.
pub proof fn lemma_cache_key_injective(first: Seq<char>, second: Seq<char>, base: Seq<char>)
    requires
        has_no_leading_dot(first),
        has_no_leading_dot(second),
        cache_key(first, base) == cache_key(second, base),
    ensures
        is_descendant(first, base) == is_descendant(second, base),
        !is_descendant(first, base) ==> first == second,
        is_descendant(first, base) ==> first.len() == second.len() && forall|i: int|
            0 <= i < first.len() && i != shared_len(base) - 1 ==> first[i] == second[i],
{
    let n = shared_len(base);
    let below_first = is_descendant(first, base);
    let below_second = is_descendant(second, base);
    if below_first && !below_second {
        assert(cache_key(first, base)[0] == '.');
        assert(second[0] == '.');
    }
    if !below_first && below_second {
        assert(cache_key(second, base)[0] == '.');
        assert(first[0] == '.');
    }
    if below_first && below_second {
        let key = cache_key(first, base);
        assert(key.len() == 2 + first.len() - n);
        assert(key.len() == 2 + second.len() - n);
        assert forall|i: int| 0 <= i < first.len() && i != n - 1 implies first[i] == second[i] by {
            if i < base.len() {
                assert(first.take(base.len() as int)[i] == second.take(base.len() as int)[i]);
            } else {
                assert(first.skip(n as int)[i - n] == key[2 + i - n]);
                assert(second.skip(n as int)[i - n] == key[2 + i - n]);
            }
        }
    }
}

} // verus!
