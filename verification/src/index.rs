//! The lookup index: request paths, hashed, to cache entries, with the
//! index file of a directory reachable by the directory's own path.

use crate::bytes::{bytes_eq, find_byte, index_of, text, QUESTION, SLASH};
use crate::entry::{CacheEntry, CacheEntryView};
use rustc_hash::FxHashMap;
use vstd::prelude::*;

verus! {

/// The value that the FNV-1a hash starts from.
pub const FNV_OFFSET_BASIS: u32 = 2166136261;

/// The factor of the FNV-1a hash.
pub const FNV_PRIME: u32 = 16777619;

/// One step of the FNV-1a hash: fold the byte in, then multiply.
pub open spec fn fnv_step(hash: u32, byte: u8) -> u32 {
    (hash ^ (byte as u32)).wrapping_mul(FNV_PRIME)
}

/// The 32-bit FNV-1a hash of a byte string.
pub open spec fn fnv1a(bytes: Seq<u8>) -> u32
    decreases bytes.len(),
{
    if bytes.len() == 0 {
        FNV_OFFSET_BASIS
    } else {
        fnv_step(fnv1a(bytes.drop_last()), bytes.last())
    }
}

/// A request path up to its first `?`.
pub open spec fn without_query(path: Seq<u8>) -> Seq<u8> {
    path.take(index_of(path, QUESTION))
}

/// Whether a request path, its query set aside, names a directory: it ends
/// in a slash and is longer than the slash alone.
pub open spec fn is_directory_style(path: Seq<u8>) -> bool {
    let p = without_query(path);
    p.len() > 1 && p.last() == SLASH
}

/// A request path without its query and without the one slash that makes
/// it directory-style.
pub open spec fn normalized_path(path: Seq<u8>) -> Seq<u8> {
    let p = without_query(path);
    if is_directory_style(path) {
        p.drop_last()
    } else {
        p
    }
}

/// The key under which a request path is stored and looked up.
pub open spec fn path_key(path: Seq<u8>) -> u32 {
    fnv1a(normalized_path(path))
}

/// Whether a path is that of a file named `index.html`.
pub open spec fn is_index_file(path: Seq<u8>) -> bool {
    let suffix = text("/index.html");
    path.len() >= suffix.len() && path.skip(path.len() - suffix.len()) == suffix
}

/// The directory of an index file, as a request path. The root is `/`.
pub open spec fn index_directory(path: Seq<u8>) -> Seq<u8> {
    let suffix = text("/index.html");
    if path.len() == suffix.len() {
        text("/")
    } else {
        path.take(path.len() - suffix.len())
    }
}

/// `rustc_hash::FxBuildHasher`, which builds the hashers of the index's
/// maps.
#[verifier::external_type_specification]
#[verifier::external_body]
pub struct ExFxBuildHasher(rustc_hash::FxBuildHasher);

/// `HashMap::insert` on a map that hashes with `rustc_hash`: afterwards the
/// map holds `entry` under `key`, in place of what it held there, and is
/// otherwise as before.
#[verifier::external_body]
fn map_insert(map: &mut FxHashMap<u32, CacheEntry>, key: u32, entry: CacheEntry)
    ensures
        final(map)@ == old(map)@.insert(key, entry),
{
    map.insert(key, entry);
}

/// `HashMap::get` on a map that hashes with `rustc_hash`: the entry held
/// under `key`, if there is one.
#[verifier::external_body]
fn map_get<'a>(map: &'a FxHashMap<u32, CacheEntry>, key: u32) -> (found: Option<&'a CacheEntry>)
    ensures
        match found {
            Some(entry) => map@.contains_key(key) && *entry == map@[key],
            None => !map@.contains_key(key),
        },
{
    map.get(&key)
}

/// `HashMap::len` on a map that hashes with `rustc_hash`: the number of
/// keys.
#[verifier::external_body]
fn map_len(map: &FxHashMap<u32, CacheEntry>) -> (count: usize)
    ensures
        count == map@.len(),
{
    map.len()
}

/// The index as two maps from path keys to entries.
pub struct PathTrieView {
    /// Every file, under the key of its own path.
    pub exact: Map<u32, CacheEntryView>,
    /// Every `index.html`, under the key of its directory's path.
    pub index_alias: Map<u32, CacheEntryView>,
}

impl PathTrieView {
    /// The index that holds nothing.
    pub open spec fn empty() -> PathTrieView {
        PathTrieView { exact: Map::empty(), index_alias: Map::empty() }
    }

    /// The index after `entry` was stored for the file at `path`.
    pub open spec fn insert(self, path: Seq<u8>, entry: CacheEntryView) -> PathTrieView {
        PathTrieView {
            exact: self.exact.insert(path_key(path), entry),
            index_alias: if is_index_file(path) {
                self.index_alias.insert(path_key(index_directory(path)), entry)
            } else {
                self.index_alias
            },
        }
    }

    /// What a request for `path` finds: the file stored under the path's
    /// key or, for a directory-style path and for `/`, the index file of
    /// that directory.
    pub open spec fn lookup(self, path: Seq<u8>) -> Option<CacheEntryView> {
        let key = path_key(path);
        if self.exact.contains_key(key) {
            Some(self.exact[key])
        } else if (is_directory_style(path) || path == text("/")) && self.index_alias.contains_key(
            key,
        ) {
            Some(self.index_alias[key])
        } else {
            None
        }
    }
}

/// The lookup index: two hash maps from path keys to entries, one for the
/// files under their own paths and one for index files under the paths of
/// their directories.
pub struct PathTrie {
    exact_matches: FxHashMap<u32, CacheEntry>,
    index_entries: FxHashMap<u32, CacheEntry>,
}

fn hash_bytes(bytes: &[u8], end: usize) -> (hash: u32)
    requires
        end <= bytes.len(),
    ensures
        hash == fnv1a(bytes@.take(end as int)),
{
    let mut hash: u32 = FNV_OFFSET_BASIS;
    let mut i: usize = 0;
    while i < end
        invariant
            i <= end <= bytes.len(),
            hash == fnv1a(bytes@.take(i as int)),
        decreases end - i,
    {
        proof {
            assert(bytes@.take(i + 1).drop_last() =~= bytes@.take(i as int));
        }
        hash = (hash ^ (bytes[i] as u32)).wrapping_mul(FNV_PRIME);
        i += 1;
    }
    hash
}

/// The key of a request path and whether the path is directory-style, in
/// one pass over its bytes.
pub fn normalize_path_bytes(path: &[u8]) -> (key: (u32, bool))
    ensures
        key.0 == path_key(path@),
        key.1 == is_directory_style(path@),
{
    let mut end_pos = find_byte(path, 0, path.len(), QUESTION);
    let mut is_directory_style = false;
    proof {
        assert(path@.subrange(0, path.len() as int) =~= path@);
    }
    if end_pos > 1 && path[end_pos - 1] == SLASH {
        is_directory_style = true;
        end_pos -= 1;
        proof {
            assert(without_query(path@).drop_last() =~= path@.take(end_pos as int));
        }
    }
    (hash_bytes(path, end_pos), is_directory_style)
}

fn ends_with(bytes: &[u8], suffix: &[u8]) -> (found: bool)
    ensures
        found == (bytes@.len() >= suffix@.len() && bytes@.skip(bytes@.len() - suffix@.len())
            == suffix@),
{
    if bytes.len() < suffix.len() {
        return false;
    }
    let from: usize = bytes.len() - suffix.len();
    bytes_eq(&bytes[from..bytes.len()], suffix)
}

impl View for PathTrie {
    type V = PathTrieView;

    closed spec fn view(&self) -> PathTrieView {
        PathTrieView {
            exact: self.exact_matches@.map_values(|e: CacheEntry| e@),
            index_alias: self.index_entries@.map_values(|e: CacheEntry| e@),
        }
    }
}

impl PathTrie {
    /// An index that holds nothing.
    pub fn new() -> (trie: PathTrie)
        ensures
            trie@ == PathTrieView::empty(),
    {
        let trie = PathTrie {
            exact_matches: FxHashMap::default(),
            index_entries: FxHashMap::default(),
        };
        proof {
            assert(trie@.exact =~= Map::empty());
            assert(trie@.index_alias =~= Map::empty());
        }
        trie
    }

    /// The key of a request path and whether the path is directory-style.
    pub fn normalize_path_hash(path: &str) -> (key: (u32, bool))
        ensures
            key.0 == path_key(text(path)),
            key.1 == is_directory_style(text(path)),
    {
        normalize_path_bytes(path.as_bytes())
    }

    /// Stores `entry` for the file at `path`. An `index.html` is stored for
    /// its directory as well.
    pub fn insert(&mut self, path: &str, entry: CacheEntry)
        ensures
            final(self)@ == old(self)@.insert(text(path), entry@),
    {
        let bytes = path.as_bytes();
        let (path_hash, _is_directory_style) = normalize_path_bytes(bytes);
        let suffix = "/index.html".as_bytes();
        if ends_with(bytes, suffix) {
            let dir_hash = if bytes.len() == suffix.len() {
                normalize_path_bytes("/".as_bytes()).0
            } else {
                normalize_path_bytes(&bytes[0..bytes.len() - suffix.len()]).0
            };
            let copy = entry.duplicate();
            map_insert(&mut self.index_entries, dir_hash, copy);
        }
        map_insert(&mut self.exact_matches, path_hash, entry);
        proof {
            let after = old(self)@.insert(text(path), entry@);
            assert(self@.exact =~= after.exact);
            assert(self@.index_alias =~= after.index_alias);
        }
    }

    /// Looks a request path up.
    pub fn get(&self, path: &str) -> (found: Option<&CacheEntry>)
        ensures
            match found {
                Some(entry) => self@.lookup(text(path)) == Some(entry@),
                None => self@.lookup(text(path)) is None,
            },
    {
        let bytes = path.as_bytes();
        let (path_hash, is_directory_style) = normalize_path_bytes(bytes);
        match map_get(&self.exact_matches, path_hash) {
            Some(entry) => { return Some(entry); },
            None => {},
        }
        if is_directory_style || bytes_eq(bytes, "/".as_bytes()) {
            match map_get(&self.index_entries, path_hash) {
                Some(entry) => { return Some(entry); },
                None => {},
            }
        }
        None
    }

    /// The number of keys under which a file is stored.
    pub fn entry_count(&self) -> (count: usize)
        ensures
            count == self@.exact.len(),
    {
        let count = map_len(&self.exact_matches);
        proof {
            assert(self@.exact.dom() =~= self.exact_matches@.dom());
        }
        count
    }
}

/// The cache that requests are served from: one generation of the index.
/// It is filled while it is held exclusively and only read once it is
/// shared, so no lookup ever meets an insertion.
pub struct OptimizedCache {
    current: PathTrie,
}

impl View for OptimizedCache {
    type V = PathTrieView;

    closed spec fn view(&self) -> PathTrieView {
        self.current@
    }
}

impl OptimizedCache {
    /// A cache whose index holds nothing yet.
    pub fn new() -> (cache: OptimizedCache)
        ensures
            cache@ == PathTrieView::empty(),
    {
        OptimizedCache { current: PathTrie::new() }
    }

    /// Makes `index` the generation that lookups read.
    pub fn publish(index: PathTrie) -> (cache: OptimizedCache)
        ensures
            cache@ == index@,
    {
        OptimizedCache { current: index }
    }

    /// Looks a request path up in the current generation.
    pub fn get(&self, path: &str) -> (found: Option<&CacheEntry>)
        ensures
            match found {
                Some(entry) => self@.lookup(text(path)) == Some(entry@),
                None => self@.lookup(text(path)) is None,
            },
    {
        self.current.get(path)
    }

    /// Stores `entry` for the file at `path` while the cache is built.
    pub fn insert(&mut self, path: &str, entry: CacheEntry)
        ensures
            final(self)@ == old(self)@.insert(text(path), entry@),
    {
        self.current.insert(path, entry);
    }

    /// The number of keys under which a file is stored.
    pub fn entry_count(&self) -> (count: usize)
        ensures
            count == self@.exact.len(),
    {
        self.current.entry_count()
    }
}

} // verus!
