//! Building the cache from a listing of the content tree.

use crate::entry::{entry_for, generate_file_metadata, CacheEntryView, HTTP_DATE_LIMIT};
use crate::index::{OptimizedCache, PathTrieView};
use crate::mime::{mime_of_extension, path_extension};
use vstd::prelude::*;
use vstd::string::StringExecFns;
use vstd::utf8::encode_utf8;

verus! {

/// One entry of the content tree, as the file system gave it: its path
/// below the content root with `/` between the names, whether it is a
/// regular file, its size, its modification time in whole seconds since
/// the Unix epoch, and what it holds.
#[derive(Clone, Debug, PartialEq, Eq)]
pub struct FileRecord {
    pub relative_path: String,
    pub is_file: bool,
    pub size: u64,
    pub mtime_secs: u64,
    pub content: Vec<u8>,
}

/// The path of an entry named `file_name` in the directory at
/// `relative_path`; the content root itself is the empty path.
pub open spec fn joined_path(relative_path: Seq<char>, file_name: Seq<char>) -> Seq<char> {
    if relative_path.len() == 0 {
        file_name
    } else {
        relative_path + "/"@ + file_name
    }
}

/// Joins a directory's path below the content root and a name in it.
pub fn join_relative(relative_path: &str, file_name: &str) -> (path: String)
    ensures
        path@ == joined_path(relative_path@, file_name@),
{
    if relative_path.is_empty() {
        String::from_str(file_name)
    } else {
        let mut path = String::from_str(relative_path);
        path.append("/");
        path.append(file_name);
        path
    }
}

/// The request path under which the file at `relative_path` is served.
pub open spec fn url_path(relative_path: Seq<char>) -> Seq<char> {
    "/"@ + relative_path
}

/// The request path of a file, from its path below the content root.
pub fn url_path_of(relative_path: &str) -> (path: String)
    ensures
        path@ == url_path(relative_path@),
{
    let mut path = String::from_str("/");
    path.append(relative_path);
    path
}

/// The cache entry that a regular file gets.
pub open spec fn file_entry(file: FileRecord) -> CacheEntryView {
    entry_for(
        mime_of_extension(path_extension(file.relative_path@)),
        file.size,
        file.mtime_secs,
        file.content@,
    )
}

/// The index that a listing gives: its regular files, stored in the order
/// of the listing, each under its request path.
pub open spec fn index_of_files(files: Seq<FileRecord>) -> PathTrieView
    decreases files.len(),
{
    if files.len() == 0 {
        PathTrieView::empty()
    } else {
        let before = index_of_files(files.drop_last());
        let file = files.last();
        if file.is_file {
            before.insert(encode_utf8(url_path(file.relative_path@)), file_entry(file))
        } else {
            before
        }
    }
}

/// Whether the modification time of every regular file of a listing can
/// be written as an HTTP date.
pub open spec fn dates_in_range(files: Seq<FileRecord>) -> bool {
    forall|i: int|
        0 <= i < files.len() && (#[trigger] files[i]).is_file ==> files[i].mtime_secs
            < HTTP_DATE_LIMIT
}

/// Builds the cache from a listing of the content tree. What is not a
/// regular file is passed over. The modification times of the regular
/// files have to lie before the year 10000.
pub fn build_file_cache(files: &Vec<FileRecord>) -> (cache: OptimizedCache)
    requires
        dates_in_range(files@),
    ensures
        cache@ == index_of_files(files@),
{
    let mut cache = OptimizedCache::new();
    let mut i: usize = 0;
    while i < files.len()
        invariant
            i <= files.len(),
            dates_in_range(files@),
            cache@ == index_of_files(files@.take(i as int)),
        decreases files.len() - i,
    {
        let file = &files[i];
        proof {
            assert(files@.take(i + 1).drop_last() =~= files@.take(i as int));
        }
        if file.is_file {
            let entry = generate_file_metadata(
                file.relative_path.as_str(),
                file.size,
                file.mtime_secs,
                file.content.as_slice(),
            );
            let url = url_path_of(file.relative_path.as_str());
            cache.insert(url.as_str(), entry);
        }
        i += 1;
    }
    proof {
        assert(files@.take(files.len() as int) =~= files@);
    }
    cache
}

} // verus!
