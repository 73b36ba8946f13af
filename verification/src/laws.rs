//! What holds of the server as a whole, proved from the definitions that
//! the contracts of the library are stated over.

use crate::builder::{file_entry, index_of_files, url_path, FileRecord};
use crate::bytes::{
    decimal, lemma_index_of_is, lemma_leading_is, lemma_tokens_of_empty, lemma_trailing_is,
    split_on, text, trim, ByteClass, COMMA, QUESTION, SLASH, SPACE, STAR,
};
use crate::conditional::{
    conditional_verdict, date_of_header, none_match_verdict, tag_listed, verdict_of, Verdict,
};
use crate::connection::{
    accepted_line_outcome, transition, ActionView, ConnectionStateView, EventView,
    MAX_REQUEST_SIZE,
};
use crate::dispatch::response_for;
use crate::entry::{
    entry_for, file_headers, http_date_text, not_modified_for, weak_etag, CacheEntryView,
};
use crate::header::request_line_parts;
use crate::index::{index_directory, is_index_file, path_key, PathTrieView};
use crate::mime::{mime_of_extension, path_extension, MimeType};
use crate::templates::{health_body, ready_body, status_response, HeaderTemplates};
use vstd::prelude::*;
use vstd::utf8::encode_utf8;

verus! {

/// The request path of a listed file, as bytes.
pub open spec fn request_path(file: FileRecord) -> Seq<u8> {
    encode_utf8(url_path(file.relative_path@))
}

/// Whether a path is answered from the files: the two health endpoints
/// are not.
pub open spec fn served_from_files(path: Seq<u8>) -> bool {
    path != text("/health") && path != text("/ready")
}

/// A listed file stays in the index under its own key unless a later file
/// of the listing has the same key.
pub proof fn lemma_listed_file_is_indexed(files: Seq<FileRecord>, i: int)
    requires
        0 <= i < files.len(),
        files[i].is_file,
        forall|j: int|
            i < j < files.len() && (#[trigger] files[j]).is_file ==> path_key(
                request_path(files[j]),
            ) != path_key(request_path(files[i])),
    ensures
        index_of_files(files).exact.contains_key(path_key(request_path(files[i]))),
        index_of_files(files).exact[path_key(request_path(files[i]))] == file_entry(files[i]),
    decreases files.len(),
{
    if i < files.len() - 1 {
        let before = files.drop_last();
        assert(before[i] == files[i]);
        assert forall|j: int| i < j < before.len() && (#[trigger] before[j]).is_file implies path_key(
            request_path(before[j]),
        ) != path_key(request_path(before[i])) by {
            assert(before[j] == files[j]);
        }
        lemma_listed_file_is_indexed(before, i);
    }
}

/// A GET for the path of a listed file is answered with the file: status
/// line and headers, whose `Content-Length` is the length of the content,
/// and then the content, byte for byte. This holds of every regular file
/// whose key no later file of the listing shares, and whose path is not
/// that of a health endpoint.
pub proof fn law_get_returns_the_file(templates: &HeaderTemplates, files: Seq<FileRecord>, i: int)
    requires
        0 <= i < files.len(),
        files[i].is_file,
        served_from_files(request_path(files[i])),
        forall|j: int|
            i < j < files.len() && (#[trigger] files[j]).is_file ==> path_key(
                request_path(files[j]),
            ) != path_key(request_path(files[i])),
    ensures
        response_for(templates, index_of_files(files), request_path(files[i]), false, None, None)
            == file_entry(files[i]).headers_only + files[i].content@,
        file_entry(files[i]).headers_only == file_headers(
            encode_utf8(
                mime_of_extension(path_extension(files[i].relative_path@)).content_type(),
            ),
            files[i].content@.len(),
            http_date_text(files[i].mtime_secs),
            weak_etag(files[i].size, files[i].mtime_secs),
        ),
{
    lemma_listed_file_is_indexed(files, i);
}

/// Asking twice gives the same answer: the response is a function of the
/// templates, the index and the request, and answering changes none of
/// them. So two GETs for one path carry the same `ETag` and the same
/// `Last-Modified`.
pub proof fn law_responses_repeat(
    templates: &HeaderTemplates,
    index: PathTrieView,
    path: Seq<u8>,
    is_head: bool,
    if_modified_since: Option<Seq<u8>>,
    if_none_match: Option<Seq<u8>>,
    first: Seq<u8>,
    second: Seq<u8>,
)
    requires
        first == response_for(templates, index, path, is_head, if_modified_since, if_none_match),
        second == response_for(templates, index, path, is_head, if_modified_since, if_none_match),
    ensures
        first == second,
{
}

/// `If-None-Match: *` is answered with the entry's 304 response wherever
/// the path resolves to an entry, whatever else the request holds.
pub proof fn law_star_is_not_modified(
    templates: &HeaderTemplates,
    index: PathTrieView,
    path: Seq<u8>,
    is_head: bool,
    if_modified_since: Option<Seq<u8>>,
    entry: CacheEntryView,
)
    requires
        served_from_files(path),
        index.lookup(path) == Some(entry),
    ensures
        response_for(templates, index, path, is_head, if_modified_since, Some(seq![STAR]))
            == entry.not_modified_response,
{
}

/// `If-Modified-Since` with the entry's own modification time is
/// answered with 304, and with the second before it by sending the
/// entity. The second clause of each pair says the same of a header value
/// that reads as that time.
pub proof fn law_modified_since_boundary(last_modified: u64, etag: Seq<u8>, value: Seq<u8>)
    ensures
        verdict_of(None, Some(Some(last_modified)), last_modified, etag) == Verdict::NotModified,
        date_of_header(value) == Some(last_modified) ==> conditional_verdict(
            Some(value),
            None,
            last_modified,
            etag,
        ) == Verdict::NotModified,
        last_modified > 0 ==> verdict_of(
            None,
            Some(Some((last_modified - 1) as u64)),
            last_modified,
            etag,
        ) == Verdict::Send,
        last_modified > 0 && date_of_header(value) == Some((last_modified - 1) as u64)
            ==> conditional_verdict(Some(value), None, last_modified, etag) == Verdict::Send,
{
}

/// A request line of up to `MAX_REQUEST_SIZE` bytes, line end included,
/// is taken on its merits; one of a single byte more is refused with 413,
/// whatever it holds.
pub proof fn law_request_line_limit(
    line: Seq<u8>,
    longer: Seq<u8>,
    shutdown: bool,
    templates: &HeaderTemplates,
    index: PathTrieView,
)
    requires
        line.len() == MAX_REQUEST_SIZE,
        longer.len() == MAX_REQUEST_SIZE + 1,
    ensures
        transition(ConnectionStateView::Idle, EventView::Line(line), shutdown, templates, index)
            == accepted_line_outcome(line, shutdown, templates),
        transition(ConnectionStateView::Idle, EventView::Line(longer), shutdown, templates, index)
            == (ConnectionStateView::Closing, ActionView::Send(templates.request_too_large@)),
{
}

/// A path that is no health endpoint and that the index does not know is
/// answered with 404, as plain text.
pub proof fn law_unknown_path_is_not_found(
    templates: &HeaderTemplates,
    index: PathTrieView,
    path: Seq<u8>,
    is_head: bool,
    if_modified_since: Option<Seq<u8>>,
    if_none_match: Option<Seq<u8>>,
)
    requires
        templates.wf(),
        served_from_files(path),
        index.lookup(path) is None,
    ensures
        response_for(templates, index, path, is_head, if_modified_since, if_none_match)
            == status_response("404 Not Found", "text/plain", "File not found"),
{
}

/// A request line with a method other than GET and HEAD is answered with
/// 405, and the connection closes after it.
pub proof fn law_other_method_is_refused(
    line: Seq<u8>,
    shutdown: bool,
    templates: &HeaderTemplates,
    index: PathTrieView,
)
    requires
        templates.wf(),
        line.len() <= MAX_REQUEST_SIZE,
        request_line_parts(trim(line)) matches Some(parts) && parts.0 != text("GET") && parts.0
            != text("HEAD"),
    ensures
        transition(ConnectionStateView::Idle, EventView::Line(line), shutdown, templates, index)
            == (
            ConnectionStateView::Closing,
            ActionView::Send(
                status_response("405 Method Not Allowed", "text/plain", "Method not allowed"),
            ),
        ),
{
    if trim(line).len() == 0 {
        assert(trim(line) =~= Seq::<u8>::empty());
        lemma_tokens_of_empty(SPACE);
    }
}

/// The connection closes after every refusal. A step that leads to
/// `Closing` sends one of the four error responses, and whatever is
/// reported next, the connection is closed without another word. Once
/// closed, it stays closed.
pub proof fn law_refusals_close_the_connection(
    state: ConnectionStateView,
    event: EventView,
    after: EventView,
    shutdown: bool,
    templates: &HeaderTemplates,
    index: PathTrieView,
)
    ensures
        ({
            let (next, action) = transition(state, event, shutdown, templates, index);
            &&& next == ConnectionStateView::Closing ==> {
                ||| action == ActionView::Send(templates.bad_request@)
                ||| action == ActionView::Send(templates.method_not_allowed@)
                ||| action == ActionView::Send(templates.request_too_large@)
                ||| action == ActionView::Send(templates.request_timeout@)
            }
            &&& next == ConnectionStateView::Closed ==> action == ActionView::Close
            &&& (next == ConnectionStateView::Closing || next == ConnectionStateView::Closed)
                ==> transition(next, after, shutdown, templates, index) == (
                ConnectionStateView::Closed,
                ActionView::Close,
            )
        }),
{
}

/// HEAD is answered with what GET is answered with, less the body. For a
/// path that resolves to a file's entry, the answer to HEAD is the status
/// line and the headers alone, and the answer to GET is the same bytes
/// followed by the content; where the client's copy is current both are
/// the same 304 response.
pub proof fn law_head_is_get_without_body(
    templates: &HeaderTemplates,
    index: PathTrieView,
    path: Seq<u8>,
    if_modified_since: Option<Seq<u8>>,
    if_none_match: Option<Seq<u8>>,
    mime: MimeType,
    size: u64,
    mtime_secs: u64,
    content: Seq<u8>,
)
    requires
        served_from_files(path),
        index.lookup(path) == Some(entry_for(mime, size, mtime_secs, content)),
    ensures
        ({
            let get = response_for(templates, index, path, false, if_modified_since, if_none_match);
            let head = response_for(templates, index, path, true, if_modified_since, if_none_match);
            let etag = weak_etag(size, mtime_secs);
            let headers = file_headers(
                encode_utf8(mime.content_type()),
                content.len(),
                http_date_text(mtime_secs),
                etag,
            );
            match conditional_verdict(if_modified_since, if_none_match, mtime_secs, etag) {
                Verdict::Send => head == headers && get == head + content,
                Verdict::NotModified => head == not_modified_for(etag) && get == head,
            }
        }),
{
}

/// The health endpoints answer HEAD with what they answer GET with, less
/// the body, whatever the request's headers and whatever the index holds.
pub proof fn law_health_head_is_get_without_body(
    templates: &HeaderTemplates,
    index: PathTrieView,
    if_modified_since: Option<Seq<u8>>,
    if_none_match: Option<Seq<u8>>,
)
    requires
        templates.wf(),
    ensures
        response_for(templates, index, text("/health"), false, if_modified_since, if_none_match)
            == response_for(
            templates,
            index,
            text("/health"),
            true,
            if_modified_since,
            if_none_match,
        ) + text(health_body()),
        response_for(templates, index, text("/ready"), false, if_modified_since, if_none_match)
            == response_for(templates, index, text("/ready"), true, if_modified_since, if_none_match)
            + text(ready_body()),
{
    reveal_strlit("/health");
    reveal_strlit("/ready");
    vstd::utf8::is_ascii_chars_encode_utf8("/health"@);
    vstd::utf8::is_ascii_chars_encode_utf8("/ready"@);
    assert(text("/health").len() != text("/ready").len());
}

/// Every digit of a decimal number is a digit.
pub proof fn lemma_decimal_is_digits(n: nat)
    ensures
        decimal(n).len() >= 1,
        forall|i: int| 0 <= i < decimal(n).len() ==> 48 <= #[trigger] decimal(n)[i] <= 57,
    decreases n,
{
    if n >= 10 {
        lemma_decimal_is_digits(n / 10);
    }
}

/// A tag without a comma, and without whitespace at its ends, is listed
/// by the list that holds it alone.
pub proof fn lemma_tag_lists_itself(etag: Seq<u8>)
    requires
        forall|i: int| 0 <= i < etag.len() ==> #[trigger] etag[i] != COMMA,
        etag.len() > 0 ==> !ByteClass::Whitespace.holds(etag[0]) && !ByteClass::Whitespace.holds(
            etag.last(),
        ),
    ensures
        tag_listed(etag, etag),
{
    lemma_index_of_is(etag, COMMA, etag.len() as int);
    let items = split_on(etag, COMMA);
    assert(items == seq![etag]);
    lemma_trailing_is(etag, ByteClass::Whitespace, 0);
    assert(etag.take(etag.len() as int) =~= etag);
    lemma_leading_is(etag, ByteClass::Whitespace, 0);
    assert(etag.skip(0) =~= etag);
    assert(trim(etag) == etag);
    assert(items[0] == etag);
}

proof fn lemma_etag_literals()
    ensures
        text("W/\"") == seq![87u8, 47u8, 34u8],
        text("-") == seq![45u8],
        text("\"") == seq![34u8],
{
    reveal_strlit("W/\"");
    reveal_strlit("-");
    reveal_strlit("\"");
    vstd::utf8::is_ascii_chars_encode_utf8("W/\""@);
    vstd::utf8::is_ascii_chars_encode_utf8("-"@);
    vstd::utf8::is_ascii_chars_encode_utf8("\""@);
    assert(text("W/\"") =~= seq![87u8, 47u8, 34u8]);
    assert(text("-") =~= seq![45u8]);
    assert(text("\"") =~= seq![34u8]);
}

/// The entity tag of a file is made of `W`, `/`, quotes, a hyphen and
/// digits: it holds no comma and no whitespace.
pub proof fn lemma_weak_etag_is_plain(size: u64, mtime_secs: u64)
    ensures
        weak_etag(size, mtime_secs).len() >= 7,
        forall|i: int|
            0 <= i < weak_etag(size, mtime_secs).len() ==> {
                let b = #[trigger] weak_etag(size, mtime_secs)[i];
                b != COMMA && !ByteClass::Whitespace.holds(b)
            },
{
    lemma_etag_literals();
    lemma_decimal_is_digits(size as nat);
    lemma_decimal_is_digits(mtime_secs as nat);
    let a = decimal(size as nat);
    let b = decimal(mtime_secs as nat);
    let tag = weak_etag(size, mtime_secs);
    assert(tag =~= seq![87u8, 47u8, 34u8] + a + seq![45u8] + b + seq![34u8]);
    assert forall|i: int| 0 <= i < tag.len() implies {
        let byte = #[trigger] tag[i];
        byte != COMMA && !ByteClass::Whitespace.holds(byte)
    } by {
        if i < 3 {
        } else if i < 3 + a.len() {
            assert(tag[i] == a[i - 3]);
        } else if i == 3 + a.len() {
        } else if i < 4 + a.len() + b.len() {
            assert(tag[i] == b[i - 4 - a.len()]);
        }
    }
}

/// A request that carries, as `If-None-Match`, the entity tag that an
/// earlier response for the same file carried is answered with the file's
/// 304 response, which ends with its headers.
pub proof fn law_own_etag_is_not_modified(
    templates: &HeaderTemplates,
    index: PathTrieView,
    path: Seq<u8>,
    is_head: bool,
    if_modified_since: Option<Seq<u8>>,
    mime: MimeType,
    size: u64,
    mtime_secs: u64,
    content: Seq<u8>,
)
    requires
        served_from_files(path),
        index.lookup(path) == Some(entry_for(mime, size, mtime_secs, content)),
    ensures
        none_match_verdict(weak_etag(size, mtime_secs), weak_etag(size, mtime_secs))
            == Verdict::NotModified,
        response_for(
            templates,
            index,
            path,
            is_head,
            if_modified_since,
            Some(weak_etag(size, mtime_secs)),
        ) == not_modified_for(weak_etag(size, mtime_secs)),
{
    let tag = weak_etag(size, mtime_secs);
    lemma_weak_etag_is_plain(size, mtime_secs);
    assert(!ByteClass::Whitespace.holds(tag[0]));
    assert(!ByteClass::Whitespace.holds(tag.last()));
    lemma_tag_lists_itself(tag);
}

/// Storing the index file of the root makes it the answer for its own
/// path and, unless a file is stored under the key of `/` itself, for
/// `/`.
pub proof fn law_root_resolves_to_index(index: PathTrieView, entry: CacheEntryView)
    ensures
        ({
            let after = index.insert(text("/index.html"), entry);
            &&& after.lookup(text("/index.html")) == Some(entry)
            &&& !after.exact.contains_key(path_key(text("/"))) ==> after.lookup(text("/"))
                == Some(entry)
        }),
{
    let path = text("/index.html");
    assert(path.skip(0) =~= path);
    assert(is_index_file(path));
    assert(index_directory(path) == text("/"));
}

/// Storing the index file of a directory makes it the answer for the
/// directory's path with a slash after it, unless a file is stored under
/// the directory's own key. The directory is given by its path without
/// the slash, which holds no query.
pub proof fn law_directory_resolves_to_index(
    index: PathTrieView,
    directory: Seq<u8>,
    entry: CacheEntryView,
)
    requires
        directory.len() > 0,
        directory.last() != SLASH,
        forall|i: int| 0 <= i < directory.len() ==> #[trigger] directory[i] != QUESTION,
    ensures
        ({
            let after = index.insert(directory + text("/index.html"), entry);
            let request = directory.push(SLASH);
            &&& path_key(request) == path_key(directory)
            &&& !after.exact.contains_key(path_key(directory)) ==> after.lookup(request) == Some(
                entry,
            )
        }),
{
    let suffix = text("/index.html");
    let path = directory + suffix;
    let request = directory.push(SLASH);
    assert(path.skip(path.len() - suffix.len()) =~= suffix);
    assert(path.take(path.len() - suffix.len()) =~= directory);
    lemma_index_of_is(directory, QUESTION, directory.len() as int);
    lemma_index_of_is(request, QUESTION, request.len() as int);
    assert(directory.take(directory.len() as int) =~= directory);
    assert(request.take(request.len() as int) =~= request);
    assert(request.drop_last() =~= directory);
}

/// The index file of a directory stays in the index under the
/// directory's key unless a later index file of the listing has a
/// directory with the same key.
pub proof fn lemma_listed_index_is_aliased(files: Seq<FileRecord>, i: int)
    requires
        0 <= i < files.len(),
        files[i].is_file,
        is_index_file(request_path(files[i])),
        forall|j: int|
            i < j < files.len() && (#[trigger] files[j]).is_file && is_index_file(
                request_path(files[j]),
            ) ==> path_key(index_directory(request_path(files[j]))) != path_key(
                index_directory(request_path(files[i])),
            ),
    ensures
        index_of_files(files).index_alias.contains_key(
            path_key(index_directory(request_path(files[i]))),
        ),
        index_of_files(files).index_alias[path_key(index_directory(request_path(files[i])))]
            == file_entry(files[i]),
    decreases files.len(),
{
    if i < files.len() - 1 {
        let before = files.drop_last();
        assert(before[i] == files[i]);
        assert forall|j: int|
            i < j < before.len() && (#[trigger] before[j]).is_file && is_index_file(
                request_path(before[j]),
            ) implies path_key(index_directory(request_path(before[j]))) != path_key(
            index_directory(request_path(before[i])),
        ) by {
            assert(before[j] == files[j]);
        }
        lemma_listed_index_is_aliased(before, i);
    }
}

/// A key that no regular file of the listing has holds no file.
pub proof fn lemma_unlisted_key_is_free(files: Seq<FileRecord>, key: u32)
    requires
        forall|j: int|
            0 <= j < files.len() && (#[trigger] files[j]).is_file ==> path_key(
                request_path(files[j]),
            ) != key,
    ensures
        !index_of_files(files).exact.contains_key(key),
    decreases files.len(),
{
    if files.len() > 0 {
        let before = files.drop_last();
        assert forall|j: int| 0 <= j < before.len() && (#[trigger] before[j]).is_file implies path_key(
            request_path(before[j]),
        ) != key by {
            assert(before[j] == files[j]);
        }
        lemma_unlisted_key_is_free(before, key);
        assert(files.last() == files[files.len() - 1]);
    }
}

proof fn lemma_root_index_path()
    ensures
        encode_utf8(url_path("index.html"@)) == text("/index.html"),
{
    reveal_strlit("/");
    reveal_strlit("index.html");
    reveal_strlit("/index.html");
    assert("/"@ + "index.html"@ =~= "/index.html"@);
}

/// Where the content root holds an `index.html`, a request for `/` is
/// answered from the same entry as one for `/index.html`. This holds
/// unless a later file of the listing takes the key of that file or, being
/// an index file itself, the key of the root, or some file is stored
/// under the key of `/` itself.
pub proof fn law_root_serves_its_index(files: Seq<FileRecord>, i: int)
    requires
        0 <= i < files.len(),
        files[i].is_file,
        files[i].relative_path@ == "index.html"@,
        forall|j: int|
            i < j < files.len() && (#[trigger] files[j]).is_file ==> path_key(
                request_path(files[j]),
            ) != path_key(text("/index.html")),
        forall|j: int|
            i < j < files.len() && (#[trigger] files[j]).is_file && is_index_file(
                request_path(files[j]),
            ) ==> path_key(index_directory(request_path(files[j]))) != path_key(text("/")),
        forall|j: int|
            0 <= j < files.len() && (#[trigger] files[j]).is_file ==> path_key(
                request_path(files[j]),
            ) != path_key(text("/")),
    ensures
        index_of_files(files).lookup(text("/")) == Some(file_entry(files[i])),
        index_of_files(files).lookup(text("/index.html")) == Some(file_entry(files[i])),
{
    lemma_root_index_path();
    let path = text("/index.html");
    assert(request_path(files[i]) == path);
    assert(path.skip(0) =~= path);
    assert(is_index_file(path));
    assert(index_directory(path) == text("/"));
    lemma_listed_file_is_indexed(files, i);
    lemma_listed_index_is_aliased(files, i);
    lemma_unlisted_key_is_free(files, path_key(text("/")));
}

/// The index of a listing is finite, and it holds no more files than the
/// listing has entries: the count of the cache is a count.
pub proof fn law_index_is_finite(files: Seq<FileRecord>)
    ensures
        index_of_files(files).exact.dom().finite(),
        index_of_files(files).index_alias.dom().finite(),
        index_of_files(files).exact.len() <= files.len(),
    decreases files.len(),
{
    if files.len() > 0 {
        law_index_is_finite(files.drop_last());
    }
}

/// Whether `entry` is what some regular file of the listing gets.
pub open spec fn is_listed(files: Seq<FileRecord>, entry: CacheEntryView) -> bool {
    exists|i: int| 0 <= i < files.len() && (#[trigger] files[i]).is_file && entry == file_entry(files[i])
}

/// Whatever a request finds in the cache of a listing is the entry of one
/// of its regular files: made by `entry_for` from that file's type, size,
/// modification time and content.
pub proof fn law_cache_holds_listed_files(files: Seq<FileRecord>, path: Seq<u8>)
    ensures
        index_of_files(files).lookup(path) matches Some(entry) ==> is_listed(files, entry),
{
    lemma_entries_are_listed(files);
}

proof fn lemma_listed_in_longer(files: Seq<FileRecord>, entry: CacheEntryView)
    requires
        files.len() > 0,
        is_listed(files.drop_last(), entry),
    ensures
        is_listed(files, entry),
{
    let before = files.drop_last();
    let i = choose|i: int|
        0 <= i < before.len() && (#[trigger] before[i]).is_file && entry == file_entry(before[i]);
    assert(files[i] == before[i]);
}

/// Both maps of the index of a listing hold entries of its regular files
/// only.
pub proof fn lemma_entries_are_listed(files: Seq<FileRecord>)
    ensures
        forall|key: u32| #[trigger]
            index_of_files(files).exact.contains_key(key) ==> is_listed(
                files,
                index_of_files(files).exact[key],
            ),
        forall|key: u32| #[trigger]
            index_of_files(files).index_alias.contains_key(key) ==> is_listed(
                files,
                index_of_files(files).index_alias[key],
            ),
    decreases files.len(),
{
    if files.len() > 0 {
        let before = files.drop_last();
        let file = files.last();
        let prior = index_of_files(before);
        let after = index_of_files(files);
        lemma_entries_are_listed(before);
        if file.is_file {
            assert(files[files.len() - 1] == file);
            assert(is_listed(files, file_entry(file)));
        }
        assert forall|key: u32| #[trigger] after.exact.contains_key(key) implies is_listed(
            files,
            after.exact[key],
        ) by {
            if !(file.is_file && key == path_key(request_path(file))) {
                assert(prior.exact.contains_key(key));
                lemma_listed_in_longer(files, prior.exact[key]);
            }
        }
        assert forall|key: u32| #[trigger] after.index_alias.contains_key(key) implies is_listed(
            files,
            after.index_alias[key],
        ) by {
            if !(file.is_file && is_index_file(request_path(file)) && key == path_key(
                index_directory(request_path(file)),
            )) {
                assert(prior.index_alias.contains_key(key));
                lemma_listed_in_longer(files, prior.index_alias[key]);
            }
        }
    }
}

} // verus!
