//! Cache entries: for one file, the complete responses that can be sent
//! for it, computed once from its size, modification time, type and
//! content.

use crate::bytes::{decimal, push_bytes, push_decimal, push_text, text};
use crate::mime::{get_mime_type_enum, mime_of_extension, path_extension, MimeType};
use vstd::prelude::*;
use vstd::utf8::encode_utf8;

verus! {

/// The first second that an HTTP date cannot show: the start of the year
/// 10000.
pub const HTTP_DATE_LIMIT: u64 = 253402300800;

/// What is kept of one file. The three responses agree with each other:
/// they carry the same entity tag, and the two that describe the content
/// the same headers.
#[derive(Clone, Debug, PartialEq, Eq)]
pub struct CacheEntry {
    /// Status line, headers and content, as sent for GET.
    pub complete_response: Vec<u8>,
    /// Status line and headers, as sent for HEAD.
    pub headers_only: Vec<u8>,
    /// The 304 response that carries this entry's entity tag.
    pub not_modified_response: Vec<u8>,
    /// The weak entity tag, as it stands in the `ETag` header.
    pub etag: Vec<u8>,
    /// Modification time in whole seconds since the Unix epoch.
    pub last_modified_timestamp: u64,
}

/// A cache entry as plain values.
pub struct CacheEntryView {
    pub complete_response: Seq<u8>,
    pub headers_only: Seq<u8>,
    pub not_modified_response: Seq<u8>,
    pub etag: Seq<u8>,
    pub last_modified_timestamp: u64,
}

impl View for CacheEntry {
    type V = CacheEntryView;

    open spec fn view(&self) -> CacheEntryView {
        CacheEntryView {
            complete_response: self.complete_response@,
            headers_only: self.headers_only@,
            not_modified_response: self.not_modified_response@,
            etag: self.etag@,
            last_modified_timestamp: self.last_modified_timestamp,
        }
    }
}

/// The weak entity tag of a file: `W/"<size>-<seconds>"`.
pub open spec fn weak_etag(size: u64, mtime_secs: u64) -> Seq<u8> {
    text("W/\"") + decimal(size as nat) + text("-") + decimal(mtime_secs as nat) + text("\"")
}

/// Status line and headers of a 200 response, up to and including the
/// empty line.
pub open spec fn file_headers(
    content_type: Seq<u8>,
    length: nat,
    last_modified: Seq<u8>,
    etag: Seq<u8>,
) -> Seq<u8> {
    text("HTTP/1.1 200 OK\r\nContent-Type: ") + content_type + text("\r\nContent-Length: ")
        + decimal(length) + text("\r\nLast-Modified: ") + last_modified + text("\r\nETag: ") + etag
        + text(
        "\r\nCache-Control: public, max-age=3600\r\nX-Content-Type-Options: nosniff\r\nConnection: keep-alive\r\n\r\n",
    )
}

/// The 304 response for an entity tag. It has no body and no content type.
pub open spec fn not_modified_for(etag: Seq<u8>) -> Seq<u8> {
    text("HTTP/1.1 304 Not Modified\r\nETag: ") + etag + text(
        "\r\nCache-Control: public, max-age=3600\r\nConnection: keep-alive\r\n\r\n",
    )
}

/// The date that `httpdate::fmt_http_date` writes for a time given in
/// seconds since the Unix epoch, such as `Sun, 06 Nov 1994 08:49:37 GMT`.
pub uninterp spec fn http_date_text(secs: u64) -> Seq<u8>;

/// The entry for a file of the given type, size as the file system
/// reports it, modification time and content.
pub open spec fn entry_for(
    mime: MimeType,
    size: u64,
    mtime_secs: u64,
    content: Seq<u8>,
) -> CacheEntryView {
    let etag = weak_etag(size, mtime_secs);
    let headers = file_headers(
        encode_utf8(mime.content_type()),
        content.len(),
        http_date_text(mtime_secs),
        etag,
    );
    CacheEntryView {
        complete_response: headers + content,
        headers_only: headers,
        not_modified_response: not_modified_for(etag),
        etag,
        last_modified_timestamp: mtime_secs,
    }
}

/// `httpdate::fmt_http_date` on the time `secs` seconds after the Unix
/// epoch: the date as it is written in a header. The crate panics on times
/// from the year 10000 on, which the precondition leaves out.
#[verifier::external_body]
fn fmt_http_date(secs: u64) -> (date: Vec<u8>)
    requires
        secs < HTTP_DATE_LIMIT,
    ensures
        date@ == http_date_text(secs),
{
    let time = std::time::UNIX_EPOCH + std::time::Duration::from_secs(secs);
    httpdate::fmt_http_date(time).into_bytes()
}

fn make_etag(size: u64, mtime_secs: u64) -> (etag: Vec<u8>)
    ensures
        etag@ == weak_etag(size, mtime_secs),
{
    let mut etag: Vec<u8> = Vec::new();
    push_text(&mut etag, "W/\"");
    push_decimal(&mut etag, size);
    push_text(&mut etag, "-");
    push_decimal(&mut etag, mtime_secs);
    push_text(&mut etag, "\"");
    etag
}

fn make_headers(content_type: &str, length: usize, last_modified: &[u8], etag: &[u8]) -> (headers:
    Vec<u8>)
    ensures
        headers@ == file_headers(text(content_type), length as nat, last_modified@, etag@),
{
    let mut headers: Vec<u8> = Vec::new();
    push_text(&mut headers, "HTTP/1.1 200 OK\r\nContent-Type: ");
    push_text(&mut headers, content_type);
    push_text(&mut headers, "\r\nContent-Length: ");
    push_decimal(&mut headers, length as u64);
    push_text(&mut headers, "\r\nLast-Modified: ");
    push_bytes(&mut headers, last_modified);
    push_text(&mut headers, "\r\nETag: ");
    push_bytes(&mut headers, etag);
    push_text(
        &mut headers,
        "\r\nCache-Control: public, max-age=3600\r\nX-Content-Type-Options: nosniff\r\nConnection: keep-alive\r\n\r\n",
    );
    headers
}

fn make_not_modified(etag: &[u8]) -> (response: Vec<u8>)
    ensures
        response@ == not_modified_for(etag@),
{
    let mut response: Vec<u8> = Vec::new();
    push_text(&mut response, "HTTP/1.1 304 Not Modified\r\nETag: ");
    push_bytes(&mut response, etag);
    push_text(
        &mut response,
        "\r\nCache-Control: public, max-age=3600\r\nConnection: keep-alive\r\n\r\n",
    );
    response
}

/// Builds the entry of one file from what was read of it: its path, from
/// which the content type follows, the size that the file system reports,
/// the modification time in whole seconds since the Unix epoch, and the
/// content. The modification time has to lie before the year 10000, the
/// first that an HTTP date cannot show.
pub fn generate_file_metadata(file_path: &str, size: u64, mtime_secs: u64, content: &[u8]) -> (entry:
    CacheEntry)
    requires
        mtime_secs < HTTP_DATE_LIMIT,
    ensures
        entry@ == entry_for(
            mime_of_extension(path_extension(file_path@)),
            size,
            mtime_secs,
            content@,
        ),
{
    let etag = make_etag(size, mtime_secs);
    let mime_type_str = get_mime_type_enum(file_path).as_str();
    let last_modified = fmt_http_date(mtime_secs);
    let headers_only = make_headers(
        mime_type_str,
        content.len(),
        last_modified.as_slice(),
        etag.as_slice(),
    );
    let mut complete_response = make_headers(
        mime_type_str,
        content.len(),
        last_modified.as_slice(),
        etag.as_slice(),
    );
    push_bytes(&mut complete_response, content);
    let not_modified_response = make_not_modified(etag.as_slice());
    CacheEntry {
        complete_response,
        headers_only,
        not_modified_response,
        etag,
        last_modified_timestamp: mtime_secs,
    }
}

impl CacheEntry {
    /// A second copy of the entry, for the index that holds it twice.
    pub fn duplicate(&self) -> (copy: CacheEntry)
        ensures
            copy@ == self@,
    {
        let mut complete_response: Vec<u8> = Vec::new();
        push_bytes(&mut complete_response, self.complete_response.as_slice());
        let mut headers_only: Vec<u8> = Vec::new();
        push_bytes(&mut headers_only, self.headers_only.as_slice());
        let mut not_modified_response: Vec<u8> = Vec::new();
        push_bytes(&mut not_modified_response, self.not_modified_response.as_slice());
        let mut etag: Vec<u8> = Vec::new();
        push_bytes(&mut etag, self.etag.as_slice());
        CacheEntry {
            complete_response,
            headers_only,
            not_modified_response,
            etag,
            last_modified_timestamp: self.last_modified_timestamp,
        }
    }
}

} // verus!
