//! Conditional requests: whether `If-None-Match` and `If-Modified-Since`
//! let a request be answered with 304.

use crate::bytes::{
    bytes_eq, find_byte, index_of, lemma_index_of_bounds, optional, split_on, strip_both,
    strip_leading, strip_trailing, trim, ByteClass, COMMA, SLASH, STAR, UPPER_W,
};
use crate::header::utf8_text;
use vstd::prelude::*;
use vstd::utf8::{decode_utf8, encode_utf8_decode_utf8, valid_utf8};

verus! {

/// What the evaluator decides.
#[derive(Clone, Copy, Debug, PartialEq, Eq)]
pub enum Verdict {
    /// Answer 304: the client's copy is current.
    NotModified,
    /// Answer with the entity.
    Send,
}

/// An entity tag without the marker `W/` in front of it.
pub open spec fn strip_weak(tag: Seq<u8>) -> Seq<u8> {
    if tag.len() >= 2 && tag[0] == UPPER_W && tag[1] == SLASH {
        tag.skip(2)
    } else {
        tag
    }
}

/// What two entity tags are compared by: the tag without a weak marker and
/// without the quotes around it.
pub open spec fn opaque_tag(tag: Seq<u8>) -> Seq<u8> {
    strip_leading(strip_trailing(strip_weak(tag), ByteClass::Quote), ByteClass::Quote)
}

/// Whether one item of the comma-separated `list`, trimmed, is the same
/// tag as `etag`.
pub open spec fn tag_listed(list: Seq<u8>, etag: Seq<u8>) -> bool {
    let items = split_on(list, COMMA);
    exists|i: int|
        0 <= i < items.len() && opaque_tag(trim(#[trigger] items[i])) == opaque_tag(etag)
}

/// The verdict of an `If-None-Match` header: `*` matches anything, a list
/// matches if it names the entry's tag.
pub open spec fn none_match_verdict(list: Seq<u8>, etag: Seq<u8>) -> Verdict {
    if list == seq![STAR] || tag_listed(list, etag) {
        Verdict::NotModified
    } else {
        Verdict::Send
    }
}

/// The verdict of an `If-Modified-Since` header whose date was parsed, or
/// could not be (`None`): not modified if the entry is no newer than the
/// client's date.
pub open spec fn modified_since_verdict(date: Option<u64>, last_modified: u64) -> Verdict {
    match date {
        Some(client_time) => if last_modified <= client_time {
            Verdict::NotModified
        } else {
            Verdict::Send
        },
        None => Verdict::Send,
    }
}

/// The verdict for a request. `If-None-Match`, where present, decides
/// alone. `date` is `None` without an `If-Modified-Since` header and
/// holds what its value parsed to with one.
pub open spec fn verdict_of(
    if_none_match: Option<Seq<u8>>,
    date: Option<Option<u64>>,
    last_modified: u64,
    etag: Seq<u8>,
) -> Verdict {
    match if_none_match {
        Some(list) => none_match_verdict(list, etag),
        None => match date {
            Some(parsed) => modified_since_verdict(parsed, last_modified),
            None => Verdict::Send,
        },
    }
}

/// The time, in seconds since the Unix epoch, that
/// `httpdate::parse_http_date` reads from a text; `None` where it reads
/// no date.
pub uninterp spec fn http_date_secs(text: Seq<char>) -> Option<u64>;

/// The time that the value of a date header stands for.
pub open spec fn date_of_header(value: Seq<u8>) -> Option<u64> {
    if valid_utf8(value) {
        http_date_secs(decode_utf8(value))
    } else {
        None
    }
}

/// The verdict for a request, from its two headers as they were received.
pub open spec fn conditional_verdict(
    if_modified_since: Option<Seq<u8>>,
    if_none_match: Option<Seq<u8>>,
    last_modified: u64,
    etag: Seq<u8>,
) -> Verdict {
    verdict_of(
        if_none_match,
        match if_modified_since {
            Some(value) => Some(date_of_header(value)),
            None => None,
        },
        last_modified,
        etag,
    )
}

/// `httpdate::parse_http_date`: the time that `text` gives as a date in
/// one of the three formats of HTTP, in whole seconds since the Unix
/// epoch.
#[verifier::external_body]
fn parse_http_date(text: &str) -> (secs: Option<u64>)
    ensures
        secs == http_date_secs(text@),
{
    match httpdate::parse_http_date(text) {
        Ok(time) => match time.duration_since(std::time::UNIX_EPOCH) {
            Ok(since) => Some(since.as_secs()),
            Err(_) => None,
        },
        Err(_) => None,
    }
}

/// Reads the value of a date header.
pub fn parse_date_header(value: &[u8]) -> (date: Option<u64>)
    ensures
        date == date_of_header(value@),
{
    match utf8_text(value) {
        Some(text) => {
            proof {
                encode_utf8_decode_utf8(text@);
            }
            parse_http_date(text)
        },
        None => None,
    }
}

/// The verdict of `If-Modified-Since` once its date is read.
pub fn modified_since(date: Option<u64>, last_modified: u64) -> (verdict: Verdict)
    ensures
        verdict == modified_since_verdict(date, last_modified),
{
    match date {
        Some(client_time) => if last_modified <= client_time {
            Verdict::NotModified
        } else {
            Verdict::Send
        },
        None => Verdict::Send,
    }
}

/// Finds the opaque tag of `s[from..to]`: where it starts and where it
/// ends.
fn tag_range(s: &[u8], from: usize, to: usize) -> (range: (usize, usize))
    requires
        from <= to <= s.len(),
    ensures
        from <= range.0 <= range.1 <= to,
        s@.subrange(range.0 as int, range.1 as int) == opaque_tag(
            s@.subrange(from as int, to as int),
        ),
{
    let ghost tag = s@.subrange(from as int, to as int);
    let mut start: usize = from;
    if to - from >= 2 && s[from] == UPPER_W && s[from + 1] == SLASH {
        start = from + 2;
    }
    proof {
        assert(s@.subrange(start as int, to as int) =~= strip_weak(tag));
    }
    strip_both(s, start, to, ByteClass::Quote)
}

/// What `tag_listed` says of a list, by its first item and the rest.
pub proof fn lemma_tag_listed_unfold(list: Seq<u8>, etag: Seq<u8>)
    ensures
        ({
            let i = index_of(list, COMMA);
            tag_listed(list, etag) <==> (opaque_tag(trim(list.take(i))) == opaque_tag(etag) || (i
                < list.len() && tag_listed(list.skip(i + 1), etag)))
        }),
{
    let i = index_of(list, COMMA);
    lemma_index_of_bounds(list, COMMA);
    let items = split_on(list, COMMA);
    if i < list.len() {
        let rest = split_on(list.skip(i + 1), COMMA);
        assert(items == seq![list.take(i)] + rest);
        assert(items[0] == list.take(i));
        if tag_listed(list, etag) {
            let k = choose|k: int|
                0 <= k < items.len() && opaque_tag(trim(#[trigger] items[k])) == opaque_tag(etag);
            if k > 0 {
                assert(items[k] == rest[k - 1]);
            }
        }
        if tag_listed(list.skip(i + 1), etag) {
            let k = choose|k: int|
                0 <= k < rest.len() && opaque_tag(trim(#[trigger] rest[k])) == opaque_tag(etag);
            assert(items[k + 1] == rest[k]);
        }
    } else {
        assert(items == seq![list]);
        assert(list.take(i) =~= list);
        assert(items[0] == list);
    }
}

/// The verdict of an `If-None-Match` header for an entry with tag `etag`.
pub fn none_match(list: &[u8], etag: &[u8]) -> (verdict: Verdict)
    ensures
        verdict == none_match_verdict(list@, etag@),
{
    if list.len() == 1 && list[0] == STAR {
        assert(list@ =~= seq![STAR]);
        return Verdict::NotModified;
    }
    assert(etag@.subrange(0, etag.len() as int) =~= etag@);
    let (tag_start, tag_end) = tag_range(etag, 0, etag.len());
    let ghost entry_tag = etag@.subrange(tag_start as int, tag_end as int);
    let mut start: usize = 0;
    assert(list@.skip(0) =~= list@);
    loop
        invariant
            start <= list.len(),
            tag_start <= tag_end <= etag.len(),
            entry_tag == etag@.subrange(tag_start as int, tag_end as int),
            entry_tag == opaque_tag(etag@),
            list@ != seq![STAR],
            tag_listed(list@, etag@) <==> tag_listed(list@.skip(start as int), etag@),
        decreases list.len() - start,
    {
        let end = find_byte(list, start, list.len(), COMMA);
        let (item_start, item_end) = strip_both(list, start, end, ByteClass::Whitespace);
        let (a, b) = tag_range(list, item_start, item_end);
        proof {
            let rest = list@.skip(start as int);
            assert(rest.take(end - start) =~= list@.subrange(start as int, end as int));
            if end < list.len() {
                assert(rest.skip(end - start + 1) =~= list@.skip(end + 1));
            }
            lemma_tag_listed_unfold(rest, etag@);
        }
        if bytes_eq(&list[a..b], &etag[tag_start..tag_end]) {
            return Verdict::NotModified;
        }
        if end == list.len() {
            return Verdict::Send;
        }
        start = end + 1;
    }
}

/// The verdict for a request whose `If-Modified-Since` date, if it has
/// one, was read already.
pub fn evaluate_with_date(
    if_none_match: Option<&[u8]>,
    date: Option<Option<u64>>,
    last_modified: u64,
    etag: &[u8],
) -> (verdict: Verdict)
    ensures
        verdict == verdict_of(optional(if_none_match), date, last_modified, etag@),
{
    match if_none_match {
        Some(list) => none_match(list, etag),
        None => match date {
            Some(parsed) => modified_since(parsed, last_modified),
            None => Verdict::Send,
        },
    }
}

/// The verdict for a request with the given conditional headers, against
/// an entry last modified at `last_modified` whose tag is `etag`.
pub fn evaluate_conditional(
    if_modified_since: Option<&[u8]>,
    if_none_match: Option<&[u8]>,
    last_modified: u64,
    etag: &[u8],
) -> (verdict: Verdict)
    ensures
        verdict == conditional_verdict(
            optional(if_modified_since),
            optional(if_none_match),
            last_modified,
            etag@,
        ),
{
    match if_none_match {
        Some(list) => none_match(list, etag),
        None => match if_modified_since {
            Some(value) => modified_since(parse_date_header(value), last_modified),
            None => Verdict::Send,
        },
    }
}

} // verus!
