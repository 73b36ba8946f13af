//! Choosing the response to a request: the one buffer that is written for
//! it.

use crate::bytes::{bytes_eq, optional, text};
use crate::conditional::{conditional_verdict, evaluate_conditional, Verdict};
use crate::entry::CacheEntryView;
use crate::index::{OptimizedCache, PathTrieView};
use crate::templates::HeaderTemplates;
use vstd::prelude::*;

verus! {

/// What is sent for a file: the 304 response where the client's copy is
/// current, else the headers, with the content for anything but HEAD.
pub open spec fn entry_response(entry: CacheEntryView, is_head: bool, verdict: Verdict) -> Seq<u8> {
    match verdict {
        Verdict::NotModified => entry.not_modified_response,
        Verdict::Send => if is_head {
            entry.headers_only
        } else {
            entry.complete_response
        },
    }
}

/// The response to a request for `path`. The two health endpoints come
/// before the files; a path that the index does not know is answered
/// with 404.
pub open spec fn response_for(
    templates: &HeaderTemplates,
    index: PathTrieView,
    path: Seq<u8>,
    is_head: bool,
    if_modified_since: Option<Seq<u8>>,
    if_none_match: Option<Seq<u8>>,
) -> Seq<u8> {
    if path == text("/health") {
        if is_head {
            templates.health_headers_only@
        } else {
            templates.health_complete@
        }
    } else if path == text("/ready") {
        if is_head {
            templates.ready_headers_only@
        } else {
            templates.ready_complete@
        }
    } else {
        match index.lookup(path) {
            Some(entry) => entry_response(
                entry,
                is_head,
                conditional_verdict(
                    if_modified_since,
                    if_none_match,
                    entry.last_modified_timestamp,
                    entry.etag,
                ),
            ),
            None => templates.not_found@,
        }
    }
}

/// Picks the response to a GET or HEAD request. The buffer is borrowed
/// from the templates or from the cache and is written as it is.
pub fn handle_request<'a>(
    templates: &'a HeaderTemplates,
    cache: &'a OptimizedCache,
    path: &str,
    is_head: bool,
    if_modified_since: Option<&[u8]>,
    if_none_match: Option<&[u8]>,
) -> (response: &'a [u8])
    ensures
        response@ == response_for(
            templates,
            cache@,
            text(path),
            is_head,
            optional(if_modified_since),
            optional(if_none_match),
        ),
{
    if bytes_eq(path.as_bytes(), "/health".as_bytes()) {
        if is_head {
            return templates.health_headers_only.as_slice();
        } else {
            return templates.health_complete.as_slice();
        }
    }
    if bytes_eq(path.as_bytes(), "/ready".as_bytes()) {
        if is_head {
            return templates.ready_headers_only.as_slice();
        } else {
            return templates.ready_complete.as_slice();
        }
    }
    match cache.get(path) {
        Some(entry) => {
            let verdict = evaluate_conditional(
                if_modified_since,
                if_none_match,
                entry.last_modified_timestamp,
                entry.etag.as_slice(),
            );
            match verdict {
                Verdict::NotModified => entry.not_modified_response.as_slice(),
                Verdict::Send => if is_head {
                    entry.headers_only.as_slice()
                } else {
                    entry.complete_response.as_slice()
                },
            }
        },
        None => templates.not_found.as_slice(),
    }
}

} // verus!
