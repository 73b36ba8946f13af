//! Parsing of the request line and of header lines, on bytes.

use crate::bytes::{
    count_leading, count_trailing, eq_ignore_case, find_byte, lemma_tokens_after_separator,
    lemma_tokens_first, lemma_tokens_of_empty, lower, strip_leading, strip_trailing, to_lower,
    tokens, ByteClass, SPACE,
};
use vstd::prelude::*;
use vstd::string::StringSliceAdditionalSpecFns;
use vstd::utf8::valid_utf8;

verus! {

/// Whether `pattern` stands in `line` at position `at`, up to the case of
/// ASCII letters.
pub open spec fn matches_at(line: Seq<u8>, pattern: Seq<u8>, at: int) -> bool {
    &&& 0 <= at
    &&& at + pattern.len() <= line.len()
    &&& eq_ignore_case(line.subrange(at, at + pattern.len()), pattern)
}

/// Whether `line` begins with `prefix`, up to the case of ASCII letters.
pub open spec fn starts_with_ignore_case(line: Seq<u8>, prefix: Seq<u8>) -> bool {
    matches_at(line, prefix, 0)
}

/// Whether `pattern` occurs somewhere in `line`, up to the case of ASCII
/// letters. The empty pattern occurs in every line.
pub open spec fn contains_ignore_case(line: Seq<u8>, pattern: Seq<u8>) -> bool {
    exists|at: int| matches_at(line, pattern, at)
}

fn matches_here(line: &[u8], pattern: &[u8], at: usize) -> (found: bool)
    requires
        at <= line.len(),
    ensures
        found == matches_at(line@, pattern@, at as int),
{
    if line.len() - at < pattern.len() {
        return false;
    }
    let ghost window = line@.subrange(at as int, at + pattern.len());
    let mut j: usize = 0;
    while j < pattern.len()
        invariant
            j <= pattern.len(),
            at + pattern.len() <= line.len(),
            window == line@.subrange(at as int, at + pattern.len()),
            forall|k: int| 0 <= k < j ==> lower(#[trigger] window[k]) == lower(pattern@[k]),
        decreases pattern.len() - j,
    {
        if to_lower(line[at + j]) != to_lower(pattern[j]) {
            assert(window[j as int] == line@[at + j]);
            return false;
        }
        j += 1;
    }
    true
}

/// Case-insensitive test that `header_line` begins with `prefix`.
pub fn header_starts_with(header_line: &[u8], prefix: &[u8]) -> (found: bool)
    ensures
        found == starts_with_ignore_case(header_line@, prefix@),
{
    matches_here(header_line, prefix, 0)
}

/// Case-insensitive test that `substring` occurs in `header_line`.
pub fn header_contains(header_line: &[u8], substring: &[u8]) -> (found: bool)
    ensures
        found == contains_ignore_case(header_line@, substring@),
{
    if substring.len() == 0 {
        assert(matches_at(header_line@, substring@, 0));
        return true;
    }
    if header_line.len() < substring.len() {
        return false;
    }
    let last: usize = header_line.len() - substring.len();
    let mut i: usize = 0;
    while i <= last
        invariant
            i <= last + 1,
            last == header_line.len() - substring.len(),
            forall|at: int| 0 <= at < i ==> !matches_at(header_line@, substring@, at),
        decreases last + 1 - i,
    {
        if matches_here(header_line, substring, i) {
            return true;
        }
        i += 1;
    }
    false
}

/// A header line without the line end and blanks that follow it and
/// without the blanks in front of it.
pub open spec fn trimmed_header_line(line: Seq<u8>) -> Seq<u8> {
    strip_leading(strip_trailing(line, ByteClass::LineEnd), ByteClass::Blank)
}

/// Removes the trailing CR, LF, spaces and tabs of `line`, then its leading
/// spaces and tabs.
pub fn trim_header_line(line: &[u8]) -> (trimmed: &[u8])
    ensures
        trimmed@ == trimmed_header_line(line@),
{
    let back = count_trailing(line, 0, line.len(), ByteClass::LineEnd);
    let end: usize = line.len() - back;
    let front = count_leading(line, 0, end, ByteClass::Blank);
    proof {
        assert(line@.subrange(0, line.len() as int) =~= line@);
    }
    &line[front..end]
}

/// What follows the first `name_len` bytes of `line` and the blanks after
/// them, if anything does.
pub open spec fn header_value(line: Seq<u8>, name_len: nat) -> Option<Seq<u8>> {
    if line.len() <= name_len {
        None
    } else {
        let value = strip_leading(line.skip(name_len as int), ByteClass::Blank);
        if value.len() == 0 {
            None
        } else {
            Some(value)
        }
    }
}

/// The value of a header whose name, colon included, is `header_name`,
/// taken from a line that is known to start with that name.
pub fn extract_header_value<'a>(line: &'a [u8], header_name: &[u8]) -> (value: Option<&'a [u8]>)
    ensures
        match value {
            Some(v) => header_value(line@, header_name@.len()) == Some(v@),
            None => header_value(line@, header_name@.len()) is None,
        },
{
    if line.len() <= header_name.len() {
        return None;
    }
    let from: usize = header_name.len();
    let blanks = count_leading(line, from, line.len(), ByteClass::Blank);
    if from + blanks >= line.len() {
        return None;
    }
    Some(&line[from + blanks..line.len()])
}

/// `std::str::from_utf8`: the string that `bytes` encode, exactly when they
/// are well-formed UTF-8.
#[verifier::external_body]
pub(crate) fn utf8_text<'a>(bytes: &'a [u8]) -> (decoded: Option<&'a str>)
    ensures
        match decoded {
            Some(s) => valid_utf8(bytes@) && s.spec_bytes() == bytes@,
            None => !valid_utf8(bytes@),
        },
{
    match std::str::from_utf8(bytes) {
        Ok(s) => Some(s),
        Err(_) => None,
    }
}

/// Finds the first token of `s[from..]`: its start and its end.
fn next_token(s: &[u8], from: usize) -> (found: Option<(usize, usize)>)
    requires
        from <= s.len(),
    ensures
        match found {
            Some((start, end)) => {
                &&& from <= start < end <= s.len()
                &&& tokens(s@.skip(from as int), SPACE) == seq![
                    s@.subrange(start as int, end as int),
                ] + tokens(s@.skip(end as int), SPACE)
            },
            None => tokens(s@.skip(from as int), SPACE).len() == 0,
        },
{
    let mut start: usize = from;
    while start < s.len() && s[start] == SPACE
        invariant
            from <= start <= s.len(),
            tokens(s@.skip(from as int), SPACE) == tokens(s@.skip(start as int), SPACE),
        decreases s.len() - start,
    {
        proof {
            lemma_tokens_after_separator(s@.skip(start as int), SPACE);
            assert(s@.skip(start as int).skip(1) =~= s@.skip(start + 1));
        }
        start += 1;
    }
    if start == s.len() {
        proof {
            assert(s@.skip(start as int) =~= Seq::<u8>::empty());
            lemma_tokens_of_empty(SPACE);
        }
        return None;
    }
    let end = find_byte(s, start, s.len(), SPACE);
    proof {
        let rest = s@.skip(start as int);
        lemma_tokens_first(rest, SPACE);
        assert(rest.take(end - start) =~= s@.subrange(start as int, end as int));
        assert(rest.skip(end - start) =~= s@.skip(end as int));
    }
    Some((start, end))
}

/// The method, the path and the version of a request line: its tokens
/// between spaces, if there are exactly three and the last two are UTF-8.
pub open spec fn request_line_parts(request: Seq<u8>) -> Option<(Seq<u8>, Seq<u8>, Seq<u8>)> {
    let parts = tokens(request, SPACE);
    if parts.len() == 3 && valid_utf8(parts[1]) && valid_utf8(parts[2]) {
        Some((parts[0], parts[1], parts[2]))
    } else {
        None
    }
}

/// Splits a request line on spaces, empty pieces dropped, into method, path
/// and version. Any other number of pieces is refused.
pub fn parse_request_line_fast(request: &[u8]) -> (parsed: Option<(&[u8], &str, &str)>)
    ensures
        match parsed {
            Some((method, path, version)) => request_line_parts(request@) == Some(
                (method@, path.spec_bytes(), version.spec_bytes()),
            ),
            None => request_line_parts(request@) is None,
        },
{
    assert(request@.skip(0) =~= request@);
    let (method_start, method_end) = match next_token(request, 0) {
        Some(range) => range,
        None => { return None; },
    };
    let (path_start, path_end) = match next_token(request, method_end) {
        Some(range) => range,
        None => { return None; },
    };
    let (version_start, version_end) = match next_token(request, path_end) {
        Some(range) => range,
        None => { return None; },
    };
    if next_token(request, version_end).is_some() {
        return None;
    }
    proof {
        let first = request@.subrange(method_start as int, method_end as int);
        let second = request@.subrange(path_start as int, path_end as int);
        let third = request@.subrange(version_start as int, version_end as int);
        assert(tokens(request@, SPACE) =~= seq![first, second, third]);
    }
    let method = &request[method_start..method_end];
    let path = match utf8_text(&request[path_start..path_end]) {
        Some(s) => s,
        None => { return None; },
    };
    let version = match utf8_text(&request[version_start..version_end]) {
        Some(s) => s,
        None => { return None; },
    };
    Some((method, path, version))
}

} // verus!
