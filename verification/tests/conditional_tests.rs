use kiss::conditional::{
    evaluate_conditional, evaluate_with_date, modified_since, none_match, parse_date_header,
    Verdict,
};

const TAG: &[u8] = b"W/\"37-1700000000\"";

#[test]
fn dates_are_read_in_the_three_formats() {
    assert_eq!(parse_date_header(b"Sun, 06 Nov 1994 08:49:37 GMT"), Some(784111777));
    assert_eq!(parse_date_header(b"Sunday, 06-Nov-94 08:49:37 GMT"), Some(784111777));
    assert_eq!(parse_date_header(b"Sun Nov  6 08:49:37 1994"), Some(784111777));
    assert_eq!(parse_date_header(b"Thu, 01 Jan 1970 00:00:00 GMT"), Some(0));
    assert_eq!(parse_date_header(b"Fri, 31 Dec 9999 23:59:59 GMT"), Some(253402300799));
}

#[test]
fn what_is_no_date_reads_as_none() {
    assert_eq!(parse_date_header(b""), None);
    assert_eq!(parse_date_header(b"yesterday"), None);
    assert_eq!(parse_date_header(b"784111777"), None);
    assert_eq!(parse_date_header(b"Sun, 07 Nov 1994 08:48:37 GMT"), None);
    assert_eq!(parse_date_header(b"Sun, 06 Nov 1994 08:49:37 GMT\xff"), None);
    assert_eq!(parse_date_header(b"\xc3\x28"), None);
    assert_eq!(parse_date_header(b"Wed, 31 Dec 1969 23:59:59 GMT"), None);
}

#[test]
fn entry_no_newer_than_the_date_is_not_modified() {
    assert_eq!(modified_since(Some(1000), 1000), Verdict::NotModified);
    assert_eq!(modified_since(Some(1001), 1000), Verdict::NotModified);
    assert_eq!(modified_since(Some(u64::MAX), 0), Verdict::NotModified);
    assert_eq!(modified_since(Some(999), 1000), Verdict::Send);
    assert_eq!(modified_since(Some(0), u64::MAX), Verdict::Send);
    assert_eq!(modified_since(Some(0), 0), Verdict::NotModified);
    assert_eq!(modified_since(None, 0), Verdict::Send);
    assert_eq!(modified_since(None, 1000), Verdict::Send);
}

#[test]
fn modified_since_with_the_entrys_own_date_is_304_and_a_second_earlier_200() {
    let last_modified = 784111777;
    assert_eq!(
        evaluate_conditional(Some(b"Sun, 06 Nov 1994 08:49:37 GMT"), None, last_modified, TAG),
        Verdict::NotModified
    );
    assert_eq!(
        evaluate_conditional(Some(b"Sun, 06 Nov 1994 08:49:36 GMT"), None, last_modified, TAG),
        Verdict::Send
    );
    assert_eq!(
        evaluate_conditional(Some(b"Sun, 06 Nov 1994 08:49:38 GMT"), None, last_modified, TAG),
        Verdict::NotModified
    );
}

#[test]
fn unreadable_date_sends_the_entity() {
    assert_eq!(evaluate_conditional(Some(b"not a date"), None, 0, TAG), Verdict::Send);
    assert_eq!(evaluate_conditional(Some(b""), None, 0, TAG), Verdict::Send);
    assert_eq!(evaluate_conditional(Some(b"\xff\xfe"), None, 0, TAG), Verdict::Send);
}

#[test]
fn no_conditional_header_sends_the_entity() {
    assert_eq!(evaluate_conditional(None, None, 0, TAG), Verdict::Send);
    assert_eq!(evaluate_with_date(None, None, u64::MAX, b""), Verdict::Send);
}

#[test]
fn star_matches_any_entry() {
    assert_eq!(none_match(b"*", TAG), Verdict::NotModified);
    assert_eq!(none_match(b"*", b""), Verdict::NotModified);
    assert_eq!(none_match(b"*", b"\"other\""), Verdict::NotModified);
}

#[test]
fn star_must_stand_alone() {
    assert_eq!(none_match(b"**", TAG), Verdict::Send);
    assert_eq!(none_match(b" *", TAG), Verdict::Send);
    assert_eq!(none_match(b"*, \"x\"", TAG), Verdict::Send);
    assert_eq!(none_match(b"\"*\"", TAG), Verdict::Send);
}

#[test]
fn tag_matches_weak_or_strong_quoted_or_bare() {
    assert_eq!(none_match(b"W/\"37-1700000000\"", TAG), Verdict::NotModified);
    assert_eq!(none_match(b"\"37-1700000000\"", TAG), Verdict::NotModified);
    assert_eq!(none_match(b"37-1700000000", TAG), Verdict::NotModified);
    assert_eq!(none_match(b"W/37-1700000000", TAG), Verdict::NotModified);
    assert_eq!(none_match(b"\"\"37-1700000000\"", TAG), Verdict::NotModified);
    assert_eq!(none_match(b"W/\"37-1700000000\"", b"\"37-1700000000\""), Verdict::NotModified);
    assert_eq!(none_match(b"\"37-1700000000\"", b"37-1700000000"), Verdict::NotModified);
}

#[test]
fn tag_must_match_exactly() {
    assert_eq!(none_match(b"W/\"37-1700000001\"", TAG), Verdict::Send);
    assert_eq!(none_match(b"W/\"37-170000000\"", TAG), Verdict::Send);
    assert_eq!(none_match(b"W/\"7-1700000000\"", TAG), Verdict::Send);
    assert_eq!(none_match(b"xW/\"37-1700000000\"", TAG), Verdict::Send);
    assert_eq!(none_match(b"W/\"37-1700000000\"x", TAG), Verdict::Send);
    assert_eq!(none_match(b"w/\"37-1700000000\"", TAG), Verdict::Send);
    assert_eq!(none_match(b"", TAG), Verdict::Send);
}

#[test]
fn only_one_weak_marker_is_dropped() {
    assert_eq!(none_match(b"W/W/\"37-1700000000\"", TAG), Verdict::Send);
    assert_eq!(none_match(b"W/W/\"a\"", b"W/\"a\""), Verdict::Send);
    assert_eq!(none_match(b"W/W/\"a\"", b"W/W/\"a\""), Verdict::NotModified);
    assert_eq!(none_match(b"\"W/a\"", b"W/a"), Verdict::Send);
}

#[test]
fn list_items_are_trimmed() {
    assert_eq!(none_match(b"\"a\",\"b\"", b"\"b\""), Verdict::NotModified);
    assert_eq!(none_match(b"\"a\" ,\t \"b\"\t", b"\"b\""), Verdict::NotModified);
    assert_eq!(none_match(b"  W/\"b\"  ", b"\"b\""), Verdict::NotModified);
    assert_eq!(none_match(b"\"a\",\r\n \"b\"", b"\"b\""), Verdict::NotModified);
    assert_eq!(none_match(b"\"a\", \"b\",", b"\"b\""), Verdict::NotModified);
    assert_eq!(none_match(b"\"a\", \"b\",", b"\"c\""), Verdict::Send);
    assert_eq!(none_match(b",,\"b\"", b"\"b\""), Verdict::NotModified);
    assert_eq!(none_match(b"\"a b\"", b"\"ab\""), Verdict::Send);
}

#[test]
fn entrys_own_tag_is_not_trimmed() {
    assert_eq!(none_match(b"\"b\"", b" \"b\""), Verdict::Send);
    assert_eq!(none_match(b"\"b\"", b"\"b\" "), Verdict::Send);
}

#[test]
fn empty_tags_match_each_other() {
    assert_eq!(none_match(b"", b""), Verdict::NotModified);
    assert_eq!(none_match(b"\"\"", b""), Verdict::NotModified);
    assert_eq!(none_match(b"\"a\",", b"\"\""), Verdict::NotModified);
    assert_eq!(none_match(b"W/", b"\"\""), Verdict::NotModified);
}

#[test]
fn a_tag_with_a_comma_never_matches_whole() {
    assert_eq!(none_match(b"\"a,b\"", b"\"a,b\""), Verdict::Send);
    assert_eq!(none_match(b"\"a,b\"", b"a"), Verdict::NotModified);
    assert_eq!(none_match(b"\"a,b\"", b"b"), Verdict::NotModified);
}

#[test]
fn none_match_decides_alone() {
    let newer = Some(&b"Fri, 31 Dec 9999 23:59:59 GMT"[..]);
    let older = Some(&b"Thu, 01 Jan 1970 00:00:00 GMT"[..]);
    assert_eq!(
        evaluate_conditional(newer, Some(b"\"other\""), 784111777, TAG),
        Verdict::Send
    );
    assert_eq!(
        evaluate_conditional(older, Some(b"\"37-1700000000\""), 784111777, TAG),
        Verdict::NotModified
    );
    assert_eq!(
        evaluate_conditional(Some(b"junk"), Some(b"*"), 784111777, TAG),
        Verdict::NotModified
    );
    assert_eq!(
        evaluate_with_date(Some(b"\"other\""), Some(Some(u64::MAX)), 0, TAG),
        Verdict::Send
    );
    assert_eq!(
        evaluate_with_date(Some(TAG), Some(None), 0, TAG),
        Verdict::NotModified
    );
}

#[test]
fn date_decides_where_no_tag_is_sent() {
    assert_eq!(evaluate_with_date(None, Some(Some(10)), 10, TAG), Verdict::NotModified);
    assert_eq!(evaluate_with_date(None, Some(Some(9)), 10, TAG), Verdict::Send);
    assert_eq!(evaluate_with_date(None, Some(None), 10, TAG), Verdict::Send);
}
