//! Byte-level building blocks shared by the request parser, the response
//! builder and the conditional-request evaluator: byte classes, trimming,
//! searching, splitting, case folding and decimal formatting.

use vstd::prelude::*;
use vstd::string::StringSliceAdditionalSpecFns;

verus! {

/// Horizontal tab.
pub const TAB: u8 = 9;

/// Line feed.
pub const LF: u8 = 10;

/// Carriage return.
pub const CR: u8 = 13;

/// Space.
pub const SPACE: u8 = 32;

/// The double quote `"`.
pub const QUOTE: u8 = 34;

/// The asterisk `*`.
pub const STAR: u8 = 42;

/// The comma.
pub const COMMA: u8 = 44;

/// The slash `/`.
pub const SLASH: u8 = 47;

/// The question mark.
pub const QUESTION: u8 = 63;

/// The letter `W`.
pub const UPPER_W: u8 = 87;

/// The bytes that a piece of text is written as on the wire.
pub open spec fn text(s: &str) -> Seq<u8> {
    s.spec_bytes()
}

/// An optional byte string as plain values.
pub open spec fn optional(value: Option<&[u8]>) -> Option<Seq<u8>> {
    match value {
        Some(bytes) => Some(bytes@),
        None => None,
    }
}

/// A set of bytes that trimming can remove.
#[derive(Clone, Copy, Debug)]
pub enum ByteClass {
    /// ASCII whitespace: tab, line feed, vertical tab, form feed, carriage
    /// return and space.
    Whitespace,
    /// What may end a header line: carriage return, line feed, space, tab.
    LineEnd,
    /// Space and tab.
    Blank,
    /// The double quote.
    Quote,
}

impl ByteClass {
    /// Whether `b` belongs to the class.
    pub open spec fn holds(self, b: u8) -> bool {
        match self {
            ByteClass::Whitespace => (9 <= b && b <= 13) || b == SPACE,
            ByteClass::LineEnd => b == CR || b == LF || b == SPACE || b == TAB,
            ByteClass::Blank => b == SPACE || b == TAB,
            ByteClass::Quote => b == QUOTE,
        }
    }

    /// Tests whether `b` belongs to the class.
    pub fn contains(self, b: u8) -> (r: bool)
        ensures
            r == self.holds(b),
    {
        match self {
            ByteClass::Whitespace => (9 <= b && b <= 13) || b == SPACE,
            ByteClass::LineEnd => b == CR || b == LF || b == SPACE || b == TAB,
            ByteClass::Blank => b == SPACE || b == TAB,
            ByteClass::Quote => b == QUOTE,
        }
    }
}

/// How many bytes at the front of `s` belong to `class`.
pub open spec fn leading(s: Seq<u8>, class: ByteClass) -> nat
    decreases s.len(),
{
    if s.len() > 0 && class.holds(s[0]) {
        1 + leading(s.skip(1), class)
    } else {
        0
    }
}

/// How many bytes at the back of `s` belong to `class`.
pub open spec fn trailing(s: Seq<u8>, class: ByteClass) -> nat
    decreases s.len(),
{
    if s.len() > 0 && class.holds(s.last()) {
        1 + trailing(s.drop_last(), class)
    } else {
        0
    }
}

/// `s` without its leading bytes of `class`.
pub open spec fn strip_leading(s: Seq<u8>, class: ByteClass) -> Seq<u8> {
    s.skip(leading(s, class) as int)
}

/// `s` without its trailing bytes of `class`.
pub open spec fn strip_trailing(s: Seq<u8>, class: ByteClass) -> Seq<u8> {
    s.take(s.len() - trailing(s, class))
}

/// `s` without ASCII whitespace at either end.
pub open spec fn trim(s: Seq<u8>) -> Seq<u8> {
    strip_leading(strip_trailing(s, ByteClass::Whitespace), ByteClass::Whitespace)
}

/// `leading` is the length of the longest prefix made of `class` bytes.
pub proof fn lemma_leading_is(s: Seq<u8>, class: ByteClass, n: int)
    requires
        0 <= n <= s.len(),
        forall|j: int| 0 <= j < n ==> class.holds(#[trigger] s[j]),
        n == s.len() || !class.holds(s[n]),
    ensures
        leading(s, class) == n,
    decreases s.len(),
{
    if n > 0 {
        let rest = s.skip(1);
        assert forall|j: int| 0 <= j < n - 1 implies class.holds(#[trigger] rest[j]) by {
            assert(rest[j] == s[j + 1]);
        }
        lemma_leading_is(rest, class, n - 1);
    }
}

/// `trailing` is the length of the longest suffix made of `class` bytes.
pub proof fn lemma_trailing_is(s: Seq<u8>, class: ByteClass, n: int)
    requires
        0 <= n <= s.len(),
        forall|j: int| s.len() - n <= j < s.len() ==> class.holds(#[trigger] s[j]),
        n == s.len() || !class.holds(s[s.len() - n - 1]),
    ensures
        trailing(s, class) == n,
    decreases s.len(),
{
    if n > 0 {
        let rest = s.drop_last();
        assert forall|j: int| rest.len() - (n - 1) <= j < rest.len() implies class.holds(
            #[trigger] rest[j],
        ) by {
            assert(rest[j] == s[j]);
        }
        lemma_trailing_is(rest, class, n - 1);
    }
}

/// Counts the bytes of `class` at the front of `s[from..to]`.
pub fn count_leading(s: &[u8], from: usize, to: usize, class: ByteClass) -> (n: usize)
    requires
        from <= to <= s.len(),
    ensures
        n == leading(s@.subrange(from as int, to as int), class),
        from + n <= to,
{
    let ghost part = s@.subrange(from as int, to as int);
    let mut i: usize = from;
    while i < to && class.contains(s[i])
        invariant
            from <= i <= to <= s.len(),
            part == s@.subrange(from as int, to as int),
            forall|j: int| 0 <= j < i - from ==> class.holds(#[trigger] part[j]),
        decreases to - i,
    {
        i += 1;
    }
    proof {
        lemma_leading_is(part, class, i - from);
    }
    i - from
}

/// Counts the bytes of `class` at the back of `s[from..to]`.
pub fn count_trailing(s: &[u8], from: usize, to: usize, class: ByteClass) -> (n: usize)
    requires
        from <= to <= s.len(),
    ensures
        n == trailing(s@.subrange(from as int, to as int), class),
        from + n <= to,
{
    let ghost part = s@.subrange(from as int, to as int);
    let mut i: usize = to;
    while i > from && class.contains(s[i - 1])
        invariant
            from <= i <= to <= s.len(),
            part == s@.subrange(from as int, to as int),
            forall|j: int| i - from <= j < to - from ==> class.holds(#[trigger] part[j]),
        decreases i - from,
    {
        i -= 1;
    }
    proof {
        lemma_trailing_is(part, class, to - i);
    }
    to - i
}

/// Finds what is left of `s[from..to]` once the bytes of `class` are taken
/// from both of its ends: where it starts and where it ends.
pub fn strip_both(s: &[u8], from: usize, to: usize, class: ByteClass) -> (range: (usize, usize))
    requires
        from <= to <= s.len(),
    ensures
        from <= range.0 <= range.1 <= to,
        s@.subrange(range.0 as int, range.1 as int) == strip_leading(
            strip_trailing(s@.subrange(from as int, to as int), class),
            class,
        ),
{
    let back = count_trailing(s, from, to, class);
    let end: usize = to - back;
    let front = count_leading(s, from, end, class);
    proof {
        let part = s@.subrange(from as int, to as int);
        assert(s@.subrange(from as int, end as int) =~= strip_trailing(part, class));
    }
    (from + front, end)
}

/// Where `b` first occurs in `s`, or the length of `s` if it does not.
pub open spec fn index_of<A>(s: Seq<A>, b: A) -> int
    decreases s.len(),
{
    if s.len() == 0 || s[0] == b {
        0
    } else {
        1 + index_of(s.skip(1), b)
    }
}

/// `index_of` is the first position that holds `b`.
pub proof fn lemma_index_of_is<A>(s: Seq<A>, b: A, n: int)
    requires
        0 <= n <= s.len(),
        forall|j: int| 0 <= j < n ==> #[trigger] s[j] != b,
        n == s.len() || s[n] == b,
    ensures
        index_of(s, b) == n,
    decreases s.len(),
{
    if n > 0 {
        let rest = s.skip(1);
        assert forall|j: int| 0 <= j < n - 1 implies #[trigger] rest[j] != b by {
            assert(rest[j] == s[j + 1]);
        }
        lemma_index_of_is(rest, b, n - 1);
    }
}

/// `index_of` stays within the sequence; nothing before it is `b`, and it
/// holds `b` unless it is the end.
pub proof fn lemma_index_of_bounds<A>(s: Seq<A>, b: A)
    ensures
        0 <= index_of(s, b) <= s.len(),
        forall|j: int| 0 <= j < index_of(s, b) ==> #[trigger] s[j] != b,
        index_of(s, b) < s.len() ==> s[index_of(s, b)] == b,
    decreases s.len(),
{
    if !(s.len() == 0 || s[0] == b) {
        let rest = s.skip(1);
        lemma_index_of_bounds(rest, b);
        assert forall|j: int| 0 <= j < index_of(s, b) implies #[trigger] s[j] != b by {
            if j > 0 {
                assert(s[j] == rest[j - 1]);
            }
        }
        if index_of(s, b) < s.len() {
            assert(s[index_of(s, b)] == rest[index_of(rest, b)]);
        }
    }
}

/// Finds the first `b` in `s[from..to]`; returns `to` if there is none.
pub fn find_byte(s: &[u8], from: usize, to: usize, b: u8) -> (i: usize)
    requires
        from <= to <= s.len(),
    ensures
        from <= i <= to,
        i - from == index_of(s@.subrange(from as int, to as int), b),
{
    let ghost part = s@.subrange(from as int, to as int);
    let mut i: usize = from;
    while i < to && s[i] != b
        invariant
            from <= i <= to <= s.len(),
            part == s@.subrange(from as int, to as int),
            forall|j: int| 0 <= j < i - from ==> #[trigger] part[j] != b,
        decreases to - i,
    {
        i += 1;
    }
    proof {
        lemma_index_of_is(part, b, i - from);
    }
    i
}

/// The pieces of `s` between occurrences of `sep`. There is always at least
/// one piece; pieces may be empty.
pub open spec fn split_on<A>(s: Seq<A>, sep: A) -> Seq<Seq<A>>
    decreases s.len(),
{
    let i = index_of(s, sep);
    if 0 <= i < s.len() {
        seq![s.take(i)] + split_on(s.skip(i + 1), sep)
    } else {
        seq![s]
    }
}

/// The test that a piece is not empty.
pub open spec fn non_empty() -> spec_fn(Seq<u8>) -> bool {
    |piece: Seq<u8>| piece.len() > 0
}

/// The non-empty pieces of `s` between occurrences of `sep`.
pub open spec fn tokens(s: Seq<u8>, sep: u8) -> Seq<Seq<u8>> {
    split_on(s, sep).filter(non_empty())
}

proof fn lemma_filter_one(piece: Seq<u8>)
    ensures
        seq![piece].filter(non_empty()) == if piece.len() > 0 {
            seq![piece]
        } else {
            Seq::<Seq<u8>>::empty()
        },
{
    reveal_with_fuel(Seq::filter, 2);
    let one = seq![piece];
    assert(one.drop_last() =~= Seq::<Seq<u8>>::empty());
    assert(one.last() == piece);
    if piece.len() > 0 {
        assert(one.filter(non_empty()) =~= seq![piece]);
    }
}

/// The empty string has no tokens.
pub proof fn lemma_tokens_of_empty(sep: u8)
    ensures
        tokens(Seq::<u8>::empty(), sep) == Seq::<Seq<u8>>::empty(),
{
    let s = Seq::<u8>::empty();
    assert(split_on(s, sep) == seq![s]);
    lemma_filter_one(s);
}

/// A separator at the front adds no token.
pub proof fn lemma_tokens_after_separator(s: Seq<u8>, sep: u8)
    requires
        s.len() > 0,
        s[0] == sep,
    ensures
        tokens(s, sep) == tokens(s.skip(1), sep),
{
    assert(index_of(s, sep) == 0);
    assert(split_on(s, sep) == seq![s.take(0)] + split_on(s.skip(1), sep));
    Seq::filter_distributes_over_add(seq![s.take(0)], split_on(s.skip(1), sep), non_empty());
    lemma_filter_one(s.take(0));
    assert(Seq::<Seq<u8>>::empty() + tokens(s.skip(1), sep) =~= tokens(s.skip(1), sep));
}

/// A string that starts with another byte than the separator starts with a
/// token, which runs up to the first separator.
pub proof fn lemma_tokens_first(s: Seq<u8>, sep: u8)
    requires
        s.len() > 0,
        s[0] != sep,
    ensures
        0 < index_of(s, sep) <= s.len(),
        tokens(s, sep) == seq![s.take(index_of(s, sep))] + tokens(s.skip(index_of(s, sep)), sep),
{
    let n = index_of(s, sep);
    lemma_index_of_bounds(s, sep);
    lemma_filter_one(s.take(n));
    if n < s.len() {
        let rest = split_on(s.skip(n + 1), sep);
        assert(split_on(s, sep) == seq![s.take(n)] + rest);
        Seq::filter_distributes_over_add(seq![s.take(n)], rest, non_empty());
        lemma_tokens_after_separator(s.skip(n), sep);
        assert(s.skip(n).skip(1) =~= s.skip(n + 1));
    } else {
        assert(split_on(s, sep) == seq![s]);
        assert(s.take(n) =~= s);
        assert(s.skip(n) =~= Seq::<u8>::empty());
        lemma_tokens_of_empty(sep);
        assert(seq![s] + Seq::<Seq<u8>>::empty() =~= seq![s]);
    }
}

/// Whether two byte strings are the same.
pub fn bytes_eq(a: &[u8], b: &[u8]) -> (same: bool)
    ensures
        same == (a@ == b@),
{
    if a.len() != b.len() {
        return false;
    }
    let mut i: usize = 0;
    while i < a.len()
        invariant
            i <= a.len(),
            a.len() == b.len(),
            forall|j: int| 0 <= j < i ==> a@[j] == b@[j],
        decreases a.len() - i,
    {
        if a[i] != b[i] {
            return false;
        }
        i += 1;
    }
    assert(a@ =~= b@);
    true
}

/// The lower-case form of an ASCII letter; any other byte unchanged.
pub open spec fn lower(b: u8) -> u8 {
    if 65 <= b && b <= 90 {
        (b + 32) as u8
    } else {
        b
    }
}

/// Folds an ASCII letter to lower case.
pub fn to_lower(b: u8) -> (l: u8)
    ensures
        l == lower(b),
{
    if 65 <= b && b <= 90 {
        b + 32
    } else {
        b
    }
}

/// Whether two byte strings are the same up to the case of ASCII letters.
pub open spec fn eq_ignore_case(a: Seq<u8>, b: Seq<u8>) -> bool {
    &&& a.len() == b.len()
    &&& forall|i: int| 0 <= i < a.len() ==> lower(#[trigger] a[i]) == lower(b[i])
}

/// Compares two byte strings without regard to the case of ASCII letters.
pub fn same_ignoring_case(a: &[u8], b: &[u8]) -> (same: bool)
    ensures
        same == eq_ignore_case(a@, b@),
{
    if a.len() != b.len() {
        return false;
    }
    let mut i: usize = 0;
    while i < a.len()
        invariant
            i <= a.len(),
            a.len() == b.len(),
            forall|j: int| 0 <= j < i ==> lower(#[trigger] a@[j]) == lower(b@[j]),
        decreases a.len() - i,
    {
        if to_lower(a[i]) != to_lower(b[i]) {
            return false;
        }
        i += 1;
    }
    true
}

/// The decimal digits of `n`, most significant first, without padding.
pub open spec fn decimal(n: nat) -> Seq<u8>
    decreases n,
{
    if n < 10 {
        seq![(48 + n) as u8]
    } else {
        decimal(n / 10).push((48 + n % 10) as u8)
    }
}

/// Appends the decimal digits of `n` to `buf`.
pub fn push_decimal(buf: &mut Vec<u8>, n: u64)
    ensures
        final(buf)@ == old(buf)@ + decimal(n as nat),
    decreases n,
{
    if n >= 10 {
        push_decimal(buf, n / 10);
    }
    let digit: u8 = (n % 10) as u8;
    buf.push(48 + digit);
}

/// Appends the bytes of `s` to `buf`.
pub fn push_text(buf: &mut Vec<u8>, s: &str)
    ensures
        final(buf)@ == old(buf)@ + text(s),
{
    buf.extend_from_slice(s.as_bytes());
}

/// A vector that holds a copy of `bytes`.
pub fn copy_bytes(bytes: &[u8]) -> (copy: Vec<u8>)
    ensures
        copy@ == bytes@,
{
    let mut copy: Vec<u8> = Vec::new();
    copy.extend_from_slice(bytes);
    copy
}

/// Appends `bytes` to `buf`.
pub fn push_bytes(buf: &mut Vec<u8>, bytes: &[u8])
    ensures
        final(buf)@ == old(buf)@ + bytes@,
{
    buf.extend_from_slice(bytes);
}

} // verus!
