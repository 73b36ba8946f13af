//! Making a request path safe: `.` and `..` resolved, nothing above the
//! root, query and fragment dropped.

use crate::bytes::{index_of, lemma_index_of_bounds, lemma_index_of_is, split_on};
use vstd::prelude::*;
use vstd::std_specs::iter::IteratorSpec;

verus! {

/// `s` up to the first `stop`; all of `s` if there is none.
pub open spec fn before<A>(s: Seq<A>, stop: A) -> Seq<A> {
    s.take(index_of(s, stop))
}

/// The stack of path components after one more part of the path: an empty
/// part and `.` change nothing, `..` takes the last component away if
/// there is one, anything else is added.
pub open spec fn push_component(stack: Seq<Seq<char>>, part: Seq<char>) -> Seq<Seq<char>> {
    if part.len() == 0 || part == seq!['.'] {
        stack
    } else if part == seq!['.', '.'] {
        if stack.len() > 0 {
            stack.drop_last()
        } else {
            stack
        }
    } else {
        stack.push(part)
    }
}

/// The stack after all of `parts`, from first to last.
pub open spec fn resolve_onto(stack: Seq<Seq<char>>, parts: Seq<Seq<char>>) -> Seq<Seq<char>>
    decreases parts.len(),
{
    if parts.len() == 0 {
        stack
    } else {
        resolve_onto(push_component(stack, parts[0]), parts.skip(1))
    }
}

/// The components that a path comes down to: its query and fragment set
/// aside, it is split at the slashes and resolved from the root.
pub open spec fn components(path: Seq<char>) -> Seq<Seq<char>> {
    resolve_onto(Seq::empty(), split_on(before(before(path, '?'), '#'), '/'))
}

/// The components written out, a slash in front of each.
pub open spec fn joined(parts: Seq<Seq<char>>) -> Seq<char>
    decreases parts.len(),
{
    if parts.len() == 0 {
        Seq::empty()
    } else {
        joined(parts.drop_last()) + seq!['/'] + parts.last()
    }
}

/// A path in normal form: `/` for the root, else its components with a
/// slash in front of each.
pub open spec fn normalized(path: Seq<char>) -> Seq<char> {
    let parts = components(path);
    if parts.len() == 0 {
        seq!['/']
    } else {
        joined(parts)
    }
}

/// The safe form of a request path: its normal form, but the root in
/// place of the server's own executable.
pub open spec fn sanitized(path: Seq<char>) -> Seq<char> {
    let clean = normalized(path);
    if clean == "/kiss"@ {
        seq!['/']
    } else {
        clean
    }
}

/// What a component of a safe path is: not empty, neither `.` nor `..`,
/// and without a slash in it.
pub open spec fn is_proper(part: Seq<char>) -> bool {
    part.len() > 0 && part != seq!['.'] && part != seq!['.', '.'] && !part.contains('/')
}

/// No piece of a split holds the separator.
pub proof fn lemma_pieces_lack_separator<A>(s: Seq<A>, sep: A)
    ensures
        forall|k: int|
            0 <= k < split_on(s, sep).len() ==> !(#[trigger] split_on(s, sep)[k]).contains(sep),
    decreases s.len(),
{
    let i = index_of(s, sep);
    lemma_index_of_bounds(s, sep);
    let pieces = split_on(s, sep);
    if i < s.len() {
        let rest = split_on(s.skip(i + 1), sep);
        lemma_pieces_lack_separator(s.skip(i + 1), sep);
        assert forall|k: int| 0 <= k < pieces.len() implies !(#[trigger] pieces[k]).contains(sep) by {
            if k > 0 {
                assert(pieces[k] == rest[k - 1]);
            }
        }
    }
}

/// Resolving parts that hold no slash onto proper components leaves
/// proper components.
pub proof fn lemma_resolve_keeps_proper(stack: Seq<Seq<char>>, parts: Seq<Seq<char>>)
    requires
        forall|k: int| 0 <= k < stack.len() ==> is_proper(#[trigger] stack[k]),
        forall|k: int| 0 <= k < parts.len() ==> !(#[trigger] parts[k]).contains('/'),
    ensures
        forall|k: int|
            0 <= k < resolve_onto(stack, parts).len() ==> is_proper(
                #[trigger] resolve_onto(stack, parts)[k],
            ),
    decreases parts.len(),
{
    if parts.len() > 0 {
        let next = push_component(stack, parts[0]);
        let rest = parts.skip(1);
        assert forall|k: int| 0 <= k < rest.len() implies !(#[trigger] rest[k]).contains('/') by {
            assert(rest[k] == parts[k + 1]);
        }
        assert forall|k: int| 0 <= k < next.len() implies is_proper(#[trigger] next[k]) by {
            if k < stack.len() {
                assert(next[k] == stack[k]);
            }
        }
        lemma_resolve_keeps_proper(next, rest);
        assert(resolve_onto(stack, parts) == resolve_onto(next, rest));
    } else {
        assert(resolve_onto(stack, parts) == stack);
    }
}

/// Every component that a path comes down to is proper: none is empty,
/// none is `.` or `..`, none holds a slash.
pub proof fn law_components_are_proper(path: Seq<char>)
    ensures
        forall|k: int|
            0 <= k < components(path).len() ==> is_proper(#[trigger] components(path)[k]),
{
    let cut = before(before(path, '?'), '#');
    lemma_pieces_lack_separator(cut, '/');
    lemma_resolve_keeps_proper(Seq::empty(), split_on(cut, '/'));
}

/// Components written out start with a slash.
pub proof fn lemma_joined_is_rooted(parts: Seq<Seq<char>>)
    requires
        parts.len() > 0,
    ensures
        joined(parts).len() > 0,
        joined(parts)[0] == '/',
    decreases parts.len(),
{
    let front = joined(parts.drop_last());
    if parts.len() > 1 {
        lemma_joined_is_rooted(parts.drop_last());
    } else {
        assert(front.len() == 0);
    }
    assert(joined(parts) == front + seq!['/'] + parts.last());
}

/// The safe form of any path starts at the root and is not the path of the
/// server's own executable.
pub proof fn law_sanitized_is_rooted(path: Seq<char>)
    ensures
        sanitized(path).len() > 0,
        sanitized(path)[0] == '/',
        sanitized(path) != "/kiss"@,
{
    reveal_strlit("/kiss");
    assert("/kiss"@.len() == 5);
    assert(seq!['/'].len() == 1);
    if components(path).len() > 0 {
        lemma_joined_is_rooted(components(path));
    }
}

/// The parts of `chars` that `ranges` mark, each by its start and end.
pub open spec fn parts_of(chars: Seq<char>, ranges: Seq<(usize, usize)>) -> Seq<Seq<char>> {
    Seq::new(ranges.len(), |k: int| chars.subrange(ranges[k].0 as int, ranges[k].1 as int))
}

fn chars_of(s: &str) -> (chars: Vec<char>)
    ensures
        chars@ == s@,
{
    let mut chars: Vec<char> = Vec::new();
    for c in it: s.chars()
        invariant
            it.seq() == s@,
            chars@ == it.seq().take(it.index() as int),
    {
        chars.push(c);
    }
    chars
}

fn find_char(s: &Vec<char>, from: usize, to: usize, c: char) -> (i: usize)
    requires
        from <= to <= s.len(),
    ensures
        from <= i <= to,
        i - from == index_of(s@.subrange(from as int, to as int), c),
{
    let ghost part = s@.subrange(from as int, to as int);
    let mut i: usize = from;
    while i < to && s[i] != c
        invariant
            from <= i <= to <= s.len(),
            part == s@.subrange(from as int, to as int),
            forall|j: int| 0 <= j < i - from ==> #[trigger] part[j] != c,
        decreases to - i,
    {
        i += 1;
    }
    proof {
        lemma_index_of_is(part, c, i - from);
    }
    i
}

/// `String::push`: the string with `c` added at its end.
#[verifier::external_body]
fn push_char(s: &mut String, c: char)
    ensures
        final(s)@ == old(s)@.push(c),
{
    s.push(c);
}

fn string_of(chars: &Vec<char>) -> (s: String)
    ensures
        s@ == chars@,
{
    let mut s = String::new();
    let mut i: usize = 0;
    while i < chars.len()
        invariant
            i <= chars.len(),
            s@ == chars@.take(i as int),
        decreases chars.len() - i,
    {
        push_char(&mut s, chars[i]);
        i += 1;
    }
    s
}

/// Resolves the parts of `chars[..end]` between slashes into the ranges
/// of the components that remain.
fn resolve(chars: &Vec<char>, end: usize) -> (stack: Vec<(usize, usize)>)
    requires
        end <= chars.len(),
    ensures
        forall|k: int| 0 <= k < stack.len() ==> (#[trigger] stack[k]).0 <= stack[k].1 <= end,
        parts_of(chars@, stack@) == resolve_onto(
            Seq::empty(),
            split_on(chars@.subrange(0, end as int), '/'),
        ),
{
    let ghost p = chars@.subrange(0, end as int);
    let ghost target = resolve_onto(Seq::empty(), split_on(p, '/'));
    let mut stack: Vec<(usize, usize)> = Vec::new();
    let mut start: usize = 0;
    let mut done = false;
    proof {
        assert(p.skip(0) =~= p);
        assert(parts_of(chars@, stack@) =~= Seq::empty());
    }
    while !done
        invariant
            start <= end <= chars.len(),
            p == chars@.subrange(0, end as int),
            target == resolve_onto(Seq::empty(), split_on(p, '/')),
            forall|k: int| 0 <= k < stack.len() ==> (#[trigger] stack[k]).0 <= stack[k].1 <= end,
            done ==> parts_of(chars@, stack@) == target,
            !done ==> resolve_onto(
                parts_of(chars@, stack@),
                split_on(p.skip(start as int), '/'),
            ) == target,
        decreases (if done { 0 } else { end - start + 1 }),
    {
        let stop = find_char(chars, start, end, '/');
        let len: usize = stop - start;
        let ghost rest = p.skip(start as int);
        let ghost part = chars@.subrange(start as int, stop as int);
        let ghost before_stack = parts_of(chars@, stack@);
        proof {
            assert(chars@.subrange(start as int, end as int) =~= rest);
            assert(rest.take(stop - start) =~= part);
            let pieces = split_on(rest, '/');
            if stop < end {
                assert(rest.skip(stop - start + 1) =~= p.skip(stop + 1));
                assert(pieces.skip(1) =~= split_on(p.skip(stop + 1), '/'));
            }
        }
        if len == 0 || (len == 1 && chars[start] == '.') {
            proof {
                if len == 1 {
                    assert(part =~= seq!['.']);
                }
            }
        } else if len == 2 && chars[start] == '.' && chars[start + 1] == '.' {
            stack.pop();
            proof {
                assert(part =~= seq!['.', '.']);
                assert(parts_of(chars@, stack@) =~= push_component(before_stack, part));
            }
        } else {
            stack.push((start, stop));
            proof {
                assert(parts_of(chars@, stack@) =~= push_component(before_stack, part));
            }
        }
        proof {
            let pieces = split_on(rest, '/');
            let now = parts_of(chars@, stack@);
            assert(resolve_onto(before_stack, pieces) == resolve_onto(now, pieces.skip(1)));
        }
        if stop == end {
            done = true;
        } else {
            start = stop + 1;
        }
    }
    stack
}

/// Writes the components out, a slash in front of each; the root alone is
/// `/`.
fn join(chars: &Vec<char>, stack: &Vec<(usize, usize)>) -> (out: Vec<char>)
    requires
        forall|k: int|
            0 <= k < stack.len() ==> (#[trigger] stack[k]).0 <= stack[k].1 <= chars.len(),
    ensures
        out@ == (if stack.len() == 0 {
            seq!['/']
        } else {
            joined(parts_of(chars@, stack@))
        }),
{
    let mut out: Vec<char> = Vec::new();
    if stack.len() == 0 {
        out.push('/');
        return out;
    }
    let ghost parts = parts_of(chars@, stack@);
    let mut k: usize = 0;
    while k < stack.len()
        invariant
            k <= stack.len(),
            parts == parts_of(chars@, stack@),
            forall|k: int|
                0 <= k < stack.len() ==> (#[trigger] stack[k]).0 <= stack[k].1 <= chars.len(),
            out@ == joined(parts.take(k as int)),
        decreases stack.len() - k,
    {
        let (from, to) = stack[k];
        let ghost so_far = out@;
        out.push('/');
        let mut j: usize = from;
        while j < to
            invariant
                from <= j <= to <= chars.len(),
                out@ == so_far + seq!['/'] + chars@.subrange(from as int, j as int),
            decreases to - j,
        {
            out.push(chars[j]);
            j += 1;
        }
        proof {
            assert(parts.take(k + 1).drop_last() =~= parts.take(k as int));
        }
        k += 1;
    }
    proof {
        assert(parts.take(stack.len() as int) =~= parts);
    }
    out
}

fn is_own_executable(clean: &Vec<char>) -> (found: bool)
    ensures
        found == (clean@ == "/kiss"@),
{
    proof {
        reveal_strlit("/kiss");
    }
    let found = clean.len() == 5 && clean[0] == '/' && clean[1] == 'k' && clean[2] == 'i'
        && clean[3] == 's' && clean[4] == 's';
    proof {
        if found {
            assert(clean@ =~= "/kiss"@);
        }
    }
    found
}

/// Brings a request path into its safe form: its query and fragment are
/// dropped, `.` and `..` are resolved without ever leaving the root, and
/// the path of the server's own executable becomes the root.
pub fn sanitize_path(path: &str) -> (clean: String)
    ensures
        clean@ == sanitized(path@),
{
    let chars = chars_of(path);
    let query = find_char(&chars, 0, chars.len(), '?');
    let end = find_char(&chars, 0, query, '#');
    proof {
        assert(chars@.subrange(0, chars.len() as int) =~= chars@);
        assert(chars@.subrange(0, end as int) =~= before(before(path@, '?'), '#'));
    }
    let stack = resolve(&chars, end);
    let clean = join(&chars, &stack);
    if is_own_executable(&clean) {
        let mut root: Vec<char> = Vec::new();
        root.push('/');
        string_of(&root)
    } else {
        string_of(&clean)
    }
}

} // verus!
