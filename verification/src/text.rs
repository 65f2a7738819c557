//! Text as sequences of characters: the operations the renderer is built on.

use vstd::prelude::*;

verus! {

/// Whether `s` begins with `p`.
pub open spec fn begins_with(s: Seq<char>, p: Seq<char>) -> bool {
    p.len() <= s.len() && s.subrange(0, p.len() as int) == p
}

/// `s` with every occurrence of `from` replaced by `to`, the occurrences
/// taken from the left and never overlapping.
///
/// An empty `from` occurs before every character and at the end.
pub open spec fn replaced(s: Seq<char>, from: Seq<char>, to: Seq<char>) -> Seq<char>
    decreases s.len(),
{
    if from.len() == 0 {
        if s.len() == 0 {
            to
        } else {
            to + seq![s[0]] + replaced(s.skip(1), from, to)
        }
    } else if s.len() < from.len() {
        s
    } else if begins_with(s, from) {
        to + replaced(s.skip(from.len() as int), from, to)
    } else {
        seq![s[0]] + replaced(s.skip(1), from, to)
    }
}

/// `s` with `pad` put behind every line break.
pub open spec fn indented(s: Seq<char>, pad: Seq<char>) -> Seq<char> {
    replaced(s, seq!['\n'], seq!['\n'] + pad)
}

/// The characters of a string, in order.
pub fn chars_of(text: &str) -> (chars: Vec<char>)
    ensures
        chars@ == text@,
{
    let mut chars: Vec<char> = Vec::new();
    for c in it: text.chars()
        invariant
            it.seq() == text@,
            chars@ == it.seq().take(it.index() as int),
    {
        chars.push(c);
    }
    chars
}

/// `String::from_iter` over characters, which std offers as `collect`: the
/// string that holds exactly the given characters, in their order.
#[verifier::external_body]
fn string_of(chars: &Vec<char>) -> (text: String)
    ensures
        text@ == chars@,
{
    chars.iter().collect()
}

/// Whether two strings hold the same characters.
pub fn same_text(a: &str, b: &str) -> (r: bool)
    ensures
        r == (a@ == b@),
{
    let x = chars_of(a);
    let y = chars_of(b);
    same_chars(&x, &y)
}

/// Whether two lists hold the same characters.
fn same_chars(a: &Vec<char>, b: &Vec<char>) -> (r: bool)
    ensures
        r == (a@ == b@),
{
    if a.len() != b.len() {
        return false;
    }
    let mut i: usize = 0;
    while i < a.len()
        invariant
            i <= a.len(),
            a.len() == b.len(),
            a@.take(i as int) == b@.take(i as int),
        decreases a.len() - i,
    {
        if a[i] != b[i] {
            return false;
        }
        assert(a@.take(i + 1) == a@.take(i as int).push(a@[i as int]));
        assert(b@.take(i + 1) == b@.take(i as int).push(b@[i as int]));
        i += 1;
    }
    assert(a@.take(i as int) == a@);
    assert(b@.take(i as int) == b@);
    true
}

/// Whether `hay`, from position `at` on, begins with `needle`.
fn found_at(hay: &Vec<char>, at: usize, needle: &Vec<char>) -> (r: bool)
    requires
        at <= hay.len(),
    ensures
        r == begins_with(hay@.skip(at as int), needle@),
{
    if needle.len() > hay.len() - at {
        return false;
    }
    let ghost rest = hay@.skip(at as int);
    let mut i: usize = 0;
    while i < needle.len()
        invariant
            i <= needle.len(),
            at + needle.len() <= hay.len(),
            rest == hay@.skip(at as int),
            rest.subrange(0, i as int) == needle@.take(i as int),
        decreases needle.len() - i,
    {
        if hay[at + i] != needle[i] {
            proof {
                if begins_with(rest, needle@) {
                    assert(rest.subrange(0, needle.len() as int)[i as int] == needle@[i as int]);
                }
            }
            return false;
        }
        assert(rest.subrange(0, i + 1) == rest.subrange(0, i as int).push(rest[i as int]));
        assert(needle@.take(i + 1) == needle@.take(i as int).push(needle@[i as int]));
        i += 1;
    }
    assert(needle@.take(i as int) == needle@);
    true
}

/// Appends the characters of `tail` to `out`.
fn push_all(out: &mut Vec<char>, tail: &Vec<char>)
    ensures
        final(out)@ == old(out)@ + tail@,
{
    let mut i: usize = 0;
    while i < tail.len()
        invariant
            i <= tail.len(),
            out@ == old(out)@ + tail@.take(i as int),
        decreases tail.len() - i,
    {
        out.push(tail[i]);
        assert(tail@.take(i + 1) == tail@.take(i as int).push(tail@[i as int]));
        i += 1;
    }
    assert(tail@.take(i as int) == tail@);
}

/// Replaces every occurrence of `from` in `text` by `to`.
fn replace_chars(text: &Vec<char>, from: &Vec<char>, to: &Vec<char>) -> (out: Vec<char>)
    ensures
        out@ == replaced(text@, from@, to@),
{
    let mut out: Vec<char> = Vec::new();
    let mut i: usize = 0;
    assert(text@.skip(0) == text@);
    assert(out@ + replaced(text@, from@, to@) == replaced(text@, from@, to@));
    while i < text.len()
        invariant
            i <= text.len(),
            out@ + replaced(text@.skip(i as int), from@, to@) == replaced(text@, from@, to@),
        decreases text.len() - i,
    {
        let ghost rest = text@.skip(i as int);
        let ghost before = out@;
        if from.len() == 0 {
            push_all(&mut out, to);
            out.push(text[i]);
            assert(rest.skip(1) == text@.skip(i + 1));
            assert(out@ + replaced(rest.skip(1), from@, to@) == before + (to@ + seq![rest[0]]
                + replaced(rest.skip(1), from@, to@)));
            i += 1;
        } else if found_at(text, i, from) {
            push_all(&mut out, to);
            assert(rest.skip(from.len() as int) == text@.skip(i + from.len()));
            assert(out@ + replaced(rest.skip(from.len() as int), from@, to@) == before + (to@
                + replaced(rest.skip(from.len() as int), from@, to@)));
            i += from.len();
        } else {
            out.push(text[i]);
            assert(rest.skip(1) == text@.skip(i + 1));
            proof {
                if rest.len() < from.len() {
                    assert(rest == seq![rest[0]] + rest.skip(1));
                }
            }
            assert(out@ + replaced(rest.skip(1), from@, to@) == before + (seq![rest[0]]
                + replaced(rest.skip(1), from@, to@)));
            i += 1;
        }
    }
    if from.len() == 0 {
        push_all(&mut out, to);
    }
    assert(text@.skip(i as int).len() == 0);
    out
}

/// Replaces every occurrence of `from` in `text` by `to`.
pub fn replace(text: &str, from: &str, to: &str) -> (out: String)
    ensures
        out@ == replaced(text@, from@, to@),
{
    let t = chars_of(text);
    let f = chars_of(from);
    let r = chars_of(to);
    let out = replace_chars(&t, &f, &r);
    string_of(&out)
}

/// Whether `text` begins with `prefix`.
pub fn starts_with(text: &str, prefix: &str) -> (r: bool)
    ensures
        r == begins_with(text@, prefix@),
{
    let t = chars_of(text);
    let p = chars_of(prefix);
    assert(t@.skip(0) == t@);
    found_at(&t, 0, &p)
}

/// `text` without its first `n` characters; nothing is left where it has no
/// more than `n`.
pub fn skip_chars(text: &str, n: usize) -> (out: String)
    ensures
        out@ == if n <= text@.len() {
            text@.skip(n as int)
        } else {
            Seq::empty()
        },
{
    let t = chars_of(text);
    let mut out: Vec<char> = Vec::new();
    if n > t.len() {
        return string_of(&out);
    }
    let mut i: usize = n;
    while i < t.len()
        invariant
            n <= i <= t.len(),
            out@ == t@.subrange(n as int, i as int),
        decreases t.len() - i,
    {
        out.push(t[i]);
        assert(t@.subrange(n as int, i + 1) == t@.subrange(n as int, i as int).push(t@[i as int]));
        i += 1;
    }
    assert(t@.subrange(n as int, i as int) == t@.skip(n as int));
    string_of(&out)
}

} // verus!
