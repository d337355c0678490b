//! What holds of texts that are ordered, joined and trimmed.
use vstd::prelude::*;
use crate::errors;
use crate::text;

verus! {

/// A text stands before another exactly where it is a proper beginning of it, or
/// has the smaller character in the first place in which they differ.
pub proof fn law_order(a: Seq<char>, b: Seq<char>)
    ensures
        text::precedes(a, b) <==> exists|k: int|
            0 <= k <= a.len() && k < b.len() && #[trigger] a.take(k) == b.take(k) && (k == a.len()
                || (a[k] as u32) < (b[k] as u32)),
    decreases a.len(),
{
    if a.len() > 0 && b.len() > 0 && a[0] == b[0] {
        let x = a.drop_first();
        let y = b.drop_first();
        law_order(x, y);
        if text::precedes(a, b) {
            let k = choose|k: int|
                0 <= k <= x.len() && k < y.len() && #[trigger] x.take(k) == y.take(k) && (k
                    == x.len() || (x[k] as u32) < (y[k] as u32));
            assert(a.take(k + 1) =~= seq![a[0]] + x.take(k));
            assert(b.take(k + 1) =~= seq![b[0]] + y.take(k));
        }
        if exists|k: int|
            0 <= k <= a.len() && k < b.len() && #[trigger] a.take(k) == b.take(k) && (k == a.len()
                || (a[k] as u32) < (b[k] as u32)) {
            let k = choose|k: int|
                0 <= k <= a.len() && k < b.len() && #[trigger] a.take(k) == b.take(k) && (k
                    == a.len() || (a[k] as u32) < (b[k] as u32));
            assert(k > 0);
            assert(x.take(k - 1) =~= a.take(k).drop_first());
            assert(y.take(k - 1) =~= b.take(k).drop_first());
        }
    } else if a.len() > 0 && b.len() > 0 {
        assert(a.take(0) =~= b.take(0));
        assert forall|k: int| 0 < k <= a.len() && k < b.len() implies #[trigger] a.take(k) != b.take(
            k,
        ) by {
            assert(a.take(k)[0] == a[0] && b.take(k)[0] == b[0]);
        }
    } else {
        assert(a.take(0) =~= b.take(0));
    }
}

/// Joining lists gives what joining each gives, with the separator between; one
/// text is itself, and none is nothing.
pub proof fn law_joined(a: Seq<Seq<char>>, b: Seq<Seq<char>>, sep: Seq<char>, x: Seq<char>)
    ensures
        text::joined(Seq::empty(), sep) == Seq::<char>::empty(),
        text::joined(seq![x], sep) == x,
        a.len() > 0 && b.len() > 0 ==> text::joined(a + b, sep) == text::joined(a, sep) + sep
            + text::joined(b, sep),
    decreases b.len(),
{
    if a.len() > 0 && b.len() > 0 {
        assert((a + b).drop_last() =~= a + b.drop_last());
        assert((a + b).last() == b.last());
        if b.len() == 1 {
            assert(a + b.drop_last() =~= a);
            assert(text::joined(a + b, sep) == text::joined(a, sep) + sep + b[0]);
        } else {
            law_joined(a, b.drop_last(), sep, x);
            assert(text::joined(a, sep) + sep + text::joined(b.drop_last(), sep) + sep + b.last()
                =~= text::joined(a, sep) + sep + (text::joined(b.drop_last(), sep) + sep
                + b.last()));
        }
    }
}

/// A list is written with a comma and a space between its items.
pub proof fn law_listed(names: Seq<Seq<char>>)
    ensures
        errors::listed(names) == text::joined(names, ", "@),
{
}

proof fn lemma_trimmed_start(s: Seq<char>) -> (i: int)
    ensures
        0 <= i <= s.len(),
        text::trimmed_start(s) == s.skip(i),
        forall|k: int| 0 <= k < i ==> text::is_white_space(#[trigger] s[k]),
        i < s.len() ==> !text::is_white_space(s[i]),
    decreases s.len(),
{
    if s.len() > 0 && text::is_white_space(s[0]) {
        let rest = s.drop_first();
        let i = lemma_trimmed_start(rest);
        assert(rest.skip(i) =~= s.skip(i + 1));
        assert forall|k: int| 0 <= k < i + 1 implies text::is_white_space(#[trigger] s[k]) by {
            if k > 0 {
                assert(text::is_white_space(rest[k - 1]));
            }
        }
        i + 1
    } else {
        assert(s.skip(0) =~= s);
        0
    }
}

proof fn lemma_trimmed_end(s: Seq<char>) -> (j: int)
    ensures
        0 <= j <= s.len(),
        text::trimmed_end(s) == s.take(j),
        forall|k: int| j <= k < s.len() ==> text::is_white_space(#[trigger] s[k]),
        j > 0 ==> !text::is_white_space(s[j - 1]),
    decreases s.len(),
{
    if s.len() > 0 && text::is_white_space(s.last()) {
        let front = s.drop_last();
        let j = lemma_trimmed_end(front);
        assert(front.take(j) =~= s.take(j));
        assert forall|k: int| j <= k < s.len() implies text::is_white_space(#[trigger] s[k]) by {
            if k < front.len() {
                assert(text::is_white_space(front[k]));
            }
        }
        j
    } else {
        assert(s.take(s.len() as int) =~= s);
        s.len() as int
    }
}

/// A text is trimmed to the part of it that begins and ends with characters other
/// than white space, with nothing but white space before and behind.
pub proof fn law_trimmed(s: Seq<char>) -> (ends: (int, int))
    ensures
        0 <= ends.0 <= ends.1 <= s.len(),
        text::trimmed(s) == s.subrange(ends.0, ends.1),
        forall|k: int|
            0 <= k < ends.0 || ends.1 <= k < s.len() ==> text::is_white_space(#[trigger] s[k]),
        ends.0 < ends.1 ==> !text::is_white_space(s[ends.0]) && !text::is_white_space(
            s[ends.1 - 1],
        ),
{
    let i = lemma_trimmed_start(s);
    let t = s.skip(i);
    let j = lemma_trimmed_end(t);
    assert(t.take(j) =~= s.subrange(i, i + j));
    assert forall|k: int| i + j <= k < s.len() implies text::is_white_space(#[trigger] s[k]) by {
        assert(text::is_white_space(t[k - i]));
    }
    if j > 0 {
        assert(t[j - 1] == s[i + j - 1]);
    }
    (i, i + j)
}

/// The characters that are white space.
pub proof fn law_white_space(c: char)
    ensures
        text::is_white_space(c) <==> {
            ||| c == '\t' || c == '\n' || c == '\u{b}' || c == '\u{c}' || c == '\r' || c == ' '
            ||| c == '\u{85}' || c == '\u{a0}' || c == '\u{1680}'
            ||| '\u{2000}' <= c <= '\u{200a}'
            ||| c == '\u{2028}' || c == '\u{2029}' || c == '\u{202f}' || c == '\u{205f}'
            ||| c == '\u{3000}'
        },
{
    vstd::utf8::char_u32_cast(c, c as u32);
}

} // verus!
