//! What holds of the block strings of a text, and of how their lines are cut.
use vstd::prelude::*;
use crate::block_strings;
use crate::text;

verus! {

/// How many bytes the characters from one place to another take in UTF-8.
pub open spec fn bytes_between(s: Seq<char>, p: int, q: int) -> nat {
    vstd::utf8::encode_utf8(s.subrange(p, q)).len()
}

/// Whether no line ends between two places.
pub open spec fn in_one_line(s: Seq<char>, p: int, q: int) -> bool {
    forall|k: int| p <= k < q ==> #[trigger] s[k] != '\n'
}

/// Whether a line ends at a place.
pub open spec fn ends_line(s: Seq<char>, q: int) -> bool {
    q == s.len() || (0 <= q < s.len() && s[q] == '\n')
}

/// A character takes as many bytes as its encoding in UTF-8 has.
pub proof fn law_widths(c: char)
    ensures
        block_strings::width(c) == vstd::utf8::encode_scalar(c as u32).len(),
{
    vstd::utf8::char_is_scalar(c);
}

proof fn lemma_one_more(s: Seq<char>, p: int, q: int)
    requires
        0 <= p < q <= s.len(),
    ensures
        bytes_between(s, p, q) == block_strings::width(s[p]) + bytes_between(s, p + 1, q),
{
    law_widths(s[p]);
    assert(s.subrange(p, q).drop_first() =~= s.subrange(p + 1, q));
}

/// A line is blank from a place on exactly where all is white space from there to
/// the end of the line.
pub proof fn law_blank(s: Seq<char>, p: int, q: int)
    requires
        0 <= p <= q <= s.len(),
        in_one_line(s, p, q),
        ends_line(s, q),
    ensures
        block_strings::blank_from(s, p) <==> forall|k: int|
            p <= k < q ==> text::is_white_space(#[trigger] s[k]),
    decreases q - p,
{
    if p < q {
        law_blank(s, p + 1, q);
        assert(s[p] != '\n');
    }
}

/// A line is indented by the bytes of the white space that it begins with.
pub proof fn law_indents(s: Seq<char>, p: int, q: int)
    requires
        0 <= p <= q <= s.len(),
        in_one_line(s, p, q),
        forall|k: int| p <= k < q ==> text::is_white_space(#[trigger] s[k]),
        ends_line(s, q) || !text::is_white_space(s[q]),
    ensures
        block_strings::indent_from(s, p) == bytes_between(s, p, q),
    decreases q - p,
{
    if p < q {
        law_indents(s, p + 1, q);
        lemma_one_more(s, p, q);
        assert(s[p] != '\n' && text::is_white_space(s[p]));
    } else {
        assert(s.subrange(p, q) =~= Seq::empty());
    }
}

/// Whether a number of bytes from a place on ends at another, which stands in the
/// same line: it is the number of bytes up to there, or the line ends there and has
/// no more.
pub open spec fn reaches(s: Seq<char>, p: int, n: nat, q: int) -> bool {
    &&& p <= q <= s.len()
    &&& in_one_line(s, p, q)
    &&& bytes_between(s, p, q) == n || (bytes_between(s, p, q) <= n && ends_line(s, q))
}

/// A number of bytes can be cut off a line exactly where it ends between two
/// characters, or where the line has no more.
pub proof fn law_cuts(s: Seq<char>, p: int, n: nat)
    requires
        0 <= p <= s.len(),
    ensures
        block_strings::cuts_between(s, p, n as int) <==> exists|q: int| #[trigger]
            reaches(s, p, n, q),
    decreases s.len() - p,
{
    assert(s.subrange(p, p) =~= Seq::empty());
    if n == 0 || p == s.len() || s[p] == '\n' {
        assert(reaches(s, p, n, p));
    } else {
        let w = block_strings::width(s[p]);
        if w <= n {
            let m = (n - w) as nat;
            law_cuts(s, p + 1, m);
            if block_strings::cuts_between(s, p, n as int) {
                let q = choose|q: int| #[trigger] reaches(s, p + 1, m, q);
                lemma_one_more(s, p, q);
                assert(reaches(s, p, n, q));
            }
        }
        if exists|q: int| #[trigger] reaches(s, p, n, q) {
            let q = choose|q: int| #[trigger] reaches(s, p, n, q);
            assert(q > p);
            lemma_one_more(s, p, q);
            assert(w <= n);
            assert(reaches(s, p + 1, (n - w) as nat, q));
        }
    }
}

proof fn lemma_ascii_cuts(s: Seq<char>, p: int, n: int)
    requires
        forall|i: int| 0 <= i < s.len() ==> (#[trigger] s[i]) as u32 <= 0x7f,
        0 <= p,
    ensures
        block_strings::cuts_between(s, p, n),
    decreases s.len() - p,
{
    if p < s.len() && n > 0 {
        lemma_ascii_cuts(s, p + 1, n - 1);
        assert(s[p] as u32 <= 0x7f);
    }
}

proof fn lemma_ascii_safe(raw: Seq<char>, p: int)
    requires
        forall|i: int| 0 <= i < raw.len() ==> (#[trigger] raw[i]) as u32 <= 0x7f,
    ensures
        block_strings::safe_from(raw, p),
    decreases raw.len() - p,
{
    if 0 <= p < raw.len() {
        block_strings::lemma_ends(raw, p + 1);
        block_strings::lemma_closing(raw, p + 3, p + 3);
        if raw[p] == '#' {
            lemma_ascii_safe(raw, block_strings::comment_end(raw, p + 1));
        } else if block_strings::quotes_at(raw, p) {
            if let Some(end) = block_strings::closing(raw, p + 3, p + 3) {
                let s = raw.subrange(p + 3, end);
                assert forall|i: int| 0 <= i < s.len() implies (#[trigger] s[i]) as u32 <= 0x7f by {
                    assert(s[i] == raw[p + 3 + i]);
                }
                assert forall|n: nat, k: int| #[trigger]
                    block_strings::is_common_indent(s, n) && #[trigger] block_strings::is_cut(
                        s,
                        k,
                    ) implies block_strings::cuts_between(s, k, n as int) by {
                    lemma_ascii_cuts(s, k, n as int);
                }
                lemma_ascii_safe(raw, end + 3);
            }
        } else if raw[p] == '"' {
            if let Some(end) = block_strings::string_end(raw, p + 1, false) {
                lemma_ascii_safe(raw, end + 1);
            }
        } else {
            lemma_ascii_safe(raw, p + 1);
        }
    }
}

/// In a text of ASCII alone the lines of each block string can be cut.
pub proof fn law_ascii_is_safe(raw: Seq<char>)
    requires
        forall|i: int| 0 <= i < raw.len() ==> (#[trigger] raw[i]) as u32 <= 0x7f,
    ensures
        block_strings::block_strings_safe(raw),
{
    lemma_ascii_safe(raw, 0);
}

proof fn lemma_shift_comment(raw: Seq<char>, d: int, p: int)
    requires
        0 <= d <= raw.len(),
        0 <= p <= raw.len() - d,
    ensures
        block_strings::comment_end(raw, d + p) == d + block_strings::comment_end(raw.skip(d), p),
    decreases raw.len() - d - p,
{
    if p < raw.len() - d {
        lemma_shift_comment(raw, d, p + 1);
        assert(raw.skip(d)[p] == raw[d + p]);
    }
}

/// A place that is some way behind another.
spec fn behind(d: int, o: Option<int>) -> Option<int> {
    match o {
        Some(p) => Some(d + p),
        None => None,
    }
}

proof fn lemma_shift_string(raw: Seq<char>, d: int, p: int, escaped: bool)
    requires
        0 <= d <= raw.len(),
        0 <= p,
    ensures
        block_strings::string_end(raw, d + p, escaped) == behind(
            d,
            block_strings::string_end(raw.skip(d), p, escaped),
        ),
    decreases raw.len() - d - p,
{
    if p < raw.len() - d {
        assert(raw.skip(d)[p] == raw[d + p]);
        lemma_shift_string(raw, d, p + 1, !escaped && raw[d + p] == '\\');
    }
}

proof fn lemma_shift_quotes(raw: Seq<char>, d: int, p: int)
    requires
        0 <= d <= raw.len(),
        0 <= p,
    ensures
        block_strings::quotes_at(raw, d + p) == block_strings::quotes_at(raw.skip(d), p),
{
    let t = raw.skip(d);
    if p <= t.len() - 3 {
        assert(t[p] == raw[d + p] && t[p + 1] == raw[d + p + 1] && t[p + 2] == raw[d + p + 2]);
    }
}

proof fn lemma_shift_closing(raw: Seq<char>, d: int, start: int, p: int)
    requires
        0 <= d <= raw.len(),
        0 <= start <= p,
    ensures
        block_strings::closing(raw, d + start, d + p) == behind(
            d,
            block_strings::closing(raw.skip(d), start, p),
        ),
    decreases raw.len() - d - p,
{
    if d + p <= raw.len() - 3 {
        lemma_shift_quotes(raw, d, p);
        lemma_shift_closing(raw, d, start, p + 1);
        lemma_shift_closing(raw, d, start, p + 3);
        if p > start {
            assert(raw.skip(d)[p - 1] == raw[d + p - 1]);
        }
    }
}

/// What is met from a place on depends on nothing before it.
proof fn lemma_shift_safe(raw: Seq<char>, d: int, p: int)
    requires
        0 <= d <= raw.len(),
        0 <= p,
    ensures
        block_strings::safe_from(raw, d + p) == block_strings::safe_from(raw.skip(d), p),
    decreases raw.len() - d - p,
{
    let t = raw.skip(d);
    if p < t.len() {
        assert(t[p] == raw[d + p]);
        block_strings::lemma_ends(t, p + 1);
        block_strings::lemma_closing(t, p + 3, p + 3);
        block_strings::lemma_ends(raw, d + p + 1);
        block_strings::lemma_closing(raw, d + p + 3, d + p + 3);
        lemma_shift_quotes(raw, d, p);
        if raw[d + p] == '#' {
            lemma_shift_comment(raw, d, p + 1);
            lemma_shift_safe(raw, d, block_strings::comment_end(t, p + 1));
        } else if block_strings::quotes_at(t, p) {
            lemma_shift_closing(raw, d, p + 3, p + 3);
            if let Some(end) = block_strings::closing(t, p + 3, p + 3) {
                assert(t.subrange(p + 3, end) =~= raw.subrange(d + p + 3, d + end));
                lemma_shift_safe(raw, d, end + 3);
            }
        } else if raw[d + p] == '"' {
            lemma_shift_string(raw, d, p + 1, false);
            if let Some(end) = block_strings::string_end(t, p + 1, false) {
                lemma_shift_safe(raw, d, end + 1);
            }
        } else {
            lemma_shift_safe(raw, d, p + 1);
        }
    }
}

/// A character of a name, a number, punctuation or white space is passed over, and
/// any other than a quote or a number sign ends what the parser reads.
pub proof fn law_characters(c: char, rest: Seq<char>)
    ensures
        'a' <= c <= 'z' || 'A' <= c <= 'Z' || '0' <= c <= '9'
            || "_-+.()[]{}!$:=@|& \t\r\n,\u{feff}"@.contains(c)
            ==> block_strings::block_strings_safe(seq![c] + rest)
            == block_strings::block_strings_safe(rest),
        !('a' <= c <= 'z' || 'A' <= c <= 'Z' || '0' <= c <= '9' || c == '"' || c == '#'
            || "_-+.()[]{}!$:=@|& \t\r\n,\u{feff}"@.contains(c)) ==> block_strings::block_strings_safe(
            seq![c] + rest,
        ),
{
    let raw = seq![c] + rest;
    let others = "_-+.()[]{}!$:=@|& \t\r\n,\u{feff}"@;
    reveal_strlit("_-+.()[]{}!$:=@|& \t\r\n,\u{feff}");
    assert(raw.skip(1) =~= rest);
    assert(raw[0] == c);
    lemma_shift_safe(raw, 1, 0);
    if block_strings::is_plain_char(c) && !('a' <= c <= 'z' || 'A' <= c <= 'Z' || '0' <= c <= '9') {
        assert(others.len() == 23);
        assert(exists|i: int| 0 <= i < others.len() && others[i] == c) by {
            assert(c == others[0] || c == others[1] || c == others[2] || c == others[3] || c
                == others[4] || c == others[5] || c == others[6] || c == others[7] || c == others[8]
                || c == others[9] || c == others[10] || c == others[11] || c == others[12] || c
                == others[13] || c == others[14] || c == others[15] || c == others[16] || c
                == others[17] || c == others[18] || c == others[19] || c == others[20] || c
                == others[21] || c == others[22]);
        }
    }
}

proof fn lemma_comment(raw: Seq<char>, p: int, q: int)
    requires
        0 <= p <= q < raw.len(),
        raw[q] == '\n' || raw[q] == '\r',
        forall|k: int| p <= k < q ==> #[trigger] raw[k] != '\n' && raw[k] != '\r',
    ensures
        block_strings::comment_end(raw, p) == q + 1,
    decreases q - p,
{
    if p < q {
        lemma_comment(raw, p + 1, q);
        assert(raw[p] != '\n' && raw[p] != '\r');
    }
}

/// A comment is passed over, whatever it holds, up to the end of its line.
pub proof fn law_comments(s: Seq<char>, end: char, rest: Seq<char>)
    requires
        end == '\n' || end == '\r',
        forall|k: int| 0 <= k < s.len() ==> #[trigger] s[k] != '\n' && s[k] != '\r',
    ensures
        block_strings::block_strings_safe(seq!['#'] + s + seq![end] + rest)
            == block_strings::block_strings_safe(rest),
{
    let raw = seq!['#'] + s + seq![end] + rest;
    let n = s.len() as int;
    assert forall|k: int| 1 <= k < n + 1 implies #[trigger] raw[k] != '\n' && raw[k] != '\r' by {
        assert(raw[k] == s[k - 1]);
    }
    assert(raw[n + 1] == end);
    lemma_comment(raw, 1, n + 1);
    assert(raw.skip(n + 2) =~= rest);
    lemma_shift_safe(raw, n + 2, 0);
    assert(raw[0] == '#');
}

proof fn lemma_string(raw: Seq<char>, p: int, q: int)
    requires
        0 <= p <= q < raw.len(),
        raw[q] == '"',
        forall|k: int|
            p <= k < q ==> #[trigger] raw[k] != '"' && raw[k] != '\n' && raw[k] != '\\',
    ensures
        block_strings::string_end(raw, p, false) == Some(q),
    decreases q - p,
{
    if p < q {
        assert(raw[p] != '"' && raw[p] != '\n' && raw[p] != '\\');
        lemma_string(raw, p + 1, q);
    }
}

/// A string is passed over, whatever it holds.
pub proof fn law_strings(s: Seq<char>, rest: Seq<char>)
    requires
        s.len() > 0,
        forall|k: int| 0 <= k < s.len() ==> #[trigger] s[k] != '"' && s[k] != '\n' && s[k] != '\\',
    ensures
        block_strings::block_strings_safe(seq!['"'] + s + seq!['"'] + rest)
            == block_strings::block_strings_safe(rest),
{
    let raw = seq!['"'] + s + seq!['"'] + rest;
    let n = s.len() as int;
    assert forall|k: int| 1 <= k < n + 1 implies #[trigger] raw[k] != '"' && raw[k] != '\n'
        && raw[k] != '\\' by {
        assert(raw[k] == s[k - 1]);
    }
    assert(raw[n + 1] == '"');
    lemma_string(raw, 1, n + 1);
    assert(raw.skip(n + 2) =~= rest);
    lemma_shift_safe(raw, n + 2, 0);
    assert(raw[0] == '"' && raw[1] != '"');
}

proof fn lemma_block(raw: Seq<char>, start: int, p: int, q: int)
    requires
        0 <= start <= p <= q,
        block_strings::quotes_at(raw, q),
        q > start ==> raw[q - 1] != '\\',
        forall|k: int| start <= k < q ==> #[trigger] raw[k] != '"',
    ensures
        block_strings::closing(raw, start, p) == Some(q),
    decreases q - p,
{
    if p < q {
        assert(raw[p] != '"');
        lemma_block(raw, start, p + 1, q);
    }
}

/// A text that begins with a block string is safe exactly where the lines of this
/// one can be cut and the rest is safe.
pub proof fn law_block_strings(s: Seq<char>, rest: Seq<char>)
    requires
        forall|k: int| 0 <= k < s.len() ==> #[trigger] s[k] != '"',
        s.len() > 0 ==> s.last() != '\\',
    ensures
        block_strings::block_strings_safe(
            seq!['"', '"', '"'] + s + seq!['"', '"', '"'] + rest,
        ) <==> block_strings::cuts_safely(s) && block_strings::block_strings_safe(rest),
{
    let raw = seq!['"', '"', '"'] + s + seq!['"', '"', '"'] + rest;
    let n = s.len() as int;
    assert forall|k: int| 3 <= k < n + 3 implies #[trigger] raw[k] != '"' by {
        assert(raw[k] == s[k - 3]);
    }
    assert(raw[n + 3] == '"' && raw[n + 4] == '"' && raw[n + 5] == '"');
    assert(raw[0] == '"' && raw[1] == '"' && raw[2] == '"');
    if n > 0 {
        assert(raw[n + 2] == s.last());
    }
    lemma_block(raw, 3, 3, n + 3);
    assert(raw.subrange(3, n + 3) =~= s);
    assert(raw.skip(n + 6) =~= rest);
    lemma_shift_safe(raw, n + 6, 0);
}

/// Whether a line begins at a place and has a character other than white space.
pub open spec fn is_text_line(s: Seq<char>, p: int) -> bool {
    &&& 0 <= p <= s.len()
    &&& p == 0 || s[p - 1] == '\n'
    &&& exists|k: int|
        p <= k < s.len() && !text::is_white_space(#[trigger] s[k]) && in_one_line(s, p, k + 1)
}

/// A line is not blank exactly where it has a character other than white space.
pub proof fn law_text_lines(s: Seq<char>, p: int)
    requires
        0 <= p <= s.len(),
    ensures
        block_strings::text_line_at(s, p) <==> is_text_line(s, p),
{
    let q = lemma_line_end(s, p);
    law_blank(s, p, q);
    if !block_strings::blank_from(s, p) {
        let k = choose|k: int| p <= k < q && !text::is_white_space(#[trigger] s[k]);
        assert(in_one_line(s, p, k + 1));
    }
    if exists|k: int|
        p <= k < s.len() && !text::is_white_space(#[trigger] s[k]) && in_one_line(s, p, k + 1) {
        let k = choose|k: int|
            p <= k < s.len() && !text::is_white_space(#[trigger] s[k]) && in_one_line(s, p, k + 1);
        if q <= k {
            assert(s[q] != '\n');
        }
    }
}

proof fn lemma_line_end(s: Seq<char>, p: int) -> (q: int)
    requires
        0 <= p <= s.len(),
    ensures
        p <= q <= s.len(),
        in_one_line(s, p, q),
        ends_line(s, q),
    decreases s.len() - p,
{
    if p == s.len() || s[p] == '\n' {
        p
    } else {
        lemma_line_end(s, p + 1)
    }
}

/// The lines of a block string can be cut exactly where the indentation of the line
/// that is indented least, of those behind the first that are not blank, can be cut
/// off each line behind the first that stands neither before the first line that is
/// not blank nor behind the last.
pub proof fn law_lines_are_cut(s: Seq<char>)
    ensures
        block_strings::cuts_safely(s) <==> forall|a: int, p: int|
            #![trigger is_text_line(s, a), block_strings::is_cut(s, p)]
            0 < a && is_text_line(s, a) && (forall|b: int|
                0 < b && #[trigger] is_text_line(s, b) ==> block_strings::indent_from(s, a)
                    <= block_strings::indent_from(s, b)) && block_strings::is_cut(s, p)
                ==> block_strings::cuts_between(s, p, block_strings::indent_from(s, a) as int),
{
    assert forall|p: int| 0 <= p <= s.len() implies #[trigger] block_strings::text_line_at(s, p)
        == is_text_line(s, p) by {
        law_text_lines(s, p);
    }
    if block_strings::cuts_safely(s) {
        assert forall|a: int, p: int|
            #![trigger is_text_line(s, a), block_strings::is_cut(s, p)]
            0 < a && is_text_line(s, a) && (forall|b: int|
                0 < b && #[trigger] is_text_line(s, b) ==> block_strings::indent_from(s, a)
                    <= block_strings::indent_from(s, b)) && block_strings::is_cut(
                s,
                p,
            ) implies block_strings::cuts_between(
            s,
            p,
            block_strings::indent_from(s, a) as int,
        ) by {
            let n = block_strings::indent_from(s, a);
            assert(block_strings::text_line_at(s, a));
            assert forall|b: int|
                0 < b <= s.len() && #[trigger] block_strings::text_line_at(s, b) implies n
                <= block_strings::indent_from(s, b) by {
                assert(is_text_line(s, b));
            }
            assert(block_strings::is_common_indent(s, n));
        }
    }
    if forall|a: int, p: int|
        #![trigger is_text_line(s, a), block_strings::is_cut(s, p)]
        0 < a && is_text_line(s, a) && (forall|b: int|
            0 < b && #[trigger] is_text_line(s, b) ==> block_strings::indent_from(s, a)
                <= block_strings::indent_from(s, b)) && block_strings::is_cut(s, p)
            ==> block_strings::cuts_between(s, p, block_strings::indent_from(s, a) as int) {
        assert forall|n: nat, p: int| #[trigger]
            block_strings::is_common_indent(s, n) && #[trigger] block_strings::is_cut(
                s,
                p,
            ) implies block_strings::cuts_between(s, p, n as int) by {
            let a = choose|a: int|
                0 < a <= s.len() && #[trigger] block_strings::text_line_at(s, a)
                    && block_strings::indent_from(s, a) == n;
            assert(is_text_line(s, a));
            assert forall|b: int| 0 < b && #[trigger] is_text_line(s, b) implies n
                <= block_strings::indent_from(s, b) by {
                assert(block_strings::text_line_at(s, b));
            }
        }
    }
}

/// A line is among those that are cut exactly where it is not the first, and stands
/// between two lines that are not blank or is one itself.
pub proof fn law_which_lines_are_cut(s: Seq<char>, p: int)
    ensures
        block_strings::is_cut(s, p) <==> {
            &&& 0 < p <= s.len()
            &&& s[p - 1] == '\n'
            &&& exists|a: int| a <= p && #[trigger] is_text_line(s, a)
            &&& exists|b: int| p <= b && #[trigger] is_text_line(s, b)
        },
{
    assert forall|k: int| 0 <= k <= s.len() implies #[trigger] block_strings::text_line_at(s, k)
        == is_text_line(s, k) by {
        law_text_lines(s, k);
    }
    if block_strings::is_cut(s, p) {
        let a = choose|a: int| 0 <= a <= p && #[trigger] block_strings::text_line_at(s, a);
        let b = choose|b: int| p <= b <= s.len() && #[trigger] block_strings::text_line_at(s, b);
        assert(is_text_line(s, a) && is_text_line(s, b));
    }
    if exists|a: int| a <= p && #[trigger] is_text_line(s, a) {
        let a = choose|a: int| a <= p && #[trigger] is_text_line(s, a);
        assert(0 <= a <= s.len());
        assert(block_strings::text_line_at(s, a));
    }
    if exists|b: int| p <= b && #[trigger] is_text_line(s, b) {
        let b = choose|b: int| p <= b && #[trigger] is_text_line(s, b);
        assert(b <= s.len());
        assert(0 < p ==> block_strings::text_line_at(s, b) == is_text_line(s, b));
    }
}

/// In a string a backslash takes with it the character behind it, which may be a
/// quote or another backslash; a line that ends leaves the string open.
pub proof fn law_escapes_in_strings(raw: Seq<char>, p: int)
    requires
        0 <= p < raw.len(),
    ensures
        raw[p] == '\\' && p + 1 < raw.len() && raw[p + 1] != '\n' ==> block_strings::string_end(
            raw,
            p,
            false,
        ) == block_strings::string_end(raw, p + 2, false),
        raw[p] == '"' ==> block_strings::string_end(raw, p, false) == Some(p),
        raw[p] == '\n' ==> block_strings::string_end(raw, p, false) is None,
        block_strings::string_end(raw, raw.len() as int, false) is None,
{
    if raw[p] == '\\' && p + 1 < raw.len() && raw[p + 1] != '\n' {
        assert(block_strings::string_end(raw, p, false) == block_strings::string_end(
            raw,
            p + 1,
            true,
        ));
    }
}

/// In a block string three quotes behind a backslash are passed over.
pub proof fn law_escapes_in_block_strings(raw: Seq<char>, start: int, p: int)
    requires
        0 <= start < p,
        p + 3 <= raw.len(),
        raw[p - 1] == '\\',
        raw[p] == '"',
        raw[p + 1] == '"',
        raw[p + 2] == '"',
    ensures
        block_strings::closing(raw, start, p) == block_strings::closing(raw, start, p + 3),
{
}

/// A string or a block string that is not closed ends what the parser reads.
pub proof fn law_open_strings(s: Seq<char>)
    requires
        forall|k: int| 0 <= k < s.len() ==> #[trigger] s[k] != '"',
    ensures
        block_strings::block_strings_safe(seq!['"'] + s),
        block_strings::block_strings_safe(seq!['"', '"', '"'] + s),
{
    let a = seq!['"'] + s;
    let b = seq!['"', '"', '"'] + s;
    assert forall|k: int| 1 <= k < a.len() implies #[trigger] a[k] != '"' by {
        assert(a[k] == s[k - 1]);
    }
    assert forall|k: int| 3 <= k < b.len() implies #[trigger] b[k] != '"' by {
        assert(b[k] == s[k - 3]);
    }
    lemma_open(a, 1, false);
    lemma_open_block(b, 3, 3);
}

proof fn lemma_open(raw: Seq<char>, p: int, escaped: bool)
    requires
        0 <= p,
        forall|k: int| p <= k < raw.len() ==> #[trigger] raw[k] != '"',
    ensures
        block_strings::string_end(raw, p, escaped) is None,
    decreases raw.len() - p,
{
    if p < raw.len() {
        assert(raw[p] != '"');
        lemma_open(raw, p + 1, !escaped && raw[p] == '\\');
    }
}

proof fn lemma_open_block(raw: Seq<char>, start: int, p: int)
    requires
        0 <= start <= p,
        forall|k: int| p <= k < raw.len() ==> #[trigger] raw[k] != '"',
    ensures
        block_strings::closing(raw, start, p) is None,
    decreases raw.len() - p,
{
    if p <= raw.len() - 3 {
        assert(raw[p] != '"');
        lemma_open_block(raw, start, p + 1);
    }
}

} // verus!
