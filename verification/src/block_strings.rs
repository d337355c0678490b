//! Block strings, and cutting the common indentation off their lines.
//!
//! The parser cuts each line of a block string but the first at the byte at which
//! the shortest indentation ends. Where lines are indented with different white
//! space outside ASCII, that byte can lie inside a character.
use vstd::prelude::*;
use crate::text;
use crate::text::{chars_of, white_space};

verus! {

/// How many bytes a character takes in UTF-8.
pub open spec fn width(c: char) -> nat {
    let n = c as u32;
    if n < 0x80 {
        1
    } else if n < 0x800 {
        2
    } else if n < 0x1_0000 {
        3
    } else {
        4
    }
}

/// Whether a line begins at `p`: `p` is the beginning or stands behind a line
/// feed.
pub open spec fn line_at(s: Seq<char>, p: int) -> bool {
    p == 0 || (0 < p <= s.len() && s[p - 1] == '\n')
}

/// Whether there is nothing but white space from `p` to the end of the line.
pub open spec fn blank_from(s: Seq<char>, p: int) -> bool
    decreases s.len() - p,
{
    p >= s.len() || s[p] == '\n' || (text::is_white_space(s[p]) && blank_from(s, p + 1))
}

/// How many bytes of white space there are from `p` on in the line.
pub open spec fn indent_from(s: Seq<char>, p: int) -> nat
    decreases s.len() - p,
{
    if p >= s.len() || s[p] == '\n' || !text::is_white_space(s[p]) {
        0
    } else {
        width(s[p]) + indent_from(s, p + 1)
    }
}

/// Whether `n` bytes from `p` on are whole characters, or more than the line has.
pub open spec fn cuts_between(s: Seq<char>, p: int, n: int) -> bool
    decreases s.len() - p,
{
    n <= 0 || p >= s.len() || s[p] == '\n' || (width(s[p]) <= n && cuts_between(
        s,
        p + 1,
        n - width(s[p]),
    ))
}

/// Whether a line that is not blank begins at `p`.
pub open spec fn text_line_at(s: Seq<char>, p: int) -> bool {
    line_at(s, p) && !blank_from(s, p)
}

/// Whether `n` bytes are the least indentation of the lines of a block string
/// that are neither the first nor blank.
pub open spec fn is_common_indent(s: Seq<char>, n: nat) -> bool {
    &&& exists|p: int| 0 < p <= s.len() && #[trigger] text_line_at(s, p) && indent_from(s, p) == n
    &&& forall|p: int| 0 < p <= s.len() && #[trigger] text_line_at(s, p) ==> n <= indent_from(s, p)
}

/// Whether the line at `p` is among those that are cut: it is not the first, and
/// it is none of the blank lines before the first line that is not blank or
/// behind the last.
pub open spec fn is_cut(s: Seq<char>, p: int) -> bool {
    &&& 0 < p <= s.len()
    &&& line_at(s, p)
    &&& exists|a: int| 0 <= a <= p && #[trigger] text_line_at(s, a)
    &&& exists|b: int| p <= b <= s.len() && #[trigger] text_line_at(s, b)
}

/// Whether the common indentation of a block string ends between two characters
/// in each of the lines that are cut.
pub open spec fn cuts_safely(s: Seq<char>) -> bool {
    forall|n: nat, p: int| #[trigger]
        is_common_indent(s, n) && #[trigger] is_cut(s, p) ==> cuts_between(s, p, n as int)
}

/// Whether three double quotes stand at the place `i` of a text.
pub open spec fn quotes_at(raw: Seq<char>, i: int) -> bool {
    0 <= i <= raw.len() - 3 && raw[i] == '"' && raw[i + 1] == '"' && raw[i + 2] == '"'
}

/// Where a block string whose contents begin at `start` ends, seen from `p` on: at
/// the next three quotes that no backslash in the contents escapes.
pub open spec fn closing(raw: Seq<char>, start: int, p: int) -> Option<int>
    decreases raw.len() - p,
{
    if p > raw.len() - 3 {
        None
    } else if !quotes_at(raw, p) {
        closing(raw, start, p + 1)
    } else if p > start && raw[p - 1] == '\\' {
        closing(raw, start, p + 3)
    } else {
        Some(p)
    }
}

/// Where the comment ends that goes on at `p`: behind the next carriage return or
/// line feed.
pub open spec fn comment_end(raw: Seq<char>, p: int) -> int
    decreases raw.len() - p,
{
    if p >= raw.len() {
        p
    } else if raw[p] == '\r' || raw[p] == '\n' {
        p + 1
    } else {
        comment_end(raw, p + 1)
    }
}

/// Where the string ends that goes on at `p`: at the next quote that is not
/// escaped, if it stands in the same line.
pub open spec fn string_end(raw: Seq<char>, p: int, escaped: bool) -> Option<int>
    decreases raw.len() - p,
{
    if p >= raw.len() || raw[p] == '\n' {
        None
    } else if raw[p] == '"' && !escaped {
        Some(p)
    } else {
        string_end(raw, p + 1, !escaped && raw[p] == '\\')
    }
}

/// Whether a character can stand in a document outside comments and strings.
pub open spec fn is_plain_char(c: char) -> bool {
    ||| 'a' <= c <= 'z'
    ||| 'A' <= c <= 'Z'
    ||| '0' <= c <= '9'
    ||| c == '_' || c == '-' || c == '+' || c == '.'
    ||| c == '(' || c == ')' || c == '[' || c == ']' || c == '{' || c == '}'
    ||| c == '!' || c == '$' || c == ':' || c == '=' || c == '@' || c == '|' || c == '&'
    ||| c == ' ' || c == '\t' || c == '\r' || c == '\n' || c == ',' || c == '\u{feff}'
}

/// Comments and strings end behind their beginning.
pub proof fn lemma_ends(raw: Seq<char>, p: int)
    requires
        p >= 0,
    ensures
        comment_end(raw, p) >= p,
        p <= raw.len() ==> comment_end(raw, p) <= raw.len(),
        string_end(raw, p, false) matches Some(end) ==> p <= end < raw.len(),
        string_end(raw, p, true) matches Some(end) ==> p <= end < raw.len(),
    decreases raw.len() - p,
{
    if p < raw.len() {
        lemma_ends(raw, p + 1);
    }
}

/// Block strings end behind their beginning.
pub proof fn lemma_closing(raw: Seq<char>, start: int, p: int)
    requires
        p >= 0,
    ensures
        closing(raw, start, p) matches Some(end) ==> p <= end <= raw.len() - 3,
    decreases raw.len() - p,
{
    if p <= raw.len() - 3 {
        lemma_closing(raw, start, p + 1);
        lemma_closing(raw, start, p + 3);
    }
}

/// Whether the lines of each block string can be cut that the parser meets when it
/// goes on at `p`, outside comments and strings. It stops at a string that does not
/// end, and at a character that cannot stand there.
pub open spec fn safe_from(raw: Seq<char>, p: int) -> bool
    decreases raw.len() - p,
{
    proof {
        if 0 <= p < raw.len() {
            lemma_ends(raw, p + 1);
            lemma_closing(raw, p + 3, p + 3);
        }
    }
    if p < 0 || p >= raw.len() {
        true
    } else if raw[p] == '#' {
        safe_from(raw, comment_end(raw, p + 1))
    } else if quotes_at(raw, p) {
        match closing(raw, p + 3, p + 3) {
            Some(end) => cuts_safely(raw.subrange(p + 3, end)) && safe_from(raw, end + 3),
            None => true,
        }
    } else if raw[p] == '"' {
        match string_end(raw, p + 1, false) {
            Some(end) => safe_from(raw, end + 1),
            None => true,
        }
    } else if is_plain_char(raw[p]) {
        safe_from(raw, p + 1)
    } else {
        true
    }
}

/// Whether the lines of each block string of a text can be cut.
pub open spec fn block_strings_safe(raw: Seq<char>) -> bool {
    safe_from(raw, 0)
}

/// How many bytes a character takes in UTF-8.
fn width_of(c: char) -> (r: u128)
    ensures
        r == width(c),
{
    let n: u32 = c as u32;
    if n < 0x80 {
        1
    } else if n < 0x800 {
        2
    } else if n < 0x1_0000 {
        3
    } else {
        4
    }
}

/// Decides `text_line_at`.
fn is_text_line(cs: &Vec<char>, p: usize) -> (r: bool)
    requires
        p <= cs@.len(),
    ensures
        r == text_line_at(cs@, p as int),
{
    if p > 0 && cs[p - 1] != '\n' {
        return false;
    }
    let mut i: usize = p;
    while i < cs.len() && cs[i] != '\n' && white_space(cs[i])
        invariant
            p <= i <= cs@.len(),
            blank_from(cs@, p as int) == blank_from(cs@, i as int),
        decreases cs@.len() - i,
    {
        i += 1;
    }
    i < cs.len() && cs[i] != '\n'
}

/// Computes `indent_from`.
fn indent_of(cs: &Vec<char>, p: usize) -> (r: u128)
    requires
        p <= cs@.len(),
    ensures
        r == indent_from(cs@, p as int),
{
    let mut n: u128 = 0;
    let mut i: usize = p;
    while i < cs.len() && cs[i] != '\n' && white_space(cs[i])
        invariant
            p <= i <= cs@.len(),
            n <= 4 * i,
            n + indent_from(cs@, i as int) == indent_from(cs@, p as int),
        decreases cs@.len() - i,
    {
        n += width_of(cs[i]);
        i += 1;
    }
    n
}

/// Decides `cuts_between`.
fn is_cut_between(cs: &Vec<char>, p: usize, n: u128) -> (r: bool)
    requires
        p <= cs@.len(),
    ensures
        r == cuts_between(cs@, p as int, n as int),
{
    let mut rest: u128 = n;
    let mut i: usize = p;
    while rest > 0 && i < cs.len() && cs[i] != '\n'
        invariant
            p <= i <= cs@.len(),
            cuts_between(cs@, p as int, n as int) == cuts_between(cs@, i as int, rest as int),
        decreases cs@.len() - i,
    {
        let w: u128 = width_of(cs[i]);
        if w > rest {
            return false;
        }
        rest -= w;
        i += 1;
    }
    true
}

/// The common indentation of the lines of a block string, if a line behind the
/// first is not blank.
fn common_indent(cs: &Vec<char>) -> (r: Option<u128>)
    ensures
        match r {
            Some(n) => is_common_indent(cs@, n as nat),
            None => forall|p: int| 0 < p <= cs@.len() ==> !#[trigger] text_line_at(cs@, p),
        },
{
    let mut least: Option<u128> = None;
    let mut p: usize = 0;
    while p < cs.len()
        invariant
            p <= cs@.len(),
            match least {
                Some(n) => {
                    &&& exists|q: int|
                        0 < q <= p && #[trigger] text_line_at(cs@, q) && indent_from(cs@, q) == n
                    &&& forall|q: int|
                        0 < q <= p && #[trigger] text_line_at(cs@, q) ==> n <= indent_from(cs@, q)
                },
                None => forall|q: int| 0 < q <= p ==> !#[trigger] text_line_at(cs@, q),
            },
        decreases cs@.len() - p,
    {
        p += 1;
        if is_text_line(cs, p) {
            let n: u128 = indent_of(cs, p);
            assert(text_line_at(cs@, p as int) && indent_from(cs@, p as int) == n);
            least = match least {
                Some(m) => if m <= n {
                    Some(m)
                } else {
                    Some(n)
                },
                None => Some(n),
            };
        }
    }
    least
}

/// Decides `cuts_safely`.
fn is_cut_safely(cs: &Vec<char>) -> (r: bool)
    ensures
        r == cuts_safely(cs@),
{
    let n: u128 = match common_indent(cs) {
        Some(n) => n,
        None => {
            return true;
        },
    };
    // From the first line that is not blank on, lines are cut up to the last.
    let mut last: usize = cs.len();
    while last > 0 && !is_text_line(cs, last)
        invariant
            last <= cs@.len(),
            forall|b: int| last < b <= cs@.len() ==> !#[trigger] text_line_at(cs@, b),
        decreases last,
    {
        last -= 1;
    }
    let mut begun: bool = is_text_line(cs, 0);
    assert(begun ==> text_line_at(cs@, 0));
    let mut p: usize = 0;
    while p < last
        invariant
            p <= last <= cs@.len(),
            last > 0 ==> text_line_at(cs@, last as int),
            forall|b: int| last < b <= cs@.len() ==> !#[trigger] text_line_at(cs@, b),
            begun == (exists|a: int| 0 <= a <= p && #[trigger] text_line_at(cs@, a)),
            is_common_indent(cs@, n as nat),
            forall|q: int|
                0 < q <= p && #[trigger] is_cut(cs@, q) ==> cuts_between(cs@, q, n as int),
        decreases last - p,
    {
        p += 1;
        if is_text_line(cs, p) {
            assert(text_line_at(cs@, p as int));
            begun = true;
        }
        if begun && cs[p - 1] == '\n' && !is_cut_between(cs, p, n) {
            assert(text_line_at(cs@, last as int));
            assert(is_cut(cs@, p as int));
            assert(!cuts_between(cs@, p as int, n as nat as int));
            return false;
        }
    }
    proof {
        assert forall|m: nat, q: int| #[trigger]
            is_common_indent(cs@, m) && #[trigger] is_cut(cs@, q) implies cuts_between(
            cs@,
            q,
            m as int,
        ) by {
            assert(m == n);
        }
    }
    true
}

/// Finds where a block string whose contents begin at `start` ends.
fn find_closing(cs: &Vec<char>, start: usize) -> (r: Option<usize>)
    requires
        start <= cs@.len(),
    ensures
        match r {
            Some(end) => start <= end <= cs@.len() - 3 && closing(cs@, start as int, start as int)
                == Some(end as int),
            None => closing(cs@, start as int, start as int) is None,
        },
{
    let mut p: usize = start;
    while p < cs.len() && cs.len() - p >= 3
        invariant
            start <= p <= cs@.len(),
            closing(cs@, start as int, start as int) == closing(cs@, start as int, p as int),
        decreases cs@.len() - p,
    {
        if !(cs[p] == '"' && cs[p + 1] == '"' && cs[p + 2] == '"') {
            p += 1;
        } else if p > start && cs[p - 1] == '\\' {
            p += 3;
        } else {
            return Some(p);
        }
    }
    None
}

/// Computes `comment_end`.
fn find_comment_end(cs: &Vec<char>, start: usize) -> (r: usize)
    requires
        start <= cs@.len(),
    ensures
        start <= r <= cs@.len(),
        r == comment_end(cs@, start as int),
{
    let mut p: usize = start;
    while p < cs.len()
        invariant
            start <= p <= cs@.len(),
            comment_end(cs@, start as int) == comment_end(cs@, p as int),
        decreases cs@.len() - p,
    {
        if cs[p] == '\r' || cs[p] == '\n' {
            return p + 1;
        }
        p += 1;
    }
    p
}

/// Computes `string_end`.
fn find_string_end(cs: &Vec<char>, start: usize) -> (r: Option<usize>)
    requires
        start <= cs@.len(),
    ensures
        match r {
            Some(end) => start <= end < cs@.len() && string_end(cs@, start as int, false) == Some(
                end as int,
            ),
            None => string_end(cs@, start as int, false) is None,
        },
{
    let mut escaped: bool = false;
    let mut p: usize = start;
    while p < cs.len() && cs[p] != '\n'
        invariant
            start <= p <= cs@.len(),
            string_end(cs@, start as int, false) == string_end(cs@, p as int, escaped),
        decreases cs@.len() - p,
    {
        if cs[p] == '"' && !escaped {
            return Some(p);
        }
        escaped = !escaped && cs[p] == '\\';
        p += 1;
    }
    None
}

/// Decides `is_plain_char`.
fn plain_char(c: char) -> (r: bool)
    ensures
        r == is_plain_char(c),
{
    ('a' <= c && c <= 'z') || ('A' <= c && c <= 'Z') || ('0' <= c && c <= '9') || c == '_' || c
        == '-' || c == '+' || c == '.' || c == '(' || c == ')' || c == '[' || c == ']' || c == '{'
        || c == '}' || c == '!' || c == '$' || c == ':' || c == '=' || c == '@' || c == '|' || c
        == '&' || c == ' ' || c == '\t' || c == '\r' || c == '\n' || c == ',' || c == '\u{feff}'
}

/// The characters from one place to another.
fn copy_range(cs: &Vec<char>, start: usize, end: usize) -> (r: Vec<char>)
    requires
        start <= end <= cs@.len(),
    ensures
        r@ == cs@.subrange(start as int, end as int),
{
    let mut r: Vec<char> = Vec::new();
    let mut k: usize = start;
    while k < end
        invariant
            start <= k <= end <= cs@.len(),
            r@ == cs@.subrange(start as int, k as int),
        decreases end - k,
    {
        r.push(cs[k]);
        k += 1;
        assert(r@ =~= cs@.subrange(start as int, k as int));
    }
    r
}

/// Decides `block_strings_safe`.
pub fn has_safe_block_strings(raw: &str) -> (r: bool)
    ensures
        r == block_strings_safe(raw@),
{
    let cs = chars_of(raw);
    let mut p: usize = 0;
    while p < cs.len()
        invariant
            p <= cs@.len(),
            cs@ == raw@,
            block_strings_safe(raw@) == safe_from(raw@, p as int),
        decreases cs@.len() - p,
    {
        if cs[p] == '#' {
            p = find_comment_end(&cs, p + 1);
        } else if cs.len() - p >= 3 && cs[p] == '"' && cs[p + 1] == '"' && cs[p + 2] == '"' {
            match find_closing(&cs, p + 3) {
                Some(end) => {
                    if !is_cut_safely(&copy_range(&cs, p + 3, end)) {
                        return false;
                    }
                    p = end + 3;
                },
                None => {
                    return true;
                },
            }
        } else if cs[p] == '"' {
            match find_string_end(&cs, p + 1) {
                Some(end) => {
                    p = end + 1;
                },
                None => {
                    return true;
                },
            }
        } else if plain_char(cs[p]) {
            p += 1;
        } else {
            return true;
        }
    }
    true
}

} // verus!
