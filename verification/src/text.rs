//! Text handling: blank detection, display truncation and line splitting.

use vstd::prelude::*;
use crate::scan::{find_char, find_char_in, lemma_find_char};

verus! {

/// Characters counted as whitespace when deciding whether a unit of text
/// is blank and is therefore skipped: the Unicode white-space set, the
/// characters that trimming removes.
pub open spec fn is_space_char(c: char) -> bool {
    let u = c as int;
    ||| u == 0x09
    ||| u == 0x0a
    ||| u == 0x0b
    ||| u == 0x0c
    ||| u == 0x0d
    ||| u == 0x20
    ||| u == 0x85
    ||| u == 0xa0
    ||| u == 0x1680
    ||| (0x2000 <= u && u <= 0x200a)
    ||| u == 0x2028
    ||| u == 0x2029
    ||| u == 0x202f
    ||| u == 0x205f
    ||| u == 0x3000
}

pub fn char_is_space(c: char) -> (r: bool)
    ensures
        r == is_space_char(c),
{
    let u = c as u32;
    u == 0x09 || u == 0x0a || u == 0x0b || u == 0x0c || u == 0x0d || u == 0x20 || u == 0x85
        || u == 0xa0 || u == 0x1680 || (0x2000 <= u && u <= 0x200a) || u == 0x2028 || u == 0x2029
        || u == 0x202f || u == 0x205f || u == 0x3000
}

/// A text is blank when every character is whitespace; a blank unit is
/// skipped, never analyzed.
pub open spec fn is_blank(s: Seq<char>) -> bool {
    forall|i: int| 0 <= i < s.len() ==> is_space_char(s[i])
}

pub fn text_is_blank(s: &str) -> (r: bool)
    ensures
        r == is_blank(s@),
{
    let n = s.unicode_len();
    let mut i: usize = 0;
    while i < n
        invariant
            i <= n,
            n == s@.len(),
            forall|j: int| 0 <= j < i ==> is_space_char(s@[j]),
        decreases n - i,
    {
        if !char_is_space(s.get_char(i)) {
            return false;
        }
        i += 1;
    }
    true
}

/// Longest text shown on a report line; longer texts are cut at this many
/// characters.
pub const MAX_DISPLAY_CHARS: usize = 50;

/// Display form of a text: unchanged up to the display limit, a plain
/// character prefix of that length beyond it.
pub open spec fn display_of(s: Seq<char>) -> Seq<char> {
    if s.len() <= MAX_DISPLAY_CHARS {
        s
    } else {
        s.take(MAX_DISPLAY_CHARS as int)
    }
}

/// The display form never exceeds the display limit, and texts at or
/// under the limit are unchanged.
pub proof fn lemma_display_truncation(s: Seq<char>)
    ensures
        display_of(s).len() <= MAX_DISPLAY_CHARS,
        s.len() <= MAX_DISPLAY_CHARS ==> display_of(s) == s,
{
}

pub fn truncate_display(s: &str) -> (r: String)
    ensures
        r@ == display_of(s@),
{
    let n = s.unicode_len();
    if n <= MAX_DISPLAY_CHARS {
        String::from_str(s)
    } else {
        String::from_str(s.substring_char(0, MAX_DISPLAY_CHARS))
    }
}

/// The views of a sequence of strings.
pub open spec fn views_of(v: Seq<String>) -> Seq<Seq<char>> {
    v.map_values(|s: String| s@)
}

pub proof fn lemma_views_of_concat(a: Seq<String>, b: Seq<String>)
    ensures
        views_of(a + b) == views_of(a) + views_of(b),
{
    assert(views_of(a + b) =~= views_of(a) + views_of(b));
}

/// A raw line with one trailing carriage return removed.
pub open spec fn chomp_spec(s: Seq<char>) -> Seq<char> {
    if s.len() > 0 && s.last() == '\r' {
        s.drop_last()
    } else {
        s
    }
}

/// The lines of a text, split at newline characters, each with a trailing
/// carriage return removed; a trailing newline ends the last line rather
/// than opening an empty one.
pub open spec fn split_lines_spec(s: Seq<char>) -> Seq<Seq<char>>
    decreases s.len(),
{
    if s.len() == 0 {
        Seq::<Seq<char>>::empty()
    } else {
        let i = find_char(s, '\n') as int;
        if 0 <= i < s.len() {
            seq![chomp_spec(s.take(i))] + split_lines_spec(s.skip(i + 1))
        } else {
            seq![chomp_spec(s)]
        }
    }
}

fn chomp(s: &str) -> (r: String)
    ensures
        r@ == chomp_spec(s@),
{
    let n = s.unicode_len();
    if n > 0 && s.get_char(n - 1) == '\r' {
        proof {
            assert(s@.subrange(0, n - 1) =~= s@.drop_last());
        }
        String::from_str(s.substring_char(0, n - 1))
    } else {
        String::from_str(s)
    }
}

/// Splits a text into its lines; element `i` of the result is line `i`
/// of the text, blank lines included.
pub fn split_lines(s: &str) -> (r: Vec<String>)
    ensures
        r@.len() == split_lines_spec(s@).len(),
        forall|i: int| 0 <= i < r@.len() ==> r@[i]@ == split_lines_spec(s@)[i],
    decreases s@.len(),
{
    let n = s.unicode_len();
    if n == 0 {
        return Vec::new();
    }
    let i = find_char_in(s, '\n');
    proof {
        lemma_find_char(s@, '\n');
    }
    if i < n {
        let head = chomp(s.substring_char(0, i));
        let rest = s.substring_char(i + 1, n);
        proof {
            assert(s@.subrange(0, i as int) =~= s@.take(i as int));
            assert(rest@ =~= s@.skip(i + 1));
        }
        let mut tail = split_lines(rest);
        tail.insert(0, head);
        proof {
            assert(split_lines_spec(s@) == seq![chomp_spec(s@.take(i as int))] + split_lines_spec(s@.skip(i + 1)));
        }
        tail
    } else {
        let mut out: Vec<String> = Vec::new();
        out.push(chomp(s));
        out
    }
}

} // verus!
