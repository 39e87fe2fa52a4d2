//! Character classes of a record line, and maximal runs of one class.

use vstd::prelude::*;

verus! {

/// A lowercase hexadecimal digit.
pub open spec fn is_hex_digit(c: char) -> bool {
    ('0' <= c && c <= '9') || ('a' <= c && c <= 'f')
}

/// A decimal digit.
pub open spec fn is_dec_digit(c: char) -> bool {
    '0' <= c && c <= '9'
}

/// A character that separates two fields: a space or a horizontal tab.
pub open spec fn is_blank(c: char) -> bool {
    c == ' ' || c == '\t'
}

/// A character that does not end a line: anything but a line feed.
pub open spec fn is_inline(c: char) -> bool {
    c != '\n'
}

/// The classes of characters that make up tokens, separators and lines.
#[derive(Clone, Copy, Debug, PartialEq, Eq)]
pub enum CharClass {
    /// Lowercase hexadecimal digits.
    Hex,
    /// Decimal digits.
    Dec,
    /// Spaces and tabs.
    Blank,
    /// Everything but the line feed.
    Inline,
}

impl CharClass {
    /// Membership of `c` in the class.
    pub open spec fn holds(self, c: char) -> bool {
        match self {
            CharClass::Hex => is_hex_digit(c),
            CharClass::Dec => is_dec_digit(c),
            CharClass::Blank => is_blank(c),
            CharClass::Inline => is_inline(c),
        }
    }

    /// Tests whether `c` belongs to the class.
    pub fn contains(self, c: char) -> (r: bool)
        ensures
            r == self.holds(c),
    {
        match self {
            CharClass::Hex => ('0' <= c && c <= '9') || ('a' <= c && c <= 'f'),
            CharClass::Dec => '0' <= c && c <= '9',
            CharClass::Blank => c == ' ' || c == '\t',
            CharClass::Inline => c != '\n',
        }
    }
}

/// Every character of `text` belongs to `class`.
pub open spec fn all_of(text: Seq<char>, class: CharClass) -> bool {
    forall|i: int| 0 <= i < text.len() ==> class.holds(#[trigger] text[i])
}

/// `text` is a token of `class`: one or more characters of the class.
pub open spec fn is_token(text: Seq<char>, class: CharClass) -> bool {
    text.len() > 0 && all_of(text, class)
}

/// The end of the longest run of `class` characters that starts at `from`:
/// the first position at or after `from` whose character is outside the
/// class, or the length of `s` if there is none.
pub open spec fn run_end(s: Seq<char>, from: int, class: CharClass) -> int
    decreases s.len() - from,
{
    if 0 <= from < s.len() && class.holds(s[from]) {
        run_end(s, from + 1, class)
    } else {
        from
    }
}

/// A run lies within the sequence, holds only characters of its class, and
/// cannot be extended.
pub proof fn lemma_run_end(s: Seq<char>, from: int, class: CharClass)
    requires
        0 <= from <= s.len(),
    ensures
        from <= run_end(s, from, class) <= s.len(),
        forall|i: int| from <= i < run_end(s, from, class) ==> class.holds(#[trigger] s[i]),
        run_end(s, from, class) < s.len() ==> !class.holds(s[run_end(s, from, class)]),
    decreases s.len() - from,
{
    if from < s.len() && class.holds(s[from]) {
        lemma_run_end(s, from + 1, class);
    }
}

/// A stretch of `class` characters that cannot be extended is the run that
/// starts at its first position.
pub proof fn lemma_run_end_is(s: Seq<char>, from: int, to: int, class: CharClass)
    requires
        0 <= from <= to <= s.len(),
        forall|i: int| from <= i < to ==> class.holds(#[trigger] s[i]),
        to < s.len() ==> !class.holds(s[to]),
    ensures
        run_end(s, from, class) == to,
    decreases to - from,
{
    if from < to {
        lemma_run_end_is(s, from + 1, to, class);
    }
}

/// A run in a suffix of `s` is the run at the same place in `s`.
pub proof fn lemma_run_end_shift(s: Seq<char>, from: int, class: CharClass)
    requires
        0 <= from <= s.len(),
    ensures
        run_end(s.skip(from), 0, class) == run_end(s, from, class) - from,
{
    lemma_run_end_shift_at(s, from, 0, class);
}

proof fn lemma_run_end_shift_at(s: Seq<char>, from: int, at: int, class: CharClass)
    requires
        0 <= from <= s.len(),
        0 <= at <= s.len() - from,
    ensures
        run_end(s.skip(from), at, class) == run_end(s, from + at, class) - from,
    decreases s.len() - from - at,
{
    if at < s.len() - from {
        assert(s.skip(from)[at] == s[from + at]);
        if class.holds(s[from + at]) {
            lemma_run_end_shift_at(s, from, at + 1, class);
        }
    }
}

/// Scans the run of `class` characters that starts at `from`.
pub fn scan_run(s: &[char], from: usize, class: CharClass) -> (end: usize)
    requires
        from <= s.len(),
    ensures
        end == run_end(s@, from as int, class),
        from <= end <= s.len(),
{
    let mut i: usize = from;
    while i < s.len() && class.contains(s[i])
        invariant
            from <= i <= s.len(),
            run_end(s@, from as int, class) == run_end(s@, i as int, class),
        decreases s.len() - i,
    {
        i = i + 1;
    }
    i
}

} // verus!
