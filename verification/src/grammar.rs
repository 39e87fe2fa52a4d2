//! The grammar of one record line, and the tokenizer that splits a line
//! into its fields.
//!
//! A record is, in this order: an address range (two hexadecimal tokens
//! joined by `-`), four permission flags, an offset (hexadecimal), a device
//! (two hexadecimal tokens joined by `:`), an inode (decimal), and a
//! pathname that takes the rest of the line. Fields are separated by one or
//! more spaces or tabs; the pathname may be missing, with or without blanks
//! after the inode.

use vstd::prelude::*;
use vstd::slice::slice_subrange;
use crate::chars::{is_blank, lemma_run_end, run_end, scan_run, CharClass};
use crate::error::{Expected, GrammarError, Mismatch};

verus! {

/// The fields of one record, each a piece of the line it was cut from.
#[derive(Debug, Clone, Copy, PartialEq, Eq)]
pub struct Fields<'a> {
    pub begin: &'a [char],
    pub end: &'a [char],
    pub permissions: &'a [char],
    pub offset: &'a [char],
    pub major: &'a [char],
    pub minor: &'a [char],
    pub inode: &'a [char],
    pub pathname: &'a [char],
}

/// The mathematical model of [`Fields`]: the text of each field.
pub struct FieldTexts {
    pub begin: Seq<char>,
    pub end: Seq<char>,
    pub permissions: Seq<char>,
    pub offset: Seq<char>,
    pub major: Seq<char>,
    pub minor: Seq<char>,
    pub inode: Seq<char>,
    pub pathname: Seq<char>,
}

impl<'a> View for Fields<'a> {
    type V = FieldTexts;

    open spec fn view(&self) -> FieldTexts {
        FieldTexts {
            begin: self.begin@,
            end: self.end@,
            permissions: self.permissions@,
            offset: self.offset@,
            major: self.major@,
            minor: self.minor@,
            inode: self.inode@,
            pathname: self.pathname@,
        }
    }
}

/// Where the pieces of a line lie, as positions counted in characters.
/// The first address starts at position 0 and the pathname ends with the
/// line.
pub struct Layout {
    pub begin_end: int,
    pub end_start: int,
    pub end_end: int,
    pub permissions_start: int,
    pub permissions_end: int,
    pub offset_start: int,
    pub offset_end: int,
    pub major_start: int,
    pub major_end: int,
    pub minor_start: int,
    pub minor_end: int,
    pub inode_start: int,
    pub inode_end: int,
    pub pathname_start: int,
}

/// The layout that the grammar gives to `line`: each token is the longest
/// run of its class, each separator the longest run of blanks, and the `-`,
/// the `:` and the four flags take one position each. Where the line departs
/// from the grammar, only the positions before the departure mean anything.
pub open spec fn layout_of(line: Seq<char>) -> Layout {
    let begin_end = run_end(line, 0, CharClass::Hex);
    let end_start = begin_end + 1;
    let end_end = run_end(line, end_start, CharClass::Hex);
    let permissions_start = run_end(line, end_end, CharClass::Blank);
    let permissions_end = permissions_start + 4;
    let offset_start = run_end(line, permissions_end, CharClass::Blank);
    let offset_end = run_end(line, offset_start, CharClass::Hex);
    let major_start = run_end(line, offset_end, CharClass::Blank);
    let major_end = run_end(line, major_start, CharClass::Hex);
    let minor_start = major_end + 1;
    let minor_end = run_end(line, minor_start, CharClass::Hex);
    let inode_start = run_end(line, minor_end, CharClass::Blank);
    let inode_end = run_end(line, inode_start, CharClass::Dec);
    let pathname_start = run_end(line, inode_end, CharClass::Blank);
    Layout {
        begin_end,
        end_start,
        end_end,
        permissions_start,
        permissions_end,
        offset_start,
        offset_end,
        major_start,
        major_end,
        minor_start,
        minor_end,
        inode_start,
        inode_end,
        pathname_start,
    }
}

/// The character `c` stands at position `at`.
pub open spec fn char_at(line: Seq<char>, at: int, c: char) -> bool {
    0 <= at < line.len() && line[at] == c
}

/// The first place where `line` departs from the record grammar, with what
/// was expected there; `None` where the line is a record.
pub open spec fn mismatch_of(line: Seq<char>) -> Option<Mismatch> {
    let at = layout_of(line);
    if at.begin_end == 0 {
        Some(Mismatch { position: 0, expected: Expected::HexDigit })
    } else if !char_at(line, at.begin_end, '-') {
        Some(Mismatch { position: at.begin_end, expected: Expected::Dash })
    } else if at.end_end == at.end_start {
        Some(Mismatch { position: at.end_start, expected: Expected::HexDigit })
    } else if at.permissions_start == at.end_end {
        Some(Mismatch { position: at.end_end, expected: Expected::Separator })
    } else if !(char_at(line, at.permissions_start, 'r') || char_at(
        line,
        at.permissions_start,
        '-',
    )) {
        Some(Mismatch { position: at.permissions_start, expected: Expected::ReadFlag })
    } else if !(char_at(line, at.permissions_start + 1, 'w') || char_at(
        line,
        at.permissions_start + 1,
        '-',
    )) {
        Some(Mismatch { position: at.permissions_start + 1, expected: Expected::WriteFlag })
    } else if !(char_at(line, at.permissions_start + 2, 'x') || char_at(
        line,
        at.permissions_start + 2,
        'e',
    ) || char_at(line, at.permissions_start + 2, '-')) {
        Some(Mismatch { position: at.permissions_start + 2, expected: Expected::ExecuteFlag })
    } else if !(char_at(line, at.permissions_start + 3, 's') || char_at(
        line,
        at.permissions_start + 3,
        'p',
    )) {
        Some(Mismatch { position: at.permissions_start + 3, expected: Expected::ShareFlag })
    } else if at.offset_start == at.permissions_end {
        Some(Mismatch { position: at.permissions_end, expected: Expected::Separator })
    } else if at.offset_end == at.offset_start {
        Some(Mismatch { position: at.offset_start, expected: Expected::HexDigit })
    } else if at.major_start == at.offset_end {
        Some(Mismatch { position: at.offset_end, expected: Expected::Separator })
    } else if at.major_end == at.major_start {
        Some(Mismatch { position: at.major_start, expected: Expected::HexDigit })
    } else if !char_at(line, at.major_end, ':') {
        Some(Mismatch { position: at.major_end, expected: Expected::Colon })
    } else if at.minor_end == at.minor_start {
        Some(Mismatch { position: at.minor_start, expected: Expected::HexDigit })
    } else if at.inode_start == at.minor_end {
        Some(Mismatch { position: at.minor_end, expected: Expected::Separator })
    } else if at.inode_end == at.inode_start {
        Some(Mismatch { position: at.inode_start, expected: Expected::DecDigit })
    } else if at.inode_end < line.len() && !is_blank(line[at.inode_end]) {
        Some(Mismatch { position: at.inode_end, expected: Expected::Separator })
    } else {
        None
    }
}

/// The texts that lie at the positions of the layout of `line`.
pub open spec fn texts_of(line: Seq<char>) -> FieldTexts {
    let at = layout_of(line);
    FieldTexts {
        begin: line.subrange(0, at.begin_end),
        end: line.subrange(at.end_start, at.end_end),
        permissions: line.subrange(at.permissions_start, at.permissions_end),
        offset: line.subrange(at.offset_start, at.offset_end),
        major: line.subrange(at.major_start, at.major_end),
        minor: line.subrange(at.minor_start, at.minor_end),
        inode: line.subrange(at.inode_start, at.inode_end),
        pathname: line.subrange(at.pathname_start, line.len() as int),
    }
}

/// The fields of `line`, or the first place where it departs from the
/// record grammar.
pub open spec fn tokenize_spec(line: Seq<char>) -> Result<FieldTexts, Mismatch> {
    match mismatch_of(line) {
        Some(m) => Err(m),
        None => Ok(texts_of(line)),
    }
}

/// Whether one of `a` and `b` stands at position `at`.
fn has_either(line: &[char], at: usize, a: char, b: char) -> (r: bool)
    ensures
        r == (char_at(line@, at as int, a) || char_at(line@, at as int, b)),
{
    at < line.len() && (line[at] == a || line[at] == b)
}

/// Splits `line` into the fields of a record. Fails at the first character
/// that the grammar does not allow in its place.
pub fn tokenize<'a>(line: &'a [char]) -> (r: Result<Fields<'a>, GrammarError>)
    ensures
        match tokenize_spec(line@) {
            Ok(texts) => r matches Ok(fields) && fields@ == texts,
            Err(m) => r matches Err(e) && e@ == m,
        },
{
    let n = line.len();
    let begin_end = scan_run(line, 0, CharClass::Hex);
    if begin_end == 0 {
        return Err(GrammarError { position: 0, expected: Expected::HexDigit });
    }
    if !(begin_end < n && line[begin_end] == '-') {
        return Err(GrammarError { position: begin_end, expected: Expected::Dash });
    }
    let end_start = begin_end + 1;
    let end_end = scan_run(line, end_start, CharClass::Hex);
    if end_end == end_start {
        return Err(GrammarError { position: end_start, expected: Expected::HexDigit });
    }
    let permissions_start = scan_run(line, end_end, CharClass::Blank);
    if permissions_start == end_end {
        return Err(GrammarError { position: end_end, expected: Expected::Separator });
    }
    if !has_either(line, permissions_start, 'r', '-') {
        return Err(GrammarError { position: permissions_start, expected: Expected::ReadFlag });
    }
    if !has_either(line, permissions_start + 1, 'w', '-') {
        return Err(
            GrammarError { position: permissions_start + 1, expected: Expected::WriteFlag },
        );
    }
    if !(has_either(line, permissions_start + 2, 'x', 'e') || has_either(
        line,
        permissions_start + 2,
        '-',
        '-',
    )) {
        return Err(
            GrammarError { position: permissions_start + 2, expected: Expected::ExecuteFlag },
        );
    }
    if !has_either(line, permissions_start + 3, 's', 'p') {
        return Err(
            GrammarError { position: permissions_start + 3, expected: Expected::ShareFlag },
        );
    }
    let permissions_end = permissions_start + 4;
    let offset_start = scan_run(line, permissions_end, CharClass::Blank);
    if offset_start == permissions_end {
        return Err(GrammarError { position: permissions_end, expected: Expected::Separator });
    }
    let offset_end = scan_run(line, offset_start, CharClass::Hex);
    if offset_end == offset_start {
        return Err(GrammarError { position: offset_start, expected: Expected::HexDigit });
    }
    let major_start = scan_run(line, offset_end, CharClass::Blank);
    if major_start == offset_end {
        return Err(GrammarError { position: offset_end, expected: Expected::Separator });
    }
    let major_end = scan_run(line, major_start, CharClass::Hex);
    if major_end == major_start {
        return Err(GrammarError { position: major_start, expected: Expected::HexDigit });
    }
    if !(major_end < n && line[major_end] == ':') {
        return Err(GrammarError { position: major_end, expected: Expected::Colon });
    }
    let minor_start = major_end + 1;
    let minor_end = scan_run(line, minor_start, CharClass::Hex);
    if minor_end == minor_start {
        return Err(GrammarError { position: minor_start, expected: Expected::HexDigit });
    }
    let inode_start = scan_run(line, minor_end, CharClass::Blank);
    if inode_start == minor_end {
        return Err(GrammarError { position: minor_end, expected: Expected::Separator });
    }
    let inode_end = scan_run(line, inode_start, CharClass::Dec);
    if inode_end == inode_start {
        return Err(GrammarError { position: inode_start, expected: Expected::DecDigit });
    }
    let pathname_start = scan_run(line, inode_end, CharClass::Blank);
    proof {
        if inode_end < n && is_blank(line@[inode_end as int]) {
            lemma_run_end(line@, inode_end + 1, CharClass::Blank);
        }
    }
    if inode_end < n && pathname_start == inode_end {
        return Err(GrammarError { position: inode_end, expected: Expected::Separator });
    }
    Ok(
        Fields {
            begin: slice_subrange(line, 0, begin_end),
            end: slice_subrange(line, end_start, end_end),
            permissions: slice_subrange(line, permissions_start, permissions_end),
            offset: slice_subrange(line, offset_start, offset_end),
            major: slice_subrange(line, major_start, major_end),
            minor: slice_subrange(line, minor_start, minor_end),
            inode: slice_subrange(line, inode_start, inode_end),
            pathname: slice_subrange(line, pathname_start, n),
        },
    )
}

} // verus!
