//! The shape of a record line, stated as what a line is made of: the
//! fields and the blanks between them, written one after the other. The
//! tokenizer accepts exactly the lines of this shape and cuts them back
//! into the fields they were made of.

use vstd::prelude::*;
use crate::chars::{
    all_of, is_blank, is_token, lemma_run_end, lemma_run_end_is, run_end, CharClass,
};
use crate::error::Mismatch;
use crate::grammar::{layout_of, mismatch_of, texts_of, tokenize_spec, FieldTexts, Layout};

verus! {

/// The runs of blanks of a record line.
pub struct Gaps {
    pub after_range: Seq<char>,
    pub after_permissions: Seq<char>,
    pub after_offset: Seq<char>,
    pub after_device: Seq<char>,
    pub after_inode: Seq<char>,
}

/// `text` is a permission mask: four flags, each from its own alphabet.
pub open spec fn is_mask(text: Seq<char>) -> bool {
    &&& text.len() == 4
    &&& (text[0] == 'r' || text[0] == '-')
    &&& (text[1] == 'w' || text[1] == '-')
    &&& (text[2] == 'x' || text[2] == 'e' || text[2] == '-')
    &&& (text[3] == 's' || text[3] == 'p')
}

/// The fields and gaps are those of a record: the numbers are tokens of
/// their radix, the permissions are a mask, and the fields are kept apart
/// by blanks. A pathname does not start with a blank; where there is one,
/// blanks keep it apart from the inode.
pub open spec fn is_record(texts: FieldTexts, gaps: Gaps) -> bool {
    &&& is_token(texts.begin, CharClass::Hex)
    &&& is_token(texts.end, CharClass::Hex)
    &&& is_token(gaps.after_range, CharClass::Blank)
    &&& is_mask(texts.permissions)
    &&& is_token(gaps.after_permissions, CharClass::Blank)
    &&& is_token(texts.offset, CharClass::Hex)
    &&& is_token(gaps.after_offset, CharClass::Blank)
    &&& is_token(texts.major, CharClass::Hex)
    &&& is_token(texts.minor, CharClass::Hex)
    &&& is_token(gaps.after_device, CharClass::Blank)
    &&& is_token(texts.inode, CharClass::Dec)
    &&& all_of(gaps.after_inode, CharClass::Blank)
    &&& texts.pathname.len() > 0 ==> gaps.after_inode.len() > 0 && !is_blank(texts.pathname[0])
}

/// The line that is made of the given fields and gaps.
pub open spec fn assemble(texts: FieldTexts, gaps: Gaps) -> Seq<char> {
    texts.begin + seq!['-'] + texts.end + gaps.after_range + texts.permissions
        + gaps.after_permissions + texts.offset + gaps.after_offset + texts.major + seq![':']
        + texts.minor + gaps.after_device + texts.inode + gaps.after_inode + texts.pathname
}

/// The runs of blanks that lie between the fields of `line`.
pub open spec fn gaps_of(line: Seq<char>) -> Gaps {
    let at = layout_of(line);
    Gaps {
        after_range: line.subrange(at.end_end, at.permissions_start),
        after_permissions: line.subrange(at.permissions_end, at.offset_start),
        after_offset: line.subrange(at.offset_end, at.major_start),
        after_device: line.subrange(at.minor_end, at.inode_start),
        after_inode: line.subrange(at.inode_end, at.pathname_start),
    }
}

/// `piece` lies in `line` from position `from` up to position `to`.
pub open spec fn piece_at(line: Seq<char>, from: int, to: int, piece: Seq<char>) -> bool {
    0 <= from <= to <= line.len() && to - from == piece.len() && line.subrange(from, to) == piece
}

/// The fields and gaps lie in `line` one after the other, at the positions
/// of the layout, and fill it.
pub open spec fn placed(line: Seq<char>, texts: FieldTexts, gaps: Gaps, at: Layout) -> bool {
    &&& piece_at(line, 0, at.begin_end, texts.begin)
    &&& piece_at(line, at.begin_end, at.end_start, seq!['-'])
    &&& piece_at(line, at.end_start, at.end_end, texts.end)
    &&& piece_at(line, at.end_end, at.permissions_start, gaps.after_range)
    &&& piece_at(line, at.permissions_start, at.permissions_end, texts.permissions)
    &&& piece_at(line, at.permissions_end, at.offset_start, gaps.after_permissions)
    &&& piece_at(line, at.offset_start, at.offset_end, texts.offset)
    &&& piece_at(line, at.offset_end, at.major_start, gaps.after_offset)
    &&& piece_at(line, at.major_start, at.major_end, texts.major)
    &&& piece_at(line, at.major_end, at.minor_start, seq![':'])
    &&& piece_at(line, at.minor_start, at.minor_end, texts.minor)
    &&& piece_at(line, at.minor_end, at.inode_start, gaps.after_device)
    &&& piece_at(line, at.inode_start, at.inode_end, texts.inode)
    &&& piece_at(line, at.inode_end, at.pathname_start, gaps.after_inode)
    &&& piece_at(line, at.pathname_start, line.len() as int, texts.pathname)
}

/// The positions at which the fields and gaps lie in the line that is made
/// of them.
pub open spec fn layout_for(texts: FieldTexts, gaps: Gaps) -> Layout {
    let begin_end = texts.begin.len() as int;
    let end_start = begin_end + 1;
    let end_end = end_start + texts.end.len();
    let permissions_start = end_end + gaps.after_range.len();
    let permissions_end = permissions_start + texts.permissions.len();
    let offset_start = permissions_end + gaps.after_permissions.len();
    let offset_end = offset_start + texts.offset.len();
    let major_start = offset_end + gaps.after_offset.len();
    let major_end = major_start + texts.major.len();
    let minor_start = major_end + 1;
    let minor_end = minor_start + texts.minor.len();
    let inode_start = minor_end + gaps.after_device.len();
    let inode_end = inode_start + texts.inode.len();
    let pathname_start = inode_end + gaps.after_inode.len();
    Layout {
        begin_end,
        end_start,
        end_end,
        permissions_start,
        permissions_end,
        offset_start,
        offset_end,
        major_start,
        major_end,
        minor_start,
        minor_end,
        inode_start,
        inode_end,
        pathname_start,
    }
}

/// A piece that is appended to what precedes it lies right after it.
proof fn lemma_piece_appended(line: Seq<char>, pre: Seq<char>, piece: Seq<char>, rest: Seq<char>)
    requires
        line == pre + piece + rest,
    ensures
        piece_at(line, pre.len() as int, (pre.len() + piece.len()) as int, piece),
        line == pre + (piece + rest),
{
    assert(line.subrange(pre.len() as int, (pre.len() + piece.len()) as int) =~= piece);
    assert(pre + piece + rest =~= pre + (piece + rest));
}

/// The pieces of an assembled line lie where the lengths of the pieces
/// before them put them.
proof fn lemma_assembled_is_placed(texts: FieldTexts, gaps: Gaps)
    ensures
        placed(assemble(texts, gaps), texts, gaps, layout_for(texts, gaps)),
{
    let line = assemble(texts, gaps);
    let dash = seq!['-'];
    let colon = seq![':'];
    let empty = Seq::<char>::empty();
    let pre1 = texts.begin;
    let pre2 = pre1 + dash;
    let pre3 = pre2 + texts.end;
    let pre4 = pre3 + gaps.after_range;
    let pre5 = pre4 + texts.permissions;
    let pre6 = pre5 + gaps.after_permissions;
    let pre7 = pre6 + texts.offset;
    let pre8 = pre7 + gaps.after_offset;
    let pre9 = pre8 + texts.major;
    let pre10 = pre9 + colon;
    let pre11 = pre10 + texts.minor;
    let pre12 = pre11 + gaps.after_device;
    let pre13 = pre12 + texts.inode;
    let pre14 = pre13 + gaps.after_inode;
    let rest14 = texts.pathname;
    let rest13 = gaps.after_inode + rest14;
    let rest12 = texts.inode + rest13;
    let rest11 = gaps.after_device + rest12;
    let rest10 = texts.minor + rest11;
    let rest9 = colon + rest10;
    let rest8 = texts.major + rest9;
    let rest7 = gaps.after_offset + rest8;
    let rest6 = texts.offset + rest7;
    let rest5 = gaps.after_permissions + rest6;
    let rest4 = texts.permissions + rest5;
    let rest3 = gaps.after_range + rest4;
    let rest2 = texts.end + rest3;
    let rest1 = dash + rest2;
    assert(line == pre14 + texts.pathname + empty) by {
        assert(pre14 + texts.pathname + empty =~= pre14 + texts.pathname);
    }
    lemma_piece_appended(line, pre14, texts.pathname, empty);
    assert(texts.pathname + empty =~= rest14);
    lemma_piece_appended(line, pre13, gaps.after_inode, rest14);
    lemma_piece_appended(line, pre12, texts.inode, rest13);
    lemma_piece_appended(line, pre11, gaps.after_device, rest12);
    lemma_piece_appended(line, pre10, texts.minor, rest11);
    lemma_piece_appended(line, pre9, colon, rest10);
    lemma_piece_appended(line, pre8, texts.major, rest9);
    lemma_piece_appended(line, pre7, gaps.after_offset, rest8);
    lemma_piece_appended(line, pre6, texts.offset, rest7);
    lemma_piece_appended(line, pre5, gaps.after_permissions, rest6);
    lemma_piece_appended(line, pre4, texts.permissions, rest5);
    lemma_piece_appended(line, pre3, gaps.after_range, rest4);
    lemma_piece_appended(line, pre2, texts.end, rest3);
    lemma_piece_appended(line, pre1, dash, rest2);
    assert(line == empty + texts.begin + rest1) by {
        assert(empty + texts.begin =~= texts.begin);
    }
    lemma_piece_appended(line, empty, texts.begin, rest1);
}

/// A stretch of `class` characters that lies in the line and is followed by
/// the end of the line, or by a character outside the class, is the run
/// that starts at its first position.
proof fn lemma_run_placed(line: Seq<char>, from: int, to: int, run: Seq<char>, class: CharClass)
    requires
        piece_at(line, from, to, run),
        all_of(run, class),
        to < line.len() ==> !class.holds(line[to]),
    ensures
        run_end(line, from, class) == to,
{
    assert forall|i: int| from <= i < to implies class.holds(#[trigger] line[i]) by {
        assert(line[i] == line.subrange(from, to)[i - from]);
    }
    lemma_run_end_is(line, from, to, class);
}

/// The first character of a piece that lies in the line.
proof fn lemma_first_of_piece(line: Seq<char>, from: int, to: int, piece: Seq<char>)
    requires
        piece_at(line, from, to, piece),
        piece.len() > 0,
    ensures
        from < line.len(),
        line[from] == piece[0],
{
    assert(line[from] == line.subrange(from, to)[0]);
}

/// Where the fields and gaps of a record lie in a line one after the other,
/// the runs of the grammar end where the pieces end.
proof fn lemma_placed_layout(line: Seq<char>, texts: FieldTexts, gaps: Gaps, at: Layout)
    requires
        is_record(texts, gaps),
        placed(line, texts, gaps, at),
    ensures
        layout_of(line) == at,
{
    lemma_first_of_piece(line, at.begin_end, at.end_start, seq!['-']);
    lemma_run_placed(line, 0, at.begin_end, texts.begin, CharClass::Hex);
    lemma_first_of_piece(line, at.end_end, at.permissions_start, gaps.after_range);
    lemma_run_placed(line, at.end_start, at.end_end, texts.end, CharClass::Hex);
    lemma_first_of_piece(line, at.permissions_start, at.permissions_end, texts.permissions);
    lemma_run_placed(line, at.end_end, at.permissions_start, gaps.after_range, CharClass::Blank);
    lemma_first_of_piece(line, at.permissions_end, at.offset_start, gaps.after_permissions);
    lemma_first_of_piece(line, at.offset_start, at.offset_end, texts.offset);
    lemma_run_placed(
        line,
        at.permissions_end,
        at.offset_start,
        gaps.after_permissions,
        CharClass::Blank,
    );
    lemma_first_of_piece(line, at.offset_end, at.major_start, gaps.after_offset);
    lemma_run_placed(line, at.offset_start, at.offset_end, texts.offset, CharClass::Hex);
    lemma_first_of_piece(line, at.major_start, at.major_end, texts.major);
    lemma_run_placed(line, at.offset_end, at.major_start, gaps.after_offset, CharClass::Blank);
    lemma_first_of_piece(line, at.major_end, at.minor_start, seq![':']);
    lemma_run_placed(line, at.major_start, at.major_end, texts.major, CharClass::Hex);
    lemma_first_of_piece(line, at.minor_end, at.inode_start, gaps.after_device);
    lemma_run_placed(line, at.minor_start, at.minor_end, texts.minor, CharClass::Hex);
    lemma_first_of_piece(line, at.inode_start, at.inode_end, texts.inode);
    lemma_run_placed(line, at.minor_end, at.inode_start, gaps.after_device, CharClass::Blank);
    if gaps.after_inode.len() > 0 {
        lemma_first_of_piece(line, at.inode_end, at.pathname_start, gaps.after_inode);
    }
    lemma_run_placed(line, at.inode_start, at.inode_end, texts.inode, CharClass::Dec);
    if texts.pathname.len() > 0 {
        lemma_first_of_piece(line, at.pathname_start, line.len() as int, texts.pathname);
    }
    lemma_run_placed(line, at.inode_end, at.pathname_start, gaps.after_inode, CharClass::Blank);
}

/// Where the fields and gaps of a record lie in a line one after the other,
/// the line has no mismatch.
proof fn lemma_placed_matches(line: Seq<char>, texts: FieldTexts, gaps: Gaps, at: Layout)
    requires
        is_record(texts, gaps),
        placed(line, texts, gaps, at),
        layout_of(line) == at,
    ensures
        mismatch_of(line) is None,
{
    lemma_first_of_piece(line, at.begin_end, at.end_start, seq!['-']);
    lemma_first_of_piece(line, at.major_end, at.minor_start, seq![':']);
    let mask = line.subrange(at.permissions_start, at.permissions_end);
    assert(line[at.permissions_start] == mask[0]);
    assert(line[at.permissions_start + 1] == mask[1]);
    assert(line[at.permissions_start + 2] == mask[2]);
    assert(line[at.permissions_start + 3] == mask[3]);
    if at.inode_end < line.len() {
        lemma_first_of_piece(line, at.inode_end, at.pathname_start, gaps.after_inode);
    }
}

/// A line that is made of the fields and gaps of a record is cut by the
/// tokenizer into the fields it was made of.
pub proof fn assembled_line_tokenizes(texts: FieldTexts, gaps: Gaps)
    requires
        is_record(texts, gaps),
    ensures
        tokenize_spec(assemble(texts, gaps)) == Ok::<FieldTexts, Mismatch>(texts),
        gaps_of(assemble(texts, gaps)) == gaps,
{
    let line = assemble(texts, gaps);
    let at = layout_for(texts, gaps);
    lemma_assembled_is_placed(texts, gaps);
    lemma_placed_layout(line, texts, gaps, at);
    lemma_placed_matches(line, texts, gaps, at);
}

/// The longest run of `class` characters at `from` is a piece of the line
/// that holds only characters of the class.
proof fn lemma_run_is_piece(line: Seq<char>, from: int, class: CharClass)
    requires
        0 <= from <= line.len(),
    ensures
        piece_at(
            line,
            from,
            run_end(line, from, class),
            line.subrange(from, run_end(line, from, class)),
        ),
        all_of(line.subrange(from, run_end(line, from, class)), class),
{
    lemma_run_end(line, from, class);
}

/// In a line that the tokenizer accepts, the fields and gaps lie one after
/// the other at the positions of its layout, and they are those of a
/// record.
proof fn lemma_tokenized_is_placed(line: Seq<char>)
    requires
        mismatch_of(line) is None,
    ensures
        placed(line, texts_of(line), gaps_of(line), layout_of(line)),
        is_record(texts_of(line), gaps_of(line)),
{
    let at = layout_of(line);
    lemma_run_is_piece(line, 0, CharClass::Hex);
    assert(line.subrange(at.begin_end, at.end_start) =~= seq!['-']);
    lemma_run_is_piece(line, at.end_start, CharClass::Hex);
    lemma_run_is_piece(line, at.end_end, CharClass::Blank);
    let mask = line.subrange(at.permissions_start, at.permissions_end);
    assert(mask[0] == line[at.permissions_start]);
    assert(mask[1] == line[at.permissions_start + 1]);
    assert(mask[2] == line[at.permissions_start + 2]);
    assert(mask[3] == line[at.permissions_start + 3]);
    lemma_run_is_piece(line, at.permissions_end, CharClass::Blank);
    lemma_run_is_piece(line, at.offset_start, CharClass::Hex);
    lemma_run_is_piece(line, at.offset_end, CharClass::Blank);
    lemma_run_is_piece(line, at.major_start, CharClass::Hex);
    assert(line.subrange(at.major_end, at.minor_start) =~= seq![':']);
    lemma_run_is_piece(line, at.minor_start, CharClass::Hex);
    lemma_run_is_piece(line, at.minor_end, CharClass::Blank);
    lemma_run_is_piece(line, at.inode_start, CharClass::Dec);
    lemma_run_is_piece(line, at.inode_end, CharClass::Blank);
    let pathname = line.subrange(at.pathname_start, line.len() as int);
    if pathname.len() > 0 {
        lemma_run_end(line, at.inode_end, CharClass::Blank);
        lemma_run_end(line, at.inode_end + 1, CharClass::Blank);
        assert(pathname[0] == line[at.pathname_start]);
    }
}

/// A piece that lies right after a prefix of the line extends the prefix.
proof fn lemma_prefix_extended(line: Seq<char>, from: int, to: int, piece: Seq<char>)
    requires
        piece_at(line, from, to, piece),
    ensures
        line.subrange(0, from) + piece == line.subrange(0, to),
{
    assert(line.subrange(0, from) + line.subrange(from, to) =~= line.subrange(0, to));
}

/// A line in which fields and gaps lie one after the other, and which they
/// fill, is the line that is made of them.
proof fn lemma_placed_is_assembled(line: Seq<char>, texts: FieldTexts, gaps: Gaps, at: Layout)
    requires
        placed(line, texts, gaps, at),
    ensures
        assemble(texts, gaps) == line,
{
    assert(line.subrange(0, 0) + texts.begin =~= texts.begin);
    lemma_prefix_extended(line, 0, at.begin_end, texts.begin);
    lemma_prefix_extended(line, at.begin_end, at.end_start, seq!['-']);
    lemma_prefix_extended(line, at.end_start, at.end_end, texts.end);
    lemma_prefix_extended(line, at.end_end, at.permissions_start, gaps.after_range);
    lemma_prefix_extended(line, at.permissions_start, at.permissions_end, texts.permissions);
    lemma_prefix_extended(line, at.permissions_end, at.offset_start, gaps.after_permissions);
    lemma_prefix_extended(line, at.offset_start, at.offset_end, texts.offset);
    lemma_prefix_extended(line, at.offset_end, at.major_start, gaps.after_offset);
    lemma_prefix_extended(line, at.major_start, at.major_end, texts.major);
    lemma_prefix_extended(line, at.major_end, at.minor_start, seq![':']);
    lemma_prefix_extended(line, at.minor_start, at.minor_end, texts.minor);
    lemma_prefix_extended(line, at.minor_end, at.inode_start, gaps.after_device);
    lemma_prefix_extended(line, at.inode_start, at.inode_end, texts.inode);
    lemma_prefix_extended(line, at.inode_end, at.pathname_start, gaps.after_inode);
    lemma_prefix_extended(line, at.pathname_start, line.len() as int, texts.pathname);
    assert(line.subrange(0, line.len() as int) =~= line);
}

/// A line that the tokenizer accepts is made of its fields and of the
/// blanks between them, and these are the fields and gaps of a record.
pub proof fn tokenized_line_is_assembled(line: Seq<char>)
    requires
        tokenize_spec(line) is Ok,
    ensures
        tokenize_spec(line) == Ok::<FieldTexts, Mismatch>(texts_of(line)),
        is_record(texts_of(line), gaps_of(line)),
        assemble(texts_of(line), gaps_of(line)) == line,
{
    lemma_tokenized_is_placed(line);
    lemma_placed_is_assembled(line, texts_of(line), gaps_of(line), layout_of(line));
}

/// The tokenizer accepts a line exactly when the line is made of the fields
/// and gaps of some record.
pub proof fn accepted_lines_are_records(line: Seq<char>)
    ensures
        tokenize_spec(line) is Ok <==> exists|texts: FieldTexts, gaps: Gaps|
            is_record(texts, gaps) && #[trigger] assemble(texts, gaps) == line,
{
    if tokenize_spec(line) is Ok {
        tokenized_line_is_assembled(line);
        assert(is_record(texts_of(line), gaps_of(line)) && assemble(
            texts_of(line),
            gaps_of(line),
        ) == line);
    }
    if exists|texts: FieldTexts, gaps: Gaps|
        is_record(texts, gaps) && #[trigger] assemble(texts, gaps) == line {
        let (texts, gaps) = choose|texts: FieldTexts, gaps: Gaps|
            is_record(texts, gaps) && #[trigger] assemble(texts, gaps) == line;
        assembled_line_tokenizes(texts, gaps);
    }
}

} // verus!
