//! The line sequence: a listing taken apart line by line, each line decoded
//! when it is asked for.

use vstd::prelude::*;
use vstd::slice::slice_subrange;
use crate::chars::{lemma_run_end, lemma_run_end_shift, run_end, scan_run, CharClass};
use crate::decode::parse_spec;
use crate::error::{Error, Failure};
use crate::record::{MemoryMap, MemoryMapView};
use crate::text::chars_of;

verus! {

/// The model of the outcome of decoding one line.
pub open spec fn outcome(r: Result<MemoryMap, Error>) -> Result<MemoryMapView, Failure> {
    match r {
        Ok(map) => Ok(map@),
        Err(e) => Err(e@),
    }
}

/// The first line of `text`, without its terminator: what stands before the
/// first line feed, or all of `text` where it holds none.
pub open spec fn first_line(text: Seq<char>) -> Seq<char> {
    text.take(run_end(text, 0, CharClass::Inline))
}

/// What follows the first line of `text` and its terminator.
pub open spec fn after_first_line(text: Seq<char>) -> Seq<char> {
    if run_end(text, 0, CharClass::Inline) < text.len() {
        text.skip(run_end(text, 0, CharClass::Inline) + 1)
    } else {
        Seq::empty()
    }
}

/// A line as a reader hands it over, without the one line feed that may
/// end it.
pub open spec fn strip_newline(raw: Seq<char>) -> Seq<char> {
    if raw.len() > 0 && raw.last() == '\n' {
        raw.drop_last()
    } else {
        raw
    }
}

/// What a reader takes off the front of `text` as one line: everything up
/// to the first line feed, with it, or all of `text` where it holds none.
pub open spec fn read_line_spec(text: Seq<char>) -> Seq<char> {
    if run_end(text, 0, CharClass::Inline) < text.len() {
        text.take(run_end(text, 0, CharClass::Inline) + 1)
    } else {
        text
    }
}

/// The line sequence and a reader cut a text alike: the first line is what
/// the reader takes, without its line feed, and the rest is what the reader
/// leaves. A text that is not empty gives a read that is not empty.
pub proof fn first_line_is_the_line_read(text: Seq<char>)
    ensures
        first_line(text) == strip_newline(read_line_spec(text)),
        after_first_line(text) == text.skip(read_line_spec(text).len() as int),
        text.len() > 0 ==> read_line_spec(text).len() > 0,
{
    lemma_run_end(text, 0, CharClass::Inline);
    let end = run_end(text, 0, CharClass::Inline);
    if end < text.len() {
        let raw = text.take(end + 1);
        assert(raw.last() == text[end]);
        assert(raw.drop_last() =~= text.take(end));
    } else {
        assert(text.take(end) =~= text);
        if text.len() > 0 {
            assert(text.last() == text[text.len() - 1]);
        }
        assert(text.skip(text.len() as int) =~= Seq::<char>::empty());
    }
}

/// A non-empty text is longer than what follows its first line.
pub proof fn lemma_after_first_line_shorter(text: Seq<char>)
    requires
        text.len() > 0,
    ensures
        after_first_line(text).len() < text.len(),
{
    lemma_run_end(text, 0, CharClass::Inline);
}

/// The lines of `text`. A line feed ends a line; the last line needs none.
/// The empty text has no lines.
pub open spec fn lines_of(text: Seq<char>) -> Seq<Seq<char>>
    decreases text.len(),
    when true
    via lines_of_decreases
{
    if text.len() == 0 {
        Seq::empty()
    } else {
        seq![first_line(text)] + lines_of(after_first_line(text))
    }
}

#[via_fn]
proof fn lines_of_decreases(text: Seq<char>) {
    if text.len() > 0 {
        lemma_after_first_line_shorter(text);
    }
}

/// A wrapper structure for consuming individual records from a listing held
/// in memory.
pub struct Maps {
    text: Vec<char>,
    next_line: usize,
}

impl Maps {
    #[verifier::type_invariant]
    spec fn well_formed(self) -> bool {
        self.next_line <= self.text@.len()
    }

    /// The part of the listing that has not been consumed yet.
    pub closed spec fn remaining(self) -> Seq<char> {
        self.text@.skip(self.next_line as int)
    }

    /// Creates a new `Maps` over the characters of a listing.
    pub fn new(text: Vec<char>) -> (maps: Maps)
        ensures
            maps.remaining() == text@,
    {
        Maps { text, next_line: 0 }
    }

    /// Consumes the next line and decodes it. Gives `None` once the listing
    /// is used up, and only then; a line that fails to decode is consumed
    /// like any other.
    pub fn next(&mut self) -> (item: Option<Result<MemoryMap, Error>>)
        ensures
            final(self).remaining() == after_first_line(old(self).remaining()),
            match item {
                None => old(self).remaining().len() == 0,
                Some(r) => old(self).remaining().len() > 0 && outcome(r) == parse_spec(
                    first_line(old(self).remaining()),
                ),
            },
    {
        proof {
            use_type_invariant(&*self);
        }
        let n = self.text.len();
        let start = self.next_line;
        if start == n {
            return None;
        }
        let end = scan_run(self.text.as_slice(), start, CharClass::Inline);
        proof {
            lemma_first_line_at(self.text@, start as int);
        }
        let r = MemoryMap::parse_chars(slice_subrange(self.text.as_slice(), start, end));
        self.next_line = if end < n {
            end + 1
        } else {
            n
        };
        Some(r)
    }

    /// Consumes what is left of the listing and decodes every line of it,
    /// in order. A line that fails to decode gives its error and does not
    /// stop the lines after it from being decoded.
    pub fn collect(self) -> (items: Vec<Result<MemoryMap, Error>>)
        ensures
            items@.len() == lines_of(self.remaining()).len(),
            forall|i: int|
                0 <= i < items@.len() ==> outcome(#[trigger] items@[i]) == parse_spec(
                    lines_of(self.remaining())[i],
                ),
    {
        let ghost all = lines_of(self.remaining());
        let mut maps = self;
        let mut items: Vec<Result<MemoryMap, Error>> = Vec::new();
        loop
            invariant
                items@.len() + lines_of(maps.remaining()).len() == all.len(),
                forall|i: int|
                    0 <= i < items@.len() ==> outcome(#[trigger] items@[i]) == parse_spec(all[i]),
                forall|j: int|
                    0 <= j < lines_of(maps.remaining()).len() ==> #[trigger] lines_of(
                        maps.remaining(),
                    )[j] == all[items@.len() + j],
            ensures
                items@.len() == all.len(),
            decreases maps.remaining().len(),
        {
            let ghost before = maps.remaining();
            match maps.next() {
                None => {
                    break ;
                },
                Some(r) => {
                    proof {
                        lemma_after_first_line_shorter(before);
                        assert(lines_of(before)[0] == first_line(before));
                        assert forall|j: int| 0 <= j < lines_of(maps.remaining()).len() implies
                            #[trigger] lines_of(maps.remaining())[j] == all[items@.len() + 1 + j] by {
                            assert(lines_of(before)[j + 1] == lines_of(maps.remaining())[j]);
                        }
                    }
                    items.push(r);
                },
            }
        }
        items
    }
}

/// Where the first line of what follows position `start` lies in `text`,
/// and where what follows that line starts.
pub proof fn lemma_first_line_at(text: Seq<char>, start: int)
    requires
        0 <= start < text.len(),
    ensures
        ({
            let rest = text.skip(start);
            let end = run_end(text, start, CharClass::Inline);
            &&& start <= end <= text.len()
            &&& first_line(rest) == text.subrange(start, end)
            &&& after_first_line(rest) == text.skip(
                if end < text.len() {
                    end + 1
                } else {
                    text.len() as int
                },
            )
        }),
{
    lemma_run_end_shift(text, start, CharClass::Inline);
    lemma_run_end(text, start, CharClass::Inline);
}

/// What a reader's loop yields after one attempt to read a line, where
/// `read` is what the attempt returned and `line` is what it read, with its
/// line terminator if it had one.
///
/// A failed read is passed on as an error. A read of nothing is the end of
/// the listing and yields no item. Any other read yields what decoding the
/// line gives, once the one line feed that may end it is taken off.
pub fn decode_read(read: Result<usize, std::io::Error>, line: &str) -> (item: Option<
    Result<MemoryMap, Error>,
>)
    ensures
        match read {
            Err(e) => item == Some(Err::<MemoryMap, Error>(Error::Io(e))),
            Ok(count) => if count == 0 {
                item is None
            } else {
                match item {
                    None => false,
                    Some(r) => outcome(r) == parse_spec(strip_newline(line@)),
                }
            },
        },
{
    match read {
        Err(e) => Some(Err(Error::from(e))),
        Ok(count) => {
            if count == 0 {
                None
            } else {
                let chars = chars_of(line);
                let n = chars.len();
                if n > 0 && chars[n - 1] == '\n' {
                    assert(chars@.subrange(0, n - 1) == strip_newline(line@));
                    Some(MemoryMap::parse_chars(slice_subrange(chars.as_slice(), 0, n - 1)))
                } else {
                    Some(MemoryMap::parse_chars(chars.as_slice()))
                }
            }
        },
    }
}

/// Returns an iterable `Maps` over the given listing.
pub fn from_str(maps_data: &str) -> (maps: Maps)
    ensures
        maps.remaining() == maps_data@,
{
    Maps::new(chars_of(maps_data))
}

} // verus!
