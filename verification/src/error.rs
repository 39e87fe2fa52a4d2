//! Error types for decoding a memory-map listing.

use vstd::prelude::*;
use vstd::string::StringExecFns;
use crate::numeric::{dec_text, push_dec};

verus! {

/// The kind of character that a line lacked at the place where it stopped
/// matching the record grammar.
#[derive(Debug, Clone, Copy, PartialEq, Eq)]
pub enum Expected {
    /// A lowercase hexadecimal digit.
    HexDigit,
    /// The `-` between the two addresses of a range.
    Dash,
    /// A space or tab between two fields.
    Separator,
    /// `r` or `-`, the first permission flag.
    ReadFlag,
    /// `w` or `-`, the second permission flag.
    WriteFlag,
    /// `x`, `e` or `-`, the third permission flag.
    ExecuteFlag,
    /// `s` or `p`, the fourth permission flag.
    ShareFlag,
    /// The `:` between the two numbers of a device.
    Colon,
    /// A decimal digit.
    DecDigit,
}

impl Expected {
    /// What was expected, in words.
    pub open spec fn description(self) -> Seq<char> {
        match self {
            Expected::HexDigit => "a hexadecimal digit"@,
            Expected::Dash => "`-`"@,
            Expected::Separator => "a space or tab"@,
            Expected::ReadFlag => "`r` or `-`"@,
            Expected::WriteFlag => "`w` or `-`"@,
            Expected::ExecuteFlag => "`x`, `e` or `-`"@,
            Expected::ShareFlag => "`s` or `p`"@,
            Expected::Colon => "`:`"@,
            Expected::DecDigit => "a decimal digit"@,
        }
    }

    /// Says in words what was expected.
    pub fn describe(self) -> (r: &'static str)
        ensures
            r@ == self.description(),
    {
        match self {
            Expected::HexDigit => "a hexadecimal digit",
            Expected::Dash => "`-`",
            Expected::Separator => "a space or tab",
            Expected::ReadFlag => "`r` or `-`",
            Expected::WriteFlag => "`w` or `-`",
            Expected::ExecuteFlag => "`x`, `e` or `-`",
            Expected::ShareFlag => "`s` or `p`",
            Expected::Colon => "`:`",
            Expected::DecDigit => "a decimal digit",
        }
    }
}

/// A line that does not have the shape of a record: where it stopped
/// matching, counted in characters from the start of the line, and what was
/// expected there.
#[derive(Debug, Clone, Copy, PartialEq, Eq)]
pub struct GrammarError {
    pub position: usize,
    pub expected: Expected,
}

/// The mathematical model of a [`GrammarError`].
pub struct Mismatch {
    pub position: int,
    pub expected: Expected,
}

impl View for GrammarError {
    type V = Mismatch;

    open spec fn view(&self) -> Mismatch {
        Mismatch { position: self.position as int, expected: self.expected }
    }
}

impl GrammarError {
    /// The error as a sentence: what was expected, and at which character.
    pub open spec fn message_spec(self) -> Seq<char> {
        "expected "@ + self.expected.description() + " at character "@ + dec_text(
            self.position as nat,
        )
    }

    /// Renders the error as a sentence.
    pub fn message(&self) -> (r: String)
        ensures
            r@ == self.message_spec(),
    {
        let mut r = String::from_str("expected ");
        r.append(self.expected.describe());
        r.append(" at character ");
        push_dec(&mut r, self.position as u64);
        r
    }
}

/// The numeric fields of a record, in the order in which they are decoded.
#[derive(Debug, Clone, Copy, PartialEq, Eq)]
pub enum NumericField {
    AddressBegin,
    AddressEnd,
    Offset,
    DeviceMajor,
    DeviceMinor,
    Inode,
}

impl NumericField {
    /// The name of the field, in words.
    pub open spec fn name_spec(self) -> Seq<char> {
        match self {
            NumericField::AddressBegin => "first address"@,
            NumericField::AddressEnd => "second address"@,
            NumericField::Offset => "offset"@,
            NumericField::DeviceMajor => "device major number"@,
            NumericField::DeviceMinor => "device minor number"@,
            NumericField::Inode => "inode"@,
        }
    }

    /// Names the field in words.
    pub fn name(self) -> (r: &'static str)
        ensures
            r@ == self.name_spec(),
    {
        match self {
            NumericField::AddressBegin => "first address",
            NumericField::AddressEnd => "second address",
            NumericField::Offset => "offset",
            NumericField::DeviceMajor => "device major number",
            NumericField::DeviceMinor => "device minor number",
            NumericField::Inode => "inode",
        }
    }

    /// The width error of the field as a sentence.
    pub open spec fn message_spec(self) -> Seq<char> {
        self.name_spec() + ": number too large to fit in 64 bits"@
    }

    /// Renders the width error of the field as a sentence.
    pub fn message(self) -> (r: String)
        ensures
            r@ == self.message_spec(),
    {
        let mut r = String::from_str(self.name());
        r.append(": number too large to fit in 64 bits");
        r
    }
}

/// `std::io::Error`, the error of a failed read. It is carried through
/// unopened: nothing is assumed of what it holds.
#[verifier::external_type_specification]
#[verifier::external_body]
pub struct ExIoError(std::io::Error);

/// The ways in which producing the next record can fail.
#[derive(Debug)]
pub enum Error {
    /// Reading the listing failed.
    Io(std::io::Error),
    /// The line does not have the shape of a record.
    ParseError(GrammarError),
    /// The value of a numeric field does not fit in 64 bits.
    WidthError(NumericField),
}

/// The mathematical model of an [`Error`].
pub enum Failure {
    Io,
    ParseError(Mismatch),
    WidthError(NumericField),
}

impl View for Error {
    type V = Failure;

    open spec fn view(&self) -> Failure {
        match self {
            Error::Io(_) => Failure::Io,
            Error::ParseError(e) => Failure::ParseError(e@),
            Error::WidthError(field) => Failure::WidthError(*field),
        }
    }
}

impl From<std::io::Error> for Error {
    fn from(err: std::io::Error) -> (r: Error) {
        Error::Io(err)
    }
}

impl vstd::std_specs::convert::FromSpecImpl<std::io::Error> for Error {
    open spec fn obeys_from_spec() -> bool {
        true
    }

    open spec fn from_spec(err: std::io::Error) -> Error {
        Error::Io(err)
    }
}

impl From<GrammarError> for Error {
    fn from(err: GrammarError) -> (r: Error) {
        Error::ParseError(err)
    }
}

impl vstd::std_specs::convert::FromSpecImpl<GrammarError> for Error {
    open spec fn obeys_from_spec() -> bool {
        true
    }

    open spec fn from_spec(err: GrammarError) -> Error {
        Error::ParseError(err)
    }
}

impl From<NumericField> for Error {
    fn from(field: NumericField) -> (r: Error) {
        Error::WidthError(field)
    }
}

impl vstd::std_specs::convert::FromSpecImpl<NumericField> for Error {
    open spec fn obeys_from_spec() -> bool {
        true
    }

    open spec fn from_spec(field: NumericField) -> Error {
        Error::WidthError(field)
    }
}

} // verus!
