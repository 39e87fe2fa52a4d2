//! The record decoder: from the fields of a line to a typed record.

use vstd::prelude::*;
use crate::error::{Error, Failure, NumericField};
use crate::grammar::{tokenize, tokenize_spec, FieldTexts, Fields};
use crate::numeric::{dec_decoded, dec_value, decode_dec, decode_hex, hex_decoded, hex_value};
use crate::record::{
    classify_spec, AddressRange, Device, MemoryMap, MemoryMapView, Pathname, Permissions,
};
use crate::text::chars_of;

verus! {

/// The character `c` stands at index `i` of the permission token.
pub open spec fn flag_set(token: Seq<char>, i: int, c: char) -> bool {
    0 <= i < token.len() && token[i] == c
}

/// The permissions that a permission token stands for. Each flag is read
/// at its own index; a map is private exactly when it is not shared.
pub open spec fn permissions_of(token: Seq<char>) -> Permissions {
    Permissions {
        readable: flag_set(token, 0, 'r'),
        writable: flag_set(token, 1, 'w'),
        executable: flag_set(token, 2, 'x'),
        shared: flag_set(token, 3, 's'),
        private: !flag_set(token, 3, 's'),
    }
}

/// The first numeric field, in the order of the record, that does not
/// decode: its token is no token of its radix, or its value does not fit in
/// 64 bits.
pub open spec fn failing_field(texts: FieldTexts) -> Option<NumericField> {
    if hex_decoded(texts.begin) is None {
        Some(NumericField::AddressBegin)
    } else if hex_decoded(texts.end) is None {
        Some(NumericField::AddressEnd)
    } else if hex_decoded(texts.offset) is None {
        Some(NumericField::Offset)
    } else if hex_decoded(texts.major) is None {
        Some(NumericField::DeviceMajor)
    } else if hex_decoded(texts.minor) is None {
        Some(NumericField::DeviceMinor)
    } else if dec_decoded(texts.inode) is None {
        Some(NumericField::Inode)
    } else {
        None
    }
}

/// The record that the fields stand for, where every number decodes.
pub open spec fn record_of(texts: FieldTexts) -> MemoryMapView {
    MemoryMapView {
        address_range: AddressRange {
            begin: hex_value(texts.begin) as u64,
            end: hex_value(texts.end) as u64,
        },
        permissions: permissions_of(texts.permissions),
        offset: hex_value(texts.offset) as u64,
        device: Device {
            major: hex_value(texts.major) as u64,
            minor: hex_value(texts.minor) as u64,
        },
        inode: dec_value(texts.inode) as u64,
        pathname: classify_spec(texts.pathname),
    }
}

/// The record that the fields stand for, or the first numeric field that
/// does not decode.
pub open spec fn decode_spec(texts: FieldTexts) -> Result<MemoryMapView, NumericField> {
    match failing_field(texts) {
        Some(field) => Err(field),
        None => Ok(record_of(texts)),
    }
}

/// What decoding `line` gives: the grammar is checked first, over the whole
/// line, and the numbers are decoded after it.
pub open spec fn parse_spec(line: Seq<char>) -> Result<MemoryMapView, Failure> {
    match tokenize_spec(line) {
        Err(m) => Err(Failure::ParseError(m)),
        Ok(texts) => match decode_spec(texts) {
            Err(field) => Err(Failure::WidthError(field)),
            Ok(record) => Ok(record),
        },
    }
}

/// Whether the character `c` stands at index `i` of `token`.
fn has_flag(token: &[char], i: usize, c: char) -> (r: bool)
    ensures
        r == flag_set(token@, i as int, c),
{
    i < token.len() && token[i] == c
}

impl Permissions {
    /// Reads the permissions off a permission token.
    pub fn from_mask(token: &[char]) -> (r: Permissions)
        ensures
            r == permissions_of(token@),
            r.private == !r.shared,
    {
        let shared = has_flag(token, 3, 's');
        Permissions {
            readable: has_flag(token, 0, 'r'),
            writable: has_flag(token, 1, 'w'),
            executable: has_flag(token, 2, 'x'),
            shared,
            private: !shared,
        }
    }
}

impl MemoryMap {
    /// Decodes the fields of a record. Fails with the first numeric field
    /// that does not decode; no partial record is returned.
    pub fn from_fields(fields: &Fields) -> (r: Result<MemoryMap, NumericField>)
        ensures
            match decode_spec(fields@) {
                Ok(record) => r matches Ok(map) && map@ == record,
                Err(field) => r == Err::<MemoryMap, NumericField>(field),
            },
            r matches Ok(map) ==> map.permissions.shared != map.permissions.private,
    {
        let begin = match decode_hex(fields.begin) {
            Some(v) => v,
            None => {
                return Err(NumericField::AddressBegin);
            },
        };
        let end = match decode_hex(fields.end) {
            Some(v) => v,
            None => {
                return Err(NumericField::AddressEnd);
            },
        };
        let permissions = Permissions::from_mask(fields.permissions);
        let offset = match decode_hex(fields.offset) {
            Some(v) => v,
            None => {
                return Err(NumericField::Offset);
            },
        };
        let major = match decode_hex(fields.major) {
            Some(v) => v,
            None => {
                return Err(NumericField::DeviceMajor);
            },
        };
        let minor = match decode_hex(fields.minor) {
            Some(v) => v,
            None => {
                return Err(NumericField::DeviceMinor);
            },
        };
        let inode = match decode_dec(fields.inode) {
            Some(v) => v,
            None => {
                return Err(NumericField::Inode);
            },
        };
        let pathname = Pathname::classify(fields.pathname);
        Ok(
            MemoryMap {
                address_range: AddressRange { begin, end },
                permissions,
                offset,
                device: Device { major, minor },
                inode,
                pathname,
            },
        )
    }

    /// Decodes one line of the listing, without its line terminator.
    ///
    /// Fails with [`Error::ParseError`] where the line does not have the
    /// shape of a record, and with [`Error::WidthError`] where it has but a
    /// number in it does not fit in 64 bits.
    pub fn parse(line: &str) -> (r: Result<MemoryMap, Error>)
        ensures
            match parse_spec(line@) {
                Ok(record) => r matches Ok(map) && map@ == record,
                Err(failure) => r matches Err(e) && e@ == failure,
            },
            r matches Ok(map) ==> map.permissions.shared != map.permissions.private,
    {
        let chars = chars_of(line);
        MemoryMap::parse_chars(chars.as_slice())
    }

    /// Decodes one line of the listing, given as its characters.
    pub fn parse_chars(line: &[char]) -> (r: Result<MemoryMap, Error>)
        ensures
            match parse_spec(line@) {
                Ok(record) => r matches Ok(map) && map@ == record,
                Err(failure) => r matches Err(e) && e@ == failure,
            },
            r matches Ok(map) ==> map.permissions.shared != map.permissions.private,
    {
        let fields = match tokenize(line) {
            Ok(fields) => fields,
            Err(e) => {
                return Err(Error::from(e));
            },
        };
        match MemoryMap::from_fields(&fields) {
            Ok(map) => Ok(map),
            Err(field) => Err(Error::from(field)),
        }
    }
}

} // verus!
