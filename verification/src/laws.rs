//! What holds of the decoder for every line, proved from its definitions.

use vstd::prelude::*;
use crate::chars::{is_hex_digit, lemma_run_end_is, run_end, CharClass};
use crate::decode::{failing_field, parse_spec, permissions_of, record_of};
use crate::error::{Failure, NumericField};
use crate::grammar::{char_at, tokenize_spec, FieldTexts};
use crate::numeric::{
    dec_value, digit_value, hex_text, hex_text_padded, hex_value, lemma_hex_text_padded_value,
    lemma_hex_text_value, lemma_prefix_value, number_value,
};
use crate::record::{
    classify_spec, is_bracketed, AddressRange, Device, MemoryMapView, PathnameView, Permissions,
};
use crate::shape::{
    assemble, assembled_line_tokenizes, gaps_of, is_mask, is_record, tokenized_line_is_assembled,
    Gaps,
};

verus! {

/// The two numbers of a text that is made of two hexadecimal tokens joined
/// by `joint` and of nothing else; `None` for any other text.
pub open spec fn hex_pair_of(text: Seq<char>, joint: char) -> Option<(nat, nat)> {
    let cut = run_end(text, 0, CharClass::Hex);
    let end = run_end(text, cut + 1, CharClass::Hex);
    if 0 < cut && char_at(text, cut, joint) && cut + 1 < end && end == text.len() {
        Some((hex_value(text.subrange(0, cut)), hex_value(text.subrange(cut + 1, end))))
    } else {
        None
    }
}

/// Two hexadecimal tokens joined by a character that is no hexadecimal
/// digit read back as their two values.
pub proof fn lemma_hex_pair(first: Seq<char>, joint: char, second: Seq<char>)
    requires
        first.len() > 0,
        second.len() > 0,
        forall|i: int| 0 <= i < first.len() ==> is_hex_digit(#[trigger] first[i]),
        forall|i: int| 0 <= i < second.len() ==> is_hex_digit(#[trigger] second[i]),
        !is_hex_digit(joint),
    ensures
        hex_pair_of(first + seq![joint] + second, joint) == Some(
            (hex_value(first), hex_value(second)),
        ),
{
    let text = first + seq![joint] + second;
    let cut = first.len() as int;
    assert forall|i: int| 0 <= i < cut implies CharClass::Hex.holds(#[trigger] text[i]) by {
        assert(text[i] == first[i]);
    }
    assert(text[cut] == joint);
    lemma_run_end_is(text, 0, cut, CharClass::Hex);
    assert forall|i: int| cut + 1 <= i < text.len() implies CharClass::Hex.holds(
        #[trigger] text[i],
    ) by {
        assert(text[i] == second[i - cut - 1]);
    }
    lemma_run_end_is(text, cut + 1, text.len() as int, CharClass::Hex);
    assert(text.subrange(0, cut) == first);
    assert(text.subrange(cut + 1, text.len() as int) == second);
}

/// Rendering an address range and reading the text back gives the same two
/// addresses.
pub proof fn address_range_round_trip(range: AddressRange)
    ensures
        hex_pair_of(range.text(), '-') == Some((range.begin as nat, range.end as nat)),
{
    lemma_hex_text_value(range.begin as nat);
    lemma_hex_text_value(range.end as nat);
    lemma_hex_pair(hex_text(range.begin as nat), '-', hex_text(range.end as nat));
}

/// Rendering a device and reading the text back gives the same two numbers:
/// the padding changes the text and not the value.
pub proof fn device_round_trip(device: Device)
    ensures
        hex_pair_of(device.text(), '-') == Some((device.major as nat, device.minor as nat)),
{
    lemma_hex_text_padded_value(device.major as nat);
    lemma_hex_text_padded_value(device.minor as nat);
    lemma_hex_pair(
        hex_text_padded(device.major as nat),
        '-',
        hex_text_padded(device.minor as nat),
    );
}

/// Rendering permissions of which exactly one of `shared` and `private` is
/// set, and reading the mask back, gives the same permissions.
pub proof fn permissions_round_trip(permissions: Permissions)
    requires
        permissions.private == !permissions.shared,
    ensures
        permissions.text().len() == 4,
        permissions_of(permissions.text()) == permissions,
{
}

/// Every line that decodes gives a record whose address range, permissions
/// and device read back from their rendered text as the values that were
/// decoded.
pub proof fn decoded_record_round_trip(line: Seq<char>)
    requires
        parse_spec(line) is Ok,
    ensures
        ({
            let record = parse_spec(line)->Ok_0;
            &&& hex_pair_of(record.address_range.text(), '-') == Some(
                (record.address_range.begin as nat, record.address_range.end as nat),
            )
            &&& permissions_of(record.permissions.text()) == record.permissions
            &&& hex_pair_of(record.device.text(), '-') == Some(
                (record.device.major as nat, record.device.minor as nat),
            )
        }),
{
    let record = parse_spec(line)->Ok_0;
    address_range_round_trip(record.address_range);
    device_round_trip(record.device);
    shared_or_private(line);
    permissions_round_trip(record.permissions);
}

/// A line of the shape of a record, with numbers that fit in 64 bits,
/// decodes to the record that its fields stand for.
pub proof fn valid_line_decodes(texts: FieldTexts, gaps: Gaps)
    requires
        is_record(texts, gaps),
        failing_field(texts) is None,
    ensures
        parse_spec(assemble(texts, gaps)) == Ok::<MemoryMapView, Failure>(record_of(texts)),
{
    assembled_line_tokenizes(texts, gaps);
}

/// The fields of a record with the address range, the permissions and the
/// device replaced by what the decoded record renders for them.
pub open spec fn rerendered(texts: FieldTexts) -> FieldTexts {
    let record = record_of(texts);
    FieldTexts {
        begin: hex_text(record.address_range.begin as nat),
        end: hex_text(record.address_range.end as nat),
        permissions: record.permissions.text(),
        major: hex_text_padded(record.device.major as nat),
        minor: hex_text_padded(record.device.minor as nat),
        ..texts
    }
}

/// The rerendered fields of a record are those of a record again, and stand
/// for the same record.
pub proof fn rerendered_fields_stand_alike(texts: FieldTexts, gaps: Gaps)
    requires
        is_record(texts, gaps),
        failing_field(texts) is None,
    ensures
        is_record(rerendered(texts), gaps),
        failing_field(rerendered(texts)) is None,
        record_of(rerendered(texts)) == record_of(texts),
{
    let record = record_of(texts);
    lemma_hex_text_value(record.address_range.begin as nat);
    lemma_hex_text_value(record.address_range.end as nat);
    lemma_hex_text_padded_value(record.device.major as nat);
    lemma_hex_text_padded_value(record.device.minor as nat);
    permissions_round_trip(record.permissions);
    assert(is_mask(record.permissions.text()));
}

/// Writing the rendered address range, permissions and device of a decoded
/// record back into its line gives a line that decodes to the same record.
/// The text may differ: leading zeros go, a device number gets its two
/// digits, and a flag that is not set is written `-`.
pub proof fn rerendered_line_decodes_alike(texts: FieldTexts, gaps: Gaps)
    requires
        is_record(texts, gaps),
        failing_field(texts) is None,
    ensures
        parse_spec(assemble(texts, gaps)) == Ok::<MemoryMapView, Failure>(record_of(texts)),
        parse_spec(assemble(rerendered(texts), gaps)) == parse_spec(assemble(texts, gaps)),
{
    rerendered_fields_stand_alike(texts, gaps);
    valid_line_decodes(texts, gaps);
    valid_line_decodes(rerendered(texts), gaps);
}

/// Every line that decodes gives a record of which exactly one of `shared`
/// and `private` is set.
pub proof fn shared_or_private(line: Seq<char>)
    requires
        parse_spec(line) is Ok,
    ensures
        parse_spec(line)->Ok_0.permissions.shared != parse_spec(line)->Ok_0.permissions.private,
{
}

/// A line that decodes has the pathname `Mmap` exactly when its pathname
/// field is empty.
pub proof fn empty_pathname_is_mmap(line: Seq<char>)
    requires
        parse_spec(line) is Ok,
    ensures
        tokenize_spec(line) is Ok,
        parse_spec(line)->Ok_0.pathname == classify_spec(tokenize_spec(line)->Ok_0.pathname),
        tokenize_spec(line)->Ok_0.pathname.len() == 0 <==> parse_spec(line)->Ok_0.pathname
            == PathnameView::Mmap,
{
}

/// The five known pseudo-paths are classified as their own variants.
pub proof fn known_pseudo_paths()
    ensures
        classify_spec("[stack]"@) == PathnameView::Stack,
        classify_spec("[vdso]"@) == PathnameView::Vdso,
        classify_spec("[vvar]"@) == PathnameView::Vvar,
        classify_spec("[vsyscall]"@) == PathnameView::Vsyscall,
        classify_spec("[heap]"@) == PathnameView::Heap,
{
    reveal_strlit("[stack]");
    reveal_strlit("[vdso]");
    reveal_strlit("[vvar]");
    reveal_strlit("[vsyscall]");
    reveal_strlit("[heap]");
    assert("[stack]"@.len() == 7);
    assert("[vdso]"@.len() == 6);
    assert("[vvar]"@.len() == 6);
    assert("[vsyscall]"@.len() == 10);
    assert("[heap]"@.len() == 6);
    assert("[vvar]"@[2] != "[vdso]"@[2]);
    assert("[heap]"@[1] != "[vdso]"@[1]);
    assert("[heap]"@[1] != "[vvar]"@[1]);
}

/// The text is one of the five known pseudo-paths.
pub open spec fn is_known_pseudo_path(text: Seq<char>) -> bool {
    text == "[stack]"@ || text == "[vdso]"@ || text == "[vvar]"@ || text == "[vsyscall]"@ || text
        == "[heap]"@
}

/// Any other text in square brackets is classified as `OtherPseudo` and
/// kept as it is, brackets included; a text that is not in square brackets
/// and not empty is a `Path`, kept as it is.
pub proof fn other_pathnames(text: Seq<char>)
    requires
        !is_known_pseudo_path(text),
    ensures
        is_bracketed(text) ==> classify_spec(text) == PathnameView::OtherPseudo(text),
        text.len() > 0 && !is_bracketed(text) ==> classify_spec(text) == PathnameView::Path(text),
{
}

/// The first numeric field, in the order of the record, whose value does
/// not fit in 64 bits.
pub open spec fn first_wide_field(texts: FieldTexts) -> Option<NumericField> {
    if hex_value(texts.begin) > u64::MAX {
        Some(NumericField::AddressBegin)
    } else if hex_value(texts.end) > u64::MAX {
        Some(NumericField::AddressEnd)
    } else if hex_value(texts.offset) > u64::MAX {
        Some(NumericField::Offset)
    } else if hex_value(texts.major) > u64::MAX {
        Some(NumericField::DeviceMajor)
    } else if hex_value(texts.minor) > u64::MAX {
        Some(NumericField::DeviceMinor)
    } else if dec_value(texts.inode) > u64::MAX {
        Some(NumericField::Inode)
    } else {
        None
    }
}

/// Among the fields of a record, those that do not decode are those whose
/// value does not fit in 64 bits.
pub proof fn record_fields_fail_by_width(texts: FieldTexts, gaps: Gaps)
    requires
        is_record(texts, gaps),
    ensures
        failing_field(texts) == first_wide_field(texts),
{
}

/// A line of the shape of a record fails to decode exactly when one of its
/// numbers does not fit in 64 bits. It then fails with a width error that
/// names the first such field; nothing is cut off a number to make it fit.
pub proof fn wide_number_is_rejected(line: Seq<char>)
    requires
        tokenize_spec(line) is Ok,
    ensures
        match first_wide_field(tokenize_spec(line)->Ok_0) {
            Some(field) => parse_spec(line) == Err::<MemoryMapView, Failure>(
                Failure::WidthError(field),
            ),
            None => parse_spec(line) == Ok::<MemoryMapView, Failure>(
                record_of(tokenize_spec(line)->Ok_0),
            ),
        },
{
    let texts = tokenize_spec(line)->Ok_0;
    assert(failing_field(texts) == first_wide_field(texts)) by {
        tokenized_line_is_assembled(line);
        record_fields_fail_by_width(texts, gaps_of(line));
    }
}

/// A line of the shape of a record in which a hexadecimal token has more
/// than 16 digits, counted from its first digit other than zero, fails with
/// a width error.
pub proof fn wide_hex_token_fails(line: Seq<char>, token: Seq<char>, at: int)
    requires
        tokenize_spec(line) is Ok,
        ({
            let texts = tokenize_spec(line)->Ok_0;
            token == texts.begin || token == texts.end || token == texts.offset || token
                == texts.major || token == texts.minor
        }),
        0 <= at,
        at + 16 < token.len(),
        digit_value(token[at]) > 0,
    ensures
        parse_spec(line) is Err,
        parse_spec(line)->Err_0 is WidthError,
{
    more_than_sixteen_digits_overflow(token, at);
    wide_number_is_rejected(line);
}

/// `16` to the power of `n`.
pub open spec fn sixteen_to(n: nat) -> nat
    decreases n,
{
    if n == 0 {
        1
    } else {
        16 * sixteen_to((n - 1) as nat)
    }
}

/// A token with a digit other than zero that has `n` or more digits after
/// it is worth at least `16` to the power of `n`.
pub proof fn lemma_significant_digit(digits: Seq<char>, at: int, n: nat)
    requires
        0 <= at,
        at + n < digits.len(),
        digit_value(digits[at]) > 0,
    ensures
        hex_value(digits) >= sixteen_to(n),
    decreases n,
{
    if n == 0 {
        let upto = digits.take(at + 1);
        assert(upto.last() == digits[at]);
        lemma_prefix_value(digits, at + 1, 16);
    } else {
        lemma_significant_digit(digits.drop_last(), at, (n - 1) as nat);
    }
}

/// A token of hexadecimal digits is worth less than `16` to the power of
/// its length.
pub proof fn lemma_value_bound(digits: Seq<char>)
    requires
        forall|i: int| 0 <= i < digits.len() ==> is_hex_digit(#[trigger] digits[i]),
    ensures
        hex_value(digits) < sixteen_to(digits.len()),
    decreases digits.len(),
{
    if digits.len() > 0 {
        let shorter = digits.drop_last();
        assert forall|i: int| 0 <= i < shorter.len() implies is_hex_digit(
            #[trigger] shorter[i],
        ) by {
            assert(shorter[i] == digits[i]);
        }
        lemma_value_bound(shorter);
        assert(is_hex_digit(digits.last()));
        assert(digit_value(digits.last()) < 16);
    }
}

/// `16` to the power of `16` is the first number that does not fit in 64
/// bits.
pub proof fn lemma_sixteen_to_sixteen()
    ensures
        sixteen_to(16) == u64::MAX + 1,
{
    reveal_with_fuel(sixteen_to, 17);
}

/// `16` to the power of `n` grows with `n`.
pub proof fn lemma_sixteen_to_grows(m: nat, n: nat)
    requires
        m <= n,
    ensures
        sixteen_to(m) <= sixteen_to(n),
    decreases n,
{
    if m < n {
        lemma_sixteen_to_grows(m, (n - 1) as nat);
    }
}

/// A hexadecimal token with more than 16 digits, counted from its first
/// digit other than zero, does not fit in 64 bits.
pub proof fn more_than_sixteen_digits_overflow(digits: Seq<char>, at: int)
    requires
        0 <= at,
        at + 16 < digits.len(),
        digit_value(digits[at]) > 0,
    ensures
        hex_value(digits) > u64::MAX,
{
    lemma_significant_digit(digits, at, 16);
    lemma_sixteen_to_sixteen();
}

/// A hexadecimal token of at most 16 digits fits in 64 bits.
pub proof fn sixteen_digits_fit(digits: Seq<char>)
    requires
        digits.len() <= 16,
        forall|i: int| 0 <= i < digits.len() ==> is_hex_digit(#[trigger] digits[i]),
    ensures
        hex_value(digits) <= u64::MAX,
{
    lemma_value_bound(digits);
    lemma_sixteen_to_grows(digits.len(), 16);
    lemma_sixteen_to_sixteen();
}

} // verus!
