use rsprocmaps::chars::{scan_run, CharClass};
use rsprocmaps::numeric::{decode_dec, decode_hex};
use rsprocmaps::text::{chars_of, spells, string_of};
use rsprocmaps::{tokenize, Expected, Fields, GrammarError};

fn chars(s: &str) -> Vec<char> {
    s.chars().collect()
}

#[test]
fn tokenize_cuts_a_line_into_its_fields() {
    let line = chars("5608dd391000-5608dd3be000 r--p 00000000 08:11 6572575 /bin/bash");
    let fields = tokenize(&line).unwrap();
    assert_eq!(
        fields,
        Fields {
            begin: &chars("5608dd391000"),
            end: &chars("5608dd3be000"),
            permissions: &chars("r--p"),
            offset: &chars("00000000"),
            major: &chars("08"),
            minor: &chars("11"),
            inode: &chars("6572575"),
            pathname: &chars("/bin/bash"),
        }
    );
}

#[test]
fn tokenize_trims_blanks_before_the_pathname_only() {
    let line = chars("1-2 rw-p 0 0:0 0    \t /a b  ");
    let fields = tokenize(&line).unwrap();
    assert_eq!(fields.inode, &chars("0")[..]);
    assert_eq!(fields.pathname, &chars("/a b  ")[..]);
}

#[test]
fn tokenize_reports_where_the_line_stops_matching() {
    let line = chars("1000-2000 r--p 00000000 08;11 7");
    assert_eq!(
        tokenize(&line),
        Err(GrammarError { position: 26, expected: Expected::Colon })
    );
}

#[test]
fn scan_run_stops_at_the_first_character_outside_the_class() {
    let s = chars("12ab  \tz\n9");
    assert_eq!(scan_run(&s, 0, CharClass::Dec), 2);
    assert_eq!(scan_run(&s, 0, CharClass::Hex), 4);
    assert_eq!(scan_run(&s, 4, CharClass::Blank), 7);
    assert_eq!(scan_run(&s, 7, CharClass::Hex), 7);
    assert_eq!(scan_run(&s, 0, CharClass::Inline), 8);
    assert_eq!(scan_run(&s, 9, CharClass::Dec), 10);
    assert_eq!(scan_run(&s, 10, CharClass::Dec), 10);
}

#[test]
fn decode_hex_gives_the_value_or_none_on_overflow() {
    assert_eq!(decode_hex(&chars("0")), Some(0));
    assert_eq!(decode_hex(&chars("ff")), Some(255));
    assert_eq!(decode_hex(&chars("5608dd391000")), Some(0x5608dd391000));
    assert_eq!(decode_hex(&chars("ffffffffffffffff")), Some(u64::MAX));
    assert_eq!(decode_hex(&chars("10000000000000000")), None);
    assert_eq!(decode_hex(&chars("000000000000000000ff")), Some(255));
}

#[test]
fn malformed_tokens_do_not_decode() {
    assert_eq!(decode_hex(&chars("")), None);
    assert_eq!(decode_hex(&chars("FF")), None);
    assert_eq!(decode_hex(&chars("+1f")), None);
    assert_eq!(decode_hex(&chars("12g4")), None);
    assert_eq!(decode_hex(&chars(" 1")), None);
    assert_eq!(decode_dec(&chars("")), None);
    assert_eq!(decode_dec(&chars("12a")), None);
    assert_eq!(decode_dec(&chars("-1")), None);
    assert_eq!(decode_dec(&chars("1_000")), None);
}

#[test]
fn decode_dec_gives_the_value_or_none_on_overflow() {
    assert_eq!(decode_dec(&chars("6572575")), Some(6572575));
    assert_eq!(decode_dec(&chars("18446744073709551615")), Some(u64::MAX));
    assert_eq!(decode_dec(&chars("18446744073709551616")), None);
    assert_eq!(decode_dec(&chars("99999999999999999999")), None);
}

#[test]
fn strings_and_characters_convert_both_ways() {
    assert_eq!(chars_of("[vdso] \u{e9}"), chars("[vdso] \u{e9}"));
    assert_eq!(string_of(&chars("/usr/lib/\u{1f600}")), "/usr/lib/\u{1f600}");
    assert!(spells(&chars("[heap]"), "[heap]"));
    assert!(!spells(&chars("[heap"), "[heap]"));
    assert!(!spells(&chars("[heaq]"), "[heap]"));
}
