use rsprocmaps::{
    AddressRange, Device, Error, Expected, Fields, GrammarError, MemoryMap, NumericField,
    Pathname, Permissions,
};

#[test]
fn test_parse_map() {
    let map =
        MemoryMap::parse("5608dd391000-5608dd3be000 r--p 00000000 08:11 6572575 /bin/bash")
            .unwrap();

    assert_eq!(map.address_range.begin, 0x5608dd391000);
    assert_eq!(map.address_range.end, 0x5608dd3be000);

    assert!(map.permissions.readable);
    assert!(!map.permissions.writable);
    assert!(!map.permissions.executable);
    assert!(!map.permissions.shared);
    assert!(map.permissions.private);

    assert_eq!(map.offset, 0);

    assert_eq!(map.device.major, 8);
    assert_eq!(map.device.minor, 17);

    assert_eq!(map.inode, 6572575);

    assert_eq!(map.pathname, Pathname::Path("/bin/bash".into()));
}

#[test]
fn parse_gives_the_whole_record() {
    let map = MemoryMap::parse("7f0c4a200000-7f0c4a3e9000 rwxs 001e7000 fd:0a 12345 [heap]")
        .unwrap();
    assert_eq!(
        map,
        MemoryMap {
            address_range: AddressRange { begin: 0x7f0c4a200000, end: 0x7f0c4a3e9000 },
            permissions: Permissions {
                readable: true,
                writable: true,
                executable: true,
                shared: true,
                private: false,
            },
            offset: 0x1e7000,
            device: Device { major: 0xfd, minor: 0x0a },
            inode: 12345,
            pathname: Pathname::Heap,
        }
    );
}

#[test]
fn inode_is_decimal_and_device_is_hexadecimal() {
    let map = MemoryMap::parse("10-20 r--p 10 10:10 10").unwrap();
    assert_eq!(map.address_range.begin, 16);
    assert_eq!(map.address_range.end, 32);
    assert_eq!(map.offset, 16);
    assert_eq!(map.device.major, 16);
    assert_eq!(map.device.minor, 16);
    assert_eq!(map.inode, 10);
}

#[test]
fn empty_pathname_is_mmap() {
    let bare = MemoryMap::parse("7ffd1000-7ffd2000 rw-p 00000000 00:00 0").unwrap();
    assert_eq!(bare.pathname, Pathname::Mmap);
    let padded = MemoryMap::parse("7ffd1000-7ffd2000 rw-p 00000000 00:00 0   ").unwrap();
    assert_eq!(padded.pathname, Pathname::Mmap);
    let tabbed = MemoryMap::parse("7ffd1000-7ffd2000 rw-p 00000000 00:00 0 \t").unwrap();
    assert_eq!(tabbed.pathname, Pathname::Mmap);
}

#[test]
fn known_pseudo_paths_have_their_own_variants() {
    let cases = [
        ("[stack]", Pathname::Stack),
        ("[vdso]", Pathname::Vdso),
        ("[vvar]", Pathname::Vvar),
        ("[vsyscall]", Pathname::Vsyscall),
        ("[heap]", Pathname::Heap),
    ];
    for (text, expected) in cases {
        let line = format!("1000-2000 r-xp 00000000 00:00 0                  {}", text);
        assert_eq!(MemoryMap::parse(&line).unwrap().pathname, expected);
        let chars: Vec<char> = text.chars().collect();
        assert_eq!(Pathname::classify(&chars), expected);
    }
}

#[test]
fn other_bracketed_names_are_kept_verbatim() {
    let map = MemoryMap::parse("1000-2000 r--p 00000000 00:00 0 [anon:libc_malloc]").unwrap();
    assert_eq!(map.pathname, Pathname::OtherPseudo("[anon:libc_malloc]".into()));
    let map = MemoryMap::parse("1000-2000 r--p 00000000 00:00 0 [stack:1234]").unwrap();
    assert_eq!(map.pathname, Pathname::OtherPseudo("[stack:1234]".into()));
    let map = MemoryMap::parse("1000-2000 r--p 00000000 00:00 0 []").unwrap();
    assert_eq!(map.pathname, Pathname::OtherPseudo("[]".into()));
    let map = MemoryMap::parse("1000-2000 r--p 00000000 00:00 0 [a] b]").unwrap();
    assert_eq!(map.pathname, Pathname::OtherPseudo("[a] b]".into()));
}

#[test]
fn half_bracketed_names_are_paths() {
    let map = MemoryMap::parse("1000-2000 r--p 00000000 00:00 0 [").unwrap();
    assert_eq!(map.pathname, Pathname::Path("[".into()));
    let map = MemoryMap::parse("1000-2000 r--p 00000000 00:00 0 [heap").unwrap();
    assert_eq!(map.pathname, Pathname::Path("[heap".into()));
    let map = MemoryMap::parse("1000-2000 r--p 00000000 00:00 0 heap]").unwrap();
    assert_eq!(map.pathname, Pathname::Path("heap]".into()));
    let map = MemoryMap::parse("1000-2000 r--p 00000000 00:00 0 [heap] ").unwrap();
    assert_eq!(map.pathname, Pathname::Path("[heap] ".into()));
}

#[test]
fn paths_are_kept_unparsed() {
    let map =
        MemoryMap::parse("1000-2000 r--p 00000000 08:01 42 /tmp/a b\\012c (deleted)").unwrap();
    assert_eq!(map.pathname, Pathname::Path("/tmp/a b\\012c (deleted)".into()));
    let map = MemoryMap::parse("1000-2000 r--p 00000000 08:01 42 /home/zo\u{eb}/\u{1f600}.so")
        .unwrap();
    assert_eq!(map.pathname, Pathname::Path("/home/zo\u{eb}/\u{1f600}.so".into()));
}

#[test]
fn exactly_one_of_shared_and_private() {
    for mask in ["r--p", "rw-s", "---p", "rwxs", "r-ep", "--xs"] {
        let line = format!("1000-2000 {} 00000000 00:00 0", mask);
        let map = MemoryMap::parse(&line).unwrap();
        assert_ne!(map.permissions.shared, map.permissions.private);
        assert_eq!(map.permissions.shared, mask.ends_with('s'));
    }
}

#[test]
fn only_x_marks_a_map_executable() {
    let x = MemoryMap::parse("1000-2000 r-xp 00000000 00:00 0").unwrap();
    assert!(x.permissions.executable);
    let e = MemoryMap::parse("1000-2000 r-ep 00000000 00:00 0").unwrap();
    assert!(!e.permissions.executable);
    let none = MemoryMap::parse("1000-2000 r--p 00000000 00:00 0").unwrap();
    assert!(!none.permissions.executable);
}

#[test]
fn permissions_from_mask_reads_each_flag_at_its_index() {
    let mask: Vec<char> = "-w-s".chars().collect();
    assert_eq!(
        Permissions::from_mask(&mask),
        Permissions {
            readable: false,
            writable: true,
            executable: false,
            shared: true,
            private: false,
        }
    );
    let short: Vec<char> = "rw".chars().collect();
    assert_eq!(
        Permissions::from_mask(&short),
        Permissions {
            readable: true,
            writable: true,
            executable: false,
            shared: false,
            private: true,
        }
    );
}

fn width_error_of(line: &str) -> NumericField {
    match MemoryMap::parse(line) {
        Err(Error::WidthError(field)) => field,
        other => panic!("expected a width error, got {:?}", other),
    }
}

#[test]
fn seventeen_digit_hex_token_is_a_width_error() {
    assert_eq!(
        width_error_of("10000000000000000-2 r--p 0 0:0 0"),
        NumericField::AddressBegin
    );
    assert_eq!(
        width_error_of("1-fffffffffffffffff r--p 0 0:0 0"),
        NumericField::AddressEnd
    );
    assert_eq!(
        width_error_of("1-2 r--p 123456789abcdef01 0:0 0"),
        NumericField::Offset
    );
    assert_eq!(
        width_error_of("1-2 r--p 0 10000000000000000:0 0"),
        NumericField::DeviceMajor
    );
    assert_eq!(
        width_error_of("1-2 r--p 0 0:10000000000000000 0"),
        NumericField::DeviceMinor
    );
}

#[test]
fn the_first_wide_field_is_reported() {
    assert_eq!(
        width_error_of("1-10000000000000000 r--p 10000000000000000 0:0 99999999999999999999"),
        NumericField::AddressEnd
    );
}

#[test]
fn inode_overflow_is_a_width_error() {
    assert_eq!(
        width_error_of("1-2 r--p 0 0:0 18446744073709551616"),
        NumericField::Inode
    );
    let map = MemoryMap::parse("1-2 r--p 0 0:0 18446744073709551615").unwrap();
    assert_eq!(map.inode, u64::MAX);
}

#[test]
fn fields_that_are_no_numbers_are_width_errors() {
    let hex: Vec<char> = "1f".chars().collect();
    let dec: Vec<char> = "42".chars().collect();
    let mask: Vec<char> = "r--p".chars().collect();
    let junk: Vec<char> = "4z".chars().collect();
    let good = Fields {
        begin: &hex,
        end: &hex,
        permissions: &mask,
        offset: &hex,
        major: &hex,
        minor: &hex,
        inode: &dec,
        pathname: &[],
    };
    assert_eq!(MemoryMap::from_fields(&good).unwrap().inode, 42);
    let bad_inode = Fields { inode: &junk, ..good };
    assert_eq!(MemoryMap::from_fields(&bad_inode), Err(NumericField::Inode));
    let hex_inode = Fields { inode: &hex, ..good };
    assert_eq!(MemoryMap::from_fields(&hex_inode), Err(NumericField::Inode));
    let no_offset = Fields { offset: &[], ..good };
    assert_eq!(MemoryMap::from_fields(&no_offset), Err(NumericField::Offset));
    let two_bad = Fields { end: &junk, minor: &junk, ..good };
    assert_eq!(MemoryMap::from_fields(&two_bad), Err(NumericField::AddressEnd));
}

#[test]
fn sixteen_digit_hex_tokens_fit() {
    let map =
        MemoryMap::parse("ffffffffffffffff-ffffffffffffffff r--p ffffffffffffffff 0:0 0").unwrap();
    assert_eq!(map.address_range.begin, u64::MAX);
    assert_eq!(map.address_range.end, u64::MAX);
    assert_eq!(map.offset, u64::MAX);
}

#[test]
fn leading_zeros_do_not_overflow() {
    let map = MemoryMap::parse("00000000000000000001-2 r--p 0 0:0 0000000000000000000000007")
        .unwrap();
    assert_eq!(map.address_range.begin, 1);
    assert_eq!(map.inode, 7);
}

fn grammar_error_of(line: &str) -> GrammarError {
    match MemoryMap::parse(line) {
        Err(Error::ParseError(e)) => e,
        other => panic!("expected a grammar error, got {:?}", other),
    }
}

#[test]
fn line_without_device_is_a_grammar_error() {
    let e = grammar_error_of("5608dd391000-5608dd3be000 r--p 00000000 6572575 /bin/bash");
    assert_eq!(e, GrammarError { position: 47, expected: Expected::Colon });
}

#[test]
fn truncated_lines_are_grammar_errors() {
    assert_eq!(grammar_error_of(""), GrammarError { position: 0, expected: Expected::HexDigit });
    assert_eq!(
        grammar_error_of("5608dd391000"),
        GrammarError { position: 12, expected: Expected::Dash }
    );
    assert_eq!(
        grammar_error_of("5608dd391000-"),
        GrammarError { position: 13, expected: Expected::HexDigit }
    );
    assert_eq!(
        grammar_error_of("1000-2000"),
        GrammarError { position: 9, expected: Expected::Separator }
    );
    assert_eq!(
        grammar_error_of("1000-2000 "),
        GrammarError { position: 10, expected: Expected::ReadFlag }
    );
    assert_eq!(
        grammar_error_of("1000-2000 r--p"),
        GrammarError { position: 14, expected: Expected::Separator }
    );
    assert_eq!(
        grammar_error_of("1000-2000 r--p 0"),
        GrammarError { position: 16, expected: Expected::Separator }
    );
    assert_eq!(
        grammar_error_of("1000-2000 r--p 0 08:"),
        GrammarError { position: 20, expected: Expected::HexDigit }
    );
    assert_eq!(
        grammar_error_of("1000-2000 r--p 0 08:11"),
        GrammarError { position: 22, expected: Expected::Separator }
    );
    assert_eq!(
        grammar_error_of("1000-2000 r--p 0 08:11 "),
        GrammarError { position: 23, expected: Expected::DecDigit }
    );
}

#[test]
fn flags_outside_their_alphabet_are_grammar_errors() {
    assert_eq!(
        grammar_error_of("1000-2000 x--p 0 0:0 0"),
        GrammarError { position: 10, expected: Expected::ReadFlag }
    );
    assert_eq!(
        grammar_error_of("1000-2000 rr-p 0 0:0 0"),
        GrammarError { position: 11, expected: Expected::WriteFlag }
    );
    assert_eq!(
        grammar_error_of("1000-2000 rwwp 0 0:0 0"),
        GrammarError { position: 12, expected: Expected::ExecuteFlag }
    );
    assert_eq!(
        grammar_error_of("1000-2000 rwx- 0 0:0 0"),
        GrammarError { position: 13, expected: Expected::ShareFlag }
    );
    assert_eq!(
        grammar_error_of("1000-2000 rwxpp 0 0:0 0"),
        GrammarError { position: 14, expected: Expected::Separator }
    );
}

#[test]
fn uppercase_hex_is_a_grammar_error() {
    assert_eq!(
        grammar_error_of("ABC-def r--p 0 0:0 0"),
        GrammarError { position: 0, expected: Expected::HexDigit }
    );
    assert_eq!(
        grammar_error_of("abc-dEf r--p 0 0:0 0"),
        GrammarError { position: 5, expected: Expected::Separator }
    );
}

#[test]
fn inode_must_be_followed_by_a_blank_or_the_end() {
    assert_eq!(
        grammar_error_of("1000-2000 r--p 0 0:0 12ab"),
        GrammarError { position: 23, expected: Expected::Separator }
    );
    assert_eq!(
        grammar_error_of("1000-2000 r--p 0 0:0 12/bin/sh"),
        GrammarError { position: 23, expected: Expected::Separator }
    );
}

#[test]
fn grammar_is_checked_before_widths() {
    let e = grammar_error_of("10000000000000000-2 r--p 0 0:0");
    assert_eq!(e, GrammarError { position: 30, expected: Expected::Separator });
}

#[test]
fn fields_may_be_separated_by_several_blanks() {
    let map = MemoryMap::parse("1000-2000  r--p\t0 \t 08:11   7    /bin/sh").unwrap();
    assert_eq!(map.address_range.end, 0x2000);
    assert_eq!(map.device.minor, 0x11);
    assert_eq!(map.inode, 7);
    assert_eq!(map.pathname, Pathname::Path("/bin/sh".into()));
}

#[test]
fn parse_chars_agrees_with_parse() {
    let line = "7ffc3a1b2000-7ffc3a1d3000 rw-p 00000000 00:00 0                          [stack]";
    let chars: Vec<char> = line.chars().collect();
    assert_eq!(MemoryMap::parse_chars(&chars).unwrap(), MemoryMap::parse(line).unwrap());
}

#[test]
fn default_map_is_a_zero_filled_anonymous_mapping() {
    let map = MemoryMap::default();
    assert_eq!(
        map,
        MemoryMap {
            address_range: AddressRange { begin: 0, end: 0 },
            permissions: Permissions {
                readable: false,
                writable: false,
                executable: false,
                shared: false,
                private: false,
            },
            offset: 0,
            device: Device { major: 0, minor: 0 },
            inode: 0,
            pathname: Pathname::Mmap,
        }
    );
    assert_eq!(map.permissions, Permissions::default());
}

#[test]
fn errors_convert_from_their_causes() {
    let cause = GrammarError { position: 3, expected: Expected::Dash };
    assert!(matches!(Error::from(cause), Error::ParseError(e) if e == cause));
    assert!(matches!(
        Error::from(NumericField::Offset),
        Error::WidthError(NumericField::Offset)
    ));
    let io = std::io::Error::new(std::io::ErrorKind::NotFound, "gone");
    assert!(matches!(Error::from(io), Error::Io(e) if e.kind() == std::io::ErrorKind::NotFound));
}

#[test]
fn grammar_errors_say_what_was_expected_and_where() {
    let e = grammar_error_of("5608dd391000-5608dd3be000 r--p 00000000 6572575 /bin/bash");
    assert_eq!(e.message(), "expected `:` at character 47");
    assert_eq!(
        GrammarError { position: 0, expected: Expected::HexDigit }.message(),
        "expected a hexadecimal digit at character 0"
    );
    assert_eq!(Expected::Separator.describe(), "a space or tab");
    assert_eq!(Expected::ExecuteFlag.describe(), "`x`, `e` or `-`");
    assert_eq!(Expected::DecDigit.describe(), "a decimal digit");
}

#[test]
fn width_errors_name_their_field() {
    assert_eq!(NumericField::Inode.message(), "inode: number too large to fit in 64 bits");
    assert_eq!(NumericField::AddressBegin.name(), "first address");
    assert_eq!(NumericField::AddressEnd.name(), "second address");
    assert_eq!(NumericField::Offset.name(), "offset");
    assert_eq!(NumericField::DeviceMajor.name(), "device major number");
    assert_eq!(NumericField::DeviceMinor.name(), "device minor number");
}
