use rsprocmaps::{AddressRange, Device, MemoryMap, Permissions};

#[test]
fn address_range_renders_in_lowercase_hex() {
    let range = AddressRange { begin: 0x5608dd391000, end: 0x5608dd3be000 };
    assert_eq!(range.render(), "5608dd391000-5608dd3be000");
    assert_eq!(AddressRange { begin: 0, end: 0 }.render(), "0-0");
    assert_eq!(AddressRange { begin: 0xf, end: 0x10 }.render(), "f-10");
    assert_eq!(
        AddressRange { begin: u64::MAX, end: 0xabcdef0123456789 }.render(),
        "ffffffffffffffff-abcdef0123456789"
    );
}

#[test]
fn permissions_render_as_a_mask_of_four() {
    let all = Permissions {
        readable: true,
        writable: true,
        executable: true,
        shared: true,
        private: false,
    };
    assert_eq!(all.render(), "rwxs");
    let read_only = Permissions {
        readable: true,
        writable: false,
        executable: false,
        shared: false,
        private: true,
    };
    assert_eq!(read_only.render(), "r--p");
    assert_eq!(Permissions::default().render(), "---p");
}

#[test]
fn device_renders_padded_and_dash_joined() {
    assert_eq!(Device { major: 8, minor: 17 }.render(), "08-11");
    assert_eq!(Device { major: 0, minor: 0 }.render(), "00-00");
    assert_eq!(Device { major: 0xfd, minor: 0xa }.render(), "fd-0a");
    assert_eq!(Device { major: 0x103, minor: 0x10 }.render(), "103-10");
}

#[test]
fn rendered_subfields_read_back() {
    let line = "7f0c4a200000-7f0c4a3e9000 rw-s 001e7000 fd:0a 12345 /usr/lib/libc.so.6";
    let map = MemoryMap::parse(line).unwrap();
    let again = format!(
        "{} {} 0 {} 0",
        map.address_range.render(),
        map.permissions.render(),
        map.device.render().replace('-', ":")
    );
    let reread = MemoryMap::parse(&again).unwrap();
    assert_eq!(reread.address_range, map.address_range);
    assert_eq!(reread.permissions, map.permissions);
    assert_eq!(reread.device, map.device);
}
