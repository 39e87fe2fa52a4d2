//! The decoded record and its parts.

use vstd::prelude::*;
use crate::numeric::{hex_text, hex_text_padded, push_hex};
use crate::text::{spells, string_of};

verus! {

/// The variants of the pathname field of a record.
#[derive(Debug, PartialEq, Eq)]
pub enum Pathname {
    /// `[stack]`
    Stack,
    /// `[vdso]`
    Vdso,
    /// `[vvar]`
    Vvar,
    /// `[vsyscall]`
    Vsyscall,
    /// `[heap]`
    Heap,
    /// An empty field: an anonymous mapping.
    Mmap,
    /// Another name in square brackets, kept with its brackets.
    OtherPseudo(String),
    /// Anything else, kept as it was written.
    Path(String),
}

/// The mathematical model of a [`Pathname`].
pub enum PathnameView {
    Stack,
    Vdso,
    Vvar,
    Vsyscall,
    Heap,
    Mmap,
    OtherPseudo(Seq<char>),
    Path(Seq<char>),
}

impl View for Pathname {
    type V = PathnameView;

    open spec fn view(&self) -> PathnameView {
        match self {
            Pathname::Stack => PathnameView::Stack,
            Pathname::Vdso => PathnameView::Vdso,
            Pathname::Vvar => PathnameView::Vvar,
            Pathname::Vsyscall => PathnameView::Vsyscall,
            Pathname::Heap => PathnameView::Heap,
            Pathname::Mmap => PathnameView::Mmap,
            Pathname::OtherPseudo(text) => PathnameView::OtherPseudo(text@),
            Pathname::Path(text) => PathnameView::Path(text@),
        }
    }
}

impl Clone for Pathname {
    fn clone(&self) -> (r: Pathname)
        ensures
            r@ == self@,
    {
        match self {
            Pathname::Stack => Pathname::Stack,
            Pathname::Vdso => Pathname::Vdso,
            Pathname::Vvar => Pathname::Vvar,
            Pathname::Vsyscall => Pathname::Vsyscall,
            Pathname::Heap => Pathname::Heap,
            Pathname::Mmap => Pathname::Mmap,
            Pathname::OtherPseudo(text) => Pathname::OtherPseudo(text.clone()),
            Pathname::Path(text) => Pathname::Path(text.clone()),
        }
    }
}

/// The text has the shape of a pseudo-path: it opens with `[` and closes
/// with `]`.
pub open spec fn is_bracketed(text: Seq<char>) -> bool {
    text.len() > 0 && text.first() == '[' && text.last() == ']'
}

/// The variant that the text of a pathname field stands for.
pub open spec fn classify_spec(text: Seq<char>) -> PathnameView {
    if text.len() == 0 {
        PathnameView::Mmap
    } else if text == "[stack]"@ {
        PathnameView::Stack
    } else if text == "[vdso]"@ {
        PathnameView::Vdso
    } else if text == "[vvar]"@ {
        PathnameView::Vvar
    } else if text == "[vsyscall]"@ {
        PathnameView::Vsyscall
    } else if text == "[heap]"@ {
        PathnameView::Heap
    } else if is_bracketed(text) {
        PathnameView::OtherPseudo(text)
    } else {
        PathnameView::Path(text)
    }
}

impl Pathname {
    /// Classifies the text of a pathname field.
    pub fn classify(text: &[char]) -> (r: Pathname)
        ensures
            r@ == classify_spec(text@),
    {
        let n = text.len();
        if n == 0 {
            Pathname::Mmap
        } else if spells(text, "[stack]") {
            Pathname::Stack
        } else if spells(text, "[vdso]") {
            Pathname::Vdso
        } else if spells(text, "[vvar]") {
            Pathname::Vvar
        } else if spells(text, "[vsyscall]") {
            Pathname::Vsyscall
        } else if spells(text, "[heap]") {
            Pathname::Heap
        } else if text[0] == '[' && text[n - 1] == ']' {
            Pathname::OtherPseudo(string_of(text))
        } else {
            Pathname::Path(string_of(text))
        }
    }
}

/// The address range of a map.
#[derive(Debug, Clone, Copy, PartialEq, Eq)]
pub struct AddressRange {
    pub begin: u64,
    pub end: u64,
}

impl AddressRange {
    /// The range as text: both addresses in lowercase hexadecimal, joined
    /// by `-`.
    pub open spec fn text(self) -> Seq<char> {
        hex_text(self.begin as nat) + seq!['-'] + hex_text(self.end as nat)
    }

    /// Renders the range as text.
    pub fn render(&self) -> (r: String)
        ensures
            r@ == self.text(),
    {
        let mut r = String::new();
        push_hex(&mut r, self.begin);
        r.push('-');
        push_hex(&mut r, self.end);
        assert(r@ == self.text());
        r
    }
}

/// The permissions associated with a map.
#[derive(Debug, Clone, Copy, PartialEq, Eq)]
pub struct Permissions {
    pub readable: bool,
    pub writable: bool,
    pub executable: bool,
    pub shared: bool,
    pub private: bool,
}

impl Permissions {
    /// The permissions as a mask of four characters: `r`, `w` and `x` where
    /// the flag is set and `-` where it is not, then `s` for a shared map and
    /// `p` otherwise.
    pub open spec fn text(self) -> Seq<char> {
        seq![
            if self.readable { 'r' } else { '-' },
            if self.writable { 'w' } else { '-' },
            if self.executable { 'x' } else { '-' },
            if self.shared { 's' } else { 'p' },
        ]
    }

    /// Renders the permissions as a mask of four characters.
    pub fn render(&self) -> (r: String)
        ensures
            r@ == self.text(),
    {
        let mut mask = String::new();
        if self.readable {
            mask.push('r');
        } else {
            mask.push('-');
        }
        if self.writable {
            mask.push('w');
        } else {
            mask.push('-');
        }
        if self.executable {
            mask.push('x');
        } else {
            mask.push('-');
        }
        if self.shared {
            mask.push('s');
        } else {
            mask.push('p');
        }
        assert(mask@ == self.text());
        mask
    }
}

impl Default for Permissions {
    fn default() -> (r: Permissions)
        ensures
            r == (Permissions {
                readable: false,
                writable: false,
                executable: false,
                shared: false,
                private: false,
            }),
    {
        Permissions {
            readable: false,
            writable: false,
            executable: false,
            shared: false,
            private: false,
        }
    }
}

/// The device associated with a map.
#[derive(Debug, Clone, Copy, PartialEq, Eq)]
pub struct Device {
    pub major: u64,
    pub minor: u64,
}

impl Device {
    /// The device as text: both numbers in lowercase hexadecimal with at
    /// least two digits, joined by `-`.
    pub open spec fn text(self) -> Seq<char> {
        hex_text_padded(self.major as nat) + seq!['-'] + hex_text_padded(self.minor as nat)
    }

    /// Renders the device as text.
    pub fn render(&self) -> (r: String)
        ensures
            r@ == self.text(),
    {
        let mut r = String::new();
        if self.major < 16 {
            r.push('0');
        }
        push_hex(&mut r, self.major);
        r.push('-');
        if self.minor < 16 {
            r.push('0');
        }
        push_hex(&mut r, self.minor);
        assert(r@ == self.text());
        r
    }
}

/// A map, i.e. a region of program memory.
#[derive(Debug, PartialEq, Eq)]
pub struct MemoryMap {
    /// The map's address range.
    pub address_range: AddressRange,
    /// The map's permissions.
    pub permissions: Permissions,
    /// The offset of the map within its source.
    pub offset: u64,
    /// The device that the map's inode belongs on.
    pub device: Device,
    /// The map's inode (or 0 if inapplicable).
    pub inode: u64,
    /// The map's pathname field.
    pub pathname: Pathname,
}

/// The mathematical model of a [`MemoryMap`].
pub struct MemoryMapView {
    pub address_range: AddressRange,
    pub permissions: Permissions,
    pub offset: u64,
    pub device: Device,
    pub inode: u64,
    pub pathname: PathnameView,
}

impl View for MemoryMap {
    type V = MemoryMapView;

    open spec fn view(&self) -> MemoryMapView {
        MemoryMapView {
            address_range: self.address_range,
            permissions: self.permissions,
            offset: self.offset,
            device: self.device,
            inode: self.inode,
            pathname: self.pathname@,
        }
    }
}

/// The model of the default map: an anonymous mapping with every number
/// zero and every flag unset.
pub open spec fn zero_map() -> MemoryMapView {
    MemoryMapView {
        address_range: AddressRange { begin: 0, end: 0 },
        permissions: Permissions {
            readable: false,
            writable: false,
            executable: false,
            shared: false,
            private: false,
        },
        offset: 0,
        device: Device { major: 0, minor: 0 },
        inode: 0,
        pathname: PathnameView::Mmap,
    }
}

impl Default for MemoryMap {
    fn default() -> (r: MemoryMap)
        ensures
            r@ == zero_map(),
    {
        MemoryMap {
            address_range: AddressRange { begin: 0, end: 0 },
            permissions: Permissions::default(),
            offset: 0,
            device: Device { major: 0, minor: 0 },
            inode: 0,
            pathname: Pathname::Mmap,
        }
    }
}

} // verus!
