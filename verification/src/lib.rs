//! Typed decoding of the per-process memory-map listing of a Unix-like kernel.
//!
//! One line of the listing describes one mapped region:
//!
//! ```text
//! <begin>-<end> <perms> <offset> <major>:<minor> <inode>[ <pathname>]
//! ```
//!
//! [`MemoryMap::parse`] turns such a line into a [`MemoryMap`]; [`Maps`] walks a whole
//! listing line by line.

pub mod chars;
pub mod text;
pub mod numeric;
pub mod error;
pub mod record;
pub mod grammar;
pub mod decode;
pub mod maps;
pub mod process;
pub mod shape;
pub mod laws;

pub use crate::error::{Error, Expected, GrammarError, NumericField};
pub use crate::grammar::{tokenize, Fields};
pub use crate::maps::{decode_read, from_str, Maps};
pub use crate::process::maps_path;
pub use crate::record::{AddressRange, Device, MemoryMap, Pathname, Permissions};
