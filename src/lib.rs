//! Decoding of Windows shell item lists: the length-framed records that
//! shortcut files, jump lists and shellbags use to describe locations.
//!
//! Every decoder works on a byte slice and a bounded frame of it, and its
//! result is described exactly by a spec-level decoder over the bytes.

pub mod errors;
pub mod primitives;
pub mod extension_blocks;
pub mod file_entry_shell;
pub mod shellitem;
pub mod shelllist;
