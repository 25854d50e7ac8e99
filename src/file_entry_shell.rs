use vstd::prelude::*;
use crate::errors::{agrees, value_of, ErrorKind, ShellItemError};
use crate::extension_blocks::{empty_extension_block, extension_block_result, ExtensionBlock, ExtensionBlockModel};
use crate::primitives::{
    is_first_null_byte, is_first_null_unit, lemma_name_ends_after_first_null, lemma_name_result_bounds, name_result, read_name, spec_u16,
    spec_u32, u16_at, u32_at, DosDateTime,
};
use crate::shellitem::ClassType;

verus! {

pub const FILE_ATTRIBUTE_READONLY: u16 = 0x0001;
pub const FILE_ATTRIBUTE_HIDDEN: u16 = 0x0002;
pub const FILE_ATTRIBUTE_SYSTEM: u16 = 0x0004;
pub const FILE_ATTRIBUTE_VOLUME: u16 = 0x0008;
pub const FILE_ATTRIBUTE_DIRECTORY: u16 = 0x0010;
pub const FILE_ATTRIBUTE_ARCHIVE: u16 = 0x0020;
pub const FILE_ATTRIBUTE_DEVICE: u16 = 0x0040;
pub const FILE_ATTRIBUTE_NORMAL: u16 = 0x0080;
pub const FILE_ATTRIBUTE_TEMPORARY: u16 = 0x0100;
pub const FILE_ATTRIBUTE_SPARSE_FILE: u16 = 0x0200;
pub const FILE_ATTRIBUTE_REPARSE_POINT: u16 = 0x0400;
pub const FILE_ATTRIBUTE_COMPRESSED: u16 = 0x0800;
pub const FILE_ATTRIBUTE_OFFLINE: u16 = 0x1000;
pub const FILE_ATTRIBUTE_NOT_CONTENT_INDEXED: u16 = 0x2000;
pub const FILE_ATTRIBUTE_ENCRYPTED: u16 = 0x4000;
pub const FILE_ATTRIBUTE_INTEGRITY_STREAM: u16 = 0x8000;

/// File attribute bits. Every one of the 16 bits is a named flag, so any
/// value read is kept whole.
#[derive(Debug, Clone, Copy, PartialEq, Eq, Structural)]
pub struct FileAttributeFlags(pub u16);

impl FileAttributeFlags {
    pub fn from_bits_truncate(bits: u16) -> (r: FileAttributeFlags)
        ensures
            r.0 == bits,
    {
        FileAttributeFlags(bits)
    }

    pub fn bits(&self) -> (r: u16)
        ensures
            r == self.0,
    {
        self.0
    }

    pub fn contains(&self, mask: u16) -> (r: bool)
        ensures
            r == (self.0 & mask == mask),
    {
        self.0 & mask == mask
    }
}

pub const DIRECTORY: u8 = 0x01;
pub const FILE: u8 = 0x02;
pub const IS_UNICODE: u8 = 0x04;
pub const UNKOWN1: u8 = 0x08;

/// The sub-flags of a file entry: the low nibble of its class type.
#[derive(Debug, Clone, Copy, PartialEq, Eq, Structural)]
pub struct FileEntryItemFlags(pub u8);

impl FileEntryItemFlags {
    /// Keeps the four named bits of `bits`.
    pub fn from_bits_truncate(bits: u8) -> (r: FileEntryItemFlags)
        ensures
            r.0 == bits & 0x0F,
    {
        FileEntryItemFlags(bits & 0x0F)
    }

    pub fn bits(&self) -> (r: u8)
        ensures
            r == self.0,
    {
        self.0
    }

    pub fn contains(&self, mask: u8) -> (r: bool)
        ensures
            r == (self.0 & mask == mask),
    {
        self.0 & mask == mask
    }
}

/// A file entry shell item: a file or directory with its name and
/// extension block.
#[derive(Debug, Clone)]
pub struct FileEntryShellItem {
    pub sub_flags: FileEntryItemFlags,
    pub file_size: u32,
    pub last_modification: DosDateTime,
    pub flags: FileAttributeFlags,
    pub name: String,
    pub extention_block: ExtensionBlock,
}

/// What a `FileEntryShellItem` holds, with its name as text.
pub struct FileEntryModel {
    pub sub_flags: FileEntryItemFlags,
    pub file_size: u32,
    pub last_modification: DosDateTime,
    pub flags: FileAttributeFlags,
    pub name: Seq<char>,
    pub extention_block: ExtensionBlockModel,
}

impl View for FileEntryShellItem {
    type V = FileEntryModel;

    open spec fn view(&self) -> FileEntryModel {
        FileEntryModel {
            sub_flags: self.sub_flags,
            file_size: self.file_size,
            last_modification: self.last_modification,
            flags: self.flags,
            name: self.name@,
            extention_block: self.extention_block@,
        }
    }
}

/// The extension block after a file entry's name: none where no bytes of
/// the frame are left.
pub open spec fn entry_extension_result(b: Seq<u8>, p: int, end: int) -> Result<ExtensionBlockModel, ErrorKind> {
    if p == end {
        Ok(empty_extension_block())
    } else {
        value_of(extension_block_result(b, p, end))
    }
}

/// The file entry at `pos` in the frame ending at `end`, for an item of
/// class `class_type`.
/// Bytes of the frame after the extension block are not read: the
/// enclosing item moves on by its declared size.
pub open spec fn file_entry_result(b: Seq<u8>, pos: int, end: int, class_type: ClassType) -> Result<FileEntryModel, ErrorKind> {
    let sub_flags = FileEntryItemFlags(class_type.0 & 0x0F);
    if end - pos < 10 {
        Err(ErrorKind::IoError)
    } else {
        match name_result(b, pos + 10, end, sub_flags.0 & IS_UNICODE == IS_UNICODE) {
            Err(k) => Err(k),
            Ok((name, p)) => match entry_extension_result(b, p, end) {
                Err(k) => Err(k),
                Ok(blk) => Ok(
                    FileEntryModel {
                        sub_flags,
                        file_size: spec_u32(b, pos),
                        last_modification: DosDateTime(spec_u32(b, pos + 4)),
                        flags: FileAttributeFlags(spec_u16(b, pos + 8)),
                        name,
                        extention_block: blk,
                    },
                ),
            },
        }
    }
}

impl FileEntryShellItem {
    /// Decodes the file entry that fills `data` (the item's bytes after its
    /// size, class type and reserved byte).
    pub fn new(data: &[u8], class_type: &ClassType) -> (r: Result<FileEntryShellItem, ShellItemError>)
        ensures
            agrees(r, file_entry_result(data@, 0, data@.len() as int, *class_type)),
    {
        FileEntryShellItem::parse(data, 0, data.len(), class_type)
    }

    /// Decodes the file entry at `pos` in the frame ending at `end`.
    pub fn parse(data: &[u8], pos: usize, end: usize, class_type: &ClassType) -> (r: Result<FileEntryShellItem, ShellItemError>)
        requires
            pos <= end <= data@.len(),
        ensures
            agrees(r, file_entry_result(data@, pos as int, end as int, *class_type)),
    {
        let class_byte = class_type.get_type();
        let minor = class_type.get_minor();
        let sub_flags = FileEntryItemFlags::from_bits_truncate(minor);
        assert(minor & 0x0F == minor) by (bit_vector)
            requires
                minor == class_byte & 0x0F,
        ;
        if end - pos < 10 {
            return Err(ShellItemError::io_error());
        }
        let file_size = u32_at(data, pos);
        let last_modification = DosDateTime(u32_at(data, pos + 4));
        let flags = FileAttributeFlags::from_bits_truncate(u16_at(data, pos + 8));
        let (name, p) = read_name(data, pos + 10, end, sub_flags.contains(IS_UNICODE))?;
        let extention_block = if p == end {
            ExtensionBlock { size: 0, header: None, content: None }
        } else {
            let (blk, _) = ExtensionBlock::parse(data, p, end)?;
            blk
        };
        Ok(FileEntryShellItem { sub_flags, file_size, last_modification, flags, name, extention_block })
    }
}

/// A decoded file entry's name is the name at offset 10, read up to its
/// first null, and its extension block starts right after it: after the
/// null code unit for a UTF-16 name, with no alignment byte; after the null
/// byte and, where the name with its null is of odd length on the wire, one
/// alignment byte for a single-byte name. Where the name ends the frame the
/// block is the empty one; else its size is the two bytes there.
pub proof fn lemma_file_entry_name_then_extension(b: Seq<u8>, pos: int, end: int, class_type: ClassType)
    requires
        0 <= pos <= end <= b.len(),
    ensures
        file_entry_result(b, pos, end, class_type) matches Ok(f) ==> {
            let unicode = f.sub_flags.0 & IS_UNICODE == IS_UNICODE;
            let n = name_result(b, pos + 10, end, unicode);
            &&& n is Ok
            &&& f.name == n->Ok_0.0
            &&& unicode ==> is_first_null_unit(b, pos + 10, n->Ok_0.1 - 2)
            &&& !unicode ==> exists|t: int| #[trigger]
                is_first_null_byte(b, pos + 10, t) && n->Ok_0.1 == t + 1 + (t - pos - 10 + 1) % 2
            &&& n->Ok_0.1 == end ==> f.extention_block.size == 0
            &&& n->Ok_0.1 < end ==> f.extention_block.size == spec_u16(b, n->Ok_0.1)
        },
{
    if end - pos >= 10 {
        let unicode = (class_type.0 & 0x0F) & IS_UNICODE == IS_UNICODE;
        lemma_name_ends_after_first_null(b, pos + 10, end, unicode);
        lemma_name_result_bounds(b, pos + 10, end, unicode);
    }
}

} // verus!
