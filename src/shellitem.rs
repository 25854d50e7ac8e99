use vstd::prelude::*;
use crate::errors::{agrees, agrees_at, ErrorKind, ShellItemError};
use crate::file_entry_shell::{file_entry_result, FileEntryModel, FileEntryShellItem};
use crate::primitives::{copy_bytes, read_u16, spec_u16};

verus! {

/// The size field, class type and reserved byte that open every populated
/// shell item.
pub const SHELL_ITEM_HEADER_SIZE: u16 = 4;

/// The class type byte: category in the high nibble, sub-flags in the low.
#[derive(Debug, Clone, Copy, PartialEq, Eq, Structural)]
pub struct ClassType(pub u8);

impl ClassType {
    pub fn new(value: u8) -> (r: ClassType)
        ensures
            r.0 == value,
    {
        ClassType(value)
    }

    pub fn get_major(&self) -> (r: u8)
        ensures
            r == self.0 & 0xF0,
    {
        self.0 & 0xF0
    }

    pub fn get_minor(&self) -> (r: u8)
        ensures
            r == self.0 & 0x0F,
    {
        self.0 & 0x0F
    }

    pub fn get_type(&self) -> (r: u8)
        ensures
            r == self.0,
    {
        self.0
    }
}

/// The class types decoded as file entries.
pub open spec fn is_file_entry_class(class_type: u8) -> bool {
    0x30 <= class_type <= 0x3F
}

/// An item's bytes, kept verbatim for a class type that is not decoded.
#[derive(Debug, Clone)]
pub struct RawContent(pub Vec<u8>);

impl View for RawContent {
    type V = Seq<u8>;

    open spec fn view(&self) -> Seq<u8> {
        self.0@
    }
}

/// An item's content, as its class type selects it.
#[derive(Debug, Clone)]
pub enum ShellContent {
    Raw(RawContent),
    FileEntry(FileEntryShellItem),
    Empty,
}

/// What a `ShellContent` holds.
pub enum ShellContentModel {
    Raw(Seq<u8>),
    FileEntry(FileEntryModel),
    Empty,
}

impl View for ShellContent {
    type V = ShellContentModel;

    open spec fn view(&self) -> ShellContentModel {
        match self {
            ShellContent::Raw(x) => ShellContentModel::Raw(x@),
            ShellContent::FileEntry(x) => ShellContentModel::FileEntry(x@),
            ShellContent::Empty => ShellContentModel::Empty,
        }
    }
}

/// The body of a populated shell item.
#[derive(Debug, Clone)]
pub struct ShellData {
    pub class_type: ClassType,
    pub unknown: u8,
    pub content: ShellContent,
}

/// What a `ShellData` holds.
pub struct ShellDataModel {
    pub class_type: ClassType,
    pub unknown: u8,
    pub content: ShellContentModel,
}

impl View for ShellData {
    type V = ShellDataModel;

    open spec fn view(&self) -> ShellDataModel {
        ShellDataModel { class_type: self.class_type, unknown: self.unknown, content: self.content@ }
    }
}

/// The body that fills the frame `pos..end`: a class type, a reserved byte,
/// then a file entry or the remaining bytes verbatim.
pub open spec fn shell_data_result(b: Seq<u8>, pos: int, end: int) -> Result<ShellDataModel, ErrorKind> {
    if end - pos < 2 {
        Err(ErrorKind::IoError)
    } else {
        let class_type = ClassType(b[pos]);
        let unknown = b[pos + 1];
        if is_file_entry_class(b[pos]) {
            match file_entry_result(b, pos + 2, end, class_type) {
                Err(k) => Err(k),
                Ok(fe) => Ok(ShellDataModel { class_type, unknown, content: ShellContentModel::FileEntry(fe) }),
            }
        } else {
            Ok(ShellDataModel { class_type, unknown, content: ShellContentModel::Raw(b.subrange(pos + 2, end)) })
        }
    }
}

/// The body of an item of declared `size`, read from the start of `b`.
pub open spec fn shell_data_sized_result(b: Seq<u8>, size: u16) -> Result<ShellDataModel, ErrorKind> {
    if size < SHELL_ITEM_HEADER_SIZE {
        Err(ErrorKind::Malformed)
    } else if b.len() < size - 2 {
        Err(ErrorKind::IoError)
    } else {
        shell_data_result(b, 0, size - 2)
    }
}

impl ShellData {
    /// Decodes the body of an item of declared `size` from the start of
    /// `data` (the bytes after the item's size field).
    pub fn new(data: &[u8], size: u16) -> (r: Result<ShellData, ShellItemError>)
        ensures
            agrees(r, shell_data_sized_result(data@, size)),
    {
        if size < SHELL_ITEM_HEADER_SIZE {
            return Err(ShellItemError::malformed());
        }
        if data.len() < (size - 2) as usize {
            return Err(ShellItemError::io_error());
        }
        ShellData::parse(data, 0, (size - 2) as usize)
    }

    /// Decodes the body that fills the frame `pos..end`.
    pub fn parse(data: &[u8], pos: usize, end: usize) -> (r: Result<ShellData, ShellItemError>)
        requires
            pos <= end <= data@.len(),
        ensures
            agrees(r, shell_data_result(data@, pos as int, end as int)),
    {
        if end - pos < 2 {
            return Err(ShellItemError::io_error());
        }
        let class_type = ClassType(data[pos]);
        let unknown = data[pos + 1];
        let content = match class_type.get_type() {
            0x30..=0x3F => ShellContent::FileEntry(FileEntryShellItem::parse(data, pos + 2, end, &class_type)?),
            _ => ShellContent::Raw(RawContent(copy_bytes(data, pos + 2, end))),
        };
        Ok(ShellData { class_type, unknown, content })
    }
}

/// One framed record: its declared size and, unless that is zero, its body.
#[derive(Debug, Clone)]
pub struct ShellItem {
    pub size: u16,
    pub data: Option<ShellData>,
}

/// What a `ShellItem` holds.
pub struct ShellItemModel {
    pub size: u16,
    pub data: Option<ShellDataModel>,
}

impl View for ShellItem {
    type V = ShellItemModel;

    open spec fn view(&self) -> ShellItemModel {
        ShellItemModel {
            size: self.size,
            data: match self.data {
                Some(d) => Some(d@),
                None => None,
            },
        }
    }
}

/// The item at `pos`, with the position after it: two bytes for the
/// size-zero terminator, else its declared size.
pub open spec fn shell_item_result(b: Seq<u8>, pos: int) -> Result<(ShellItemModel, int), ErrorKind> {
    if b.len() - pos < 2 {
        Err(ErrorKind::IoError)
    } else {
        let size = spec_u16(b, pos);
        if size == 0 {
            Ok((ShellItemModel { size: 0, data: None }, pos + 2))
        } else if size < SHELL_ITEM_HEADER_SIZE {
            Err(ErrorKind::Malformed)
        } else if b.len() - pos < size {
            Err(ErrorKind::IoError)
        } else {
            match shell_data_result(b, pos + 2, pos + size) {
                Err(k) => Err(k),
                Ok(d) => Ok((ShellItemModel { size, data: Some(d) }, pos + size)),
            }
        }
    }
}

impl ShellItem {
    /// Decodes the item at the start of `data`.
    pub fn new(data: &[u8]) -> (r: Result<ShellItem, ShellItemError>)
        ensures
            agrees(r, crate::errors::value_of(shell_item_result(data@, 0))),
    {
        match ShellItem::parse(data, 0) {
            Ok((item, _)) => Ok(item),
            Err(e) => Err(e),
        }
    }

    /// Decodes the item at `pos`, with the position after it.
    pub fn parse(data: &[u8], pos: usize) -> (r: Result<(ShellItem, usize), ShellItemError>)
        requires
            pos <= data@.len(),
        ensures
            r matches Ok((_, e)) ==> pos < e <= data@.len(),
            agrees_at(r, shell_item_result(data@, pos as int)),
    {
        let len = data.len();
        let size = read_u16(data, pos, len)?;
        if size == 0 {
            return Ok((ShellItem { size: 0, data: None }, pos + 2));
        }
        if size < SHELL_ITEM_HEADER_SIZE {
            return Err(ShellItemError::malformed());
        }
        if len - pos < size as usize {
            return Err(ShellItemError::io_error());
        }
        let end = pos + size as usize;
        let body = ShellData::parse(data, pos + 2, end)?;
        Ok((ShellItem { size, data: Some(body) }, end))
    }

    pub fn get_size(&self) -> (r: u16)
        ensures
            r == self.size,
    {
        self.size
    }
}

/// A decoded item consumed two bytes if its declared size is zero (the
/// terminator, with no body), else exactly its declared size, and its body
/// is what the `size - 2` bytes after the size field decode to as a whole.
pub proof fn lemma_item_consumes_declared_size(b: Seq<u8>, pos: int)
    requires
        0 <= pos <= b.len(),
    ensures
        shell_item_result(b, pos) matches Ok((item, e)) ==> if item.size == 0 {
            e == pos + 2 && item.data is None
        } else {
            &&& e == pos + item.size
            &&& item.size >= SHELL_ITEM_HEADER_SIZE
            &&& item.data is Some
            &&& shell_data_result(b, pos + 2, pos + item.size) == Ok::<ShellDataModel, ErrorKind>(item.data->0)
        },
{
}

/// An item whose class type is not a file entry keeps the bytes after its
/// class type and reserved byte verbatim, whatever they hold.
pub proof fn lemma_raw_item_keeps_bytes(b: Seq<u8>, pos: int)
    requires
        0 <= pos,
        pos + 2 <= b.len(),
        SHELL_ITEM_HEADER_SIZE <= spec_u16(b, pos) <= b.len() - pos,
        !is_file_entry_class(b[pos + 2]),
    ensures
        shell_item_result(b, pos) == Ok::<(ShellItemModel, int), ErrorKind>(
            (
                ShellItemModel {
                    size: spec_u16(b, pos),
                    data: Some(
                        ShellDataModel {
                            class_type: ClassType(b[pos + 2]),
                            unknown: b[pos + 3],
                            content: ShellContentModel::Raw(b.subrange(pos + 4, pos + spec_u16(b, pos))),
                        },
                    ),
                },
                pos + spec_u16(b, pos),
            ),
        ),
{
}

} // verus!
