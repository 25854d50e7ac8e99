use vstd::prelude::*;
use crate::errors::{agrees, agrees_at, value_of, ErrorKind, ShellItemError};
use crate::primitives::{
    copy_bytes, opt_text, read_string_u16_till_null, read_u16, spec_u16, spec_u32, spec_u64,
    u16_at, u32_at, u64_at, utf16_string_result, DosDateTime, MftReference,
};

verus! {

/// The signature of the file entry extension payload.
pub const BEEF0004_SIGNATURE: u32 = 0xBEEF0004;

/// The size field, version and signature that open every populated
/// extension block.
pub const EXTENSION_HEADER_SIZE: u16 = 8;

/// The file entry extension payload (signature 0xBEEF0004).
#[derive(Debug, Clone)]
pub struct Beef0004 {
    pub creation: DosDateTime,
    pub last_access: DosDateTime,
    pub identifier: u16,
    pub file_reference: Option<MftReference>,
    pub long_string_size: Option<u16>,
    pub name: Option<String>,
    pub long_name: Option<String>,
    pub localized_name: Option<String>,
    pub version_offset: Option<u16>,
}

/// What a `Beef0004` holds, with names as text.
pub struct Beef0004Model {
    pub creation: DosDateTime,
    pub last_access: DosDateTime,
    pub identifier: u16,
    pub file_reference: Option<MftReference>,
    pub long_string_size: Option<u16>,
    pub name: Option<Seq<char>>,
    pub long_name: Option<Seq<char>>,
    pub localized_name: Option<Seq<char>>,
    pub version_offset: Option<u16>,
}

impl View for Beef0004 {
    type V = Beef0004Model;

    open spec fn view(&self) -> Beef0004Model {
        Beef0004Model {
            creation: self.creation,
            last_access: self.last_access,
            identifier: self.identifier,
            file_reference: self.file_reference,
            long_string_size: self.long_string_size,
            name: opt_text(self.name),
            long_name: opt_text(self.long_name),
            localized_name: opt_text(self.localized_name),
            version_offset: self.version_offset,
        }
    }
}

/// The versions whose layout is known.
pub open spec fn is_known_beef0004_version(version: u16) -> bool {
    version == 3 || version == 8 || version == 9
}

/// The bytes before the name: timestamps and identifier, then for versions
/// 8 and 9 reserved fields and the file reference, then the long name size
/// hint and, for versions 8 and 9, one or two reserved 32-bit fields.
pub open spec fn beef0004_fixed_len(version: u16) -> int {
    if version == 3 {
        12
    } else if version == 8 {
        34
    } else {
        38
    }
}

/// Where the long name size hint lies, from the payload's start.
pub open spec fn beef0004_hint_offset(version: u16) -> int {
    if version == 3 {
        10
    } else {
        28
    }
}

/// The long name, present where the size hint is not zero.
pub open spec fn long_name_result(b: Seq<u8>, p: int, end: int, hint: u16) -> Result<(Option<Seq<char>>, int), ErrorKind> {
    if hint > 0 {
        match utf16_string_result(b, p, end) {
            Err(k) => Err(k),
            Ok((s, e)) => Ok((Some(s), e)),
        }
    } else {
        Ok((None, p))
    }
}

/// The payload at `pos` in the frame ending at `end`, for the header's
/// `version`. Bytes of the frame after the version offset are not read:
/// the enclosing block moves on by its declared size.
pub open spec fn beef0004_result(b: Seq<u8>, pos: int, end: int, version: u16) -> Result<Beef0004Model, ErrorKind> {
    if !is_known_beef0004_version(version) {
        Err(ErrorKind::UnsupportedVersion)
    } else if end - pos < beef0004_fixed_len(version) {
        Err(ErrorKind::IoError)
    } else {
        let hint = spec_u16(b, pos + beef0004_hint_offset(version));
        match utf16_string_result(b, pos + beef0004_fixed_len(version), end) {
            Err(k) => Err(k),
            Ok((name, p1)) => match long_name_result(b, p1, end, hint) {
                Err(k) => Err(k),
                Ok((long_name, p2)) => if p2 + 2 > end {
                    Err(ErrorKind::IoError)
                } else {
                    Ok(
                        Beef0004Model {
                            creation: DosDateTime(spec_u32(b, pos)),
                            last_access: DosDateTime(spec_u32(b, pos + 4)),
                            identifier: spec_u16(b, pos + 8),
                            file_reference: if version == 3 {
                                None
                            } else {
                                Some(MftReference(spec_u64(b, pos + 12)))
                            },
                            long_string_size: Some(hint),
                            name: Some(name),
                            long_name,
                            localized_name: None,
                            version_offset: Some(spec_u16(b, p2)),
                        },
                    )
                },
            },
        }
    }
}

impl Beef0004 {
    /// Decodes the payload that fills `data`, laid out as `extension_version`
    /// says.
    pub fn new(data: &[u8], extension_version: u16) -> (r: Result<Beef0004, ShellItemError>)
        ensures
            agrees(r, beef0004_result(data@, 0, data@.len() as int, extension_version)),
    {
        Beef0004::parse(data, 0, data.len(), extension_version)
    }

    /// Decodes the payload at `pos` in the frame ending at `end`.
    pub fn parse(data: &[u8], pos: usize, end: usize, version: u16) -> (r: Result<Beef0004, ShellItemError>)
        requires
            pos <= end <= data@.len(),
        ensures
            agrees(r, beef0004_result(data@, pos as int, end as int, version)),
    {
        if version != 3 && version != 8 && version != 9 {
            return Err(ShellItemError::unsupported_version());
        }
        let fixed: usize = if version == 3 {
            12
        } else if version == 8 {
            34
        } else {
            38
        };
        if end - pos < fixed {
            return Err(ShellItemError::io_error());
        }
        let creation = DosDateTime(u32_at(data, pos));
        let last_access = DosDateTime(u32_at(data, pos + 4));
        let identifier = u16_at(data, pos + 8);
        let file_reference = if version == 3 {
            None
        } else {
            Some(MftReference(u64_at(data, pos + 12)))
        };
        let hint = if version == 3 {
            u16_at(data, pos + 10)
        } else {
            u16_at(data, pos + 28)
        };
        let (name, p1) = read_string_u16_till_null(data, pos + fixed, end)?;
        let (long_name, p2) = if hint > 0 {
            let (l, e) = read_string_u16_till_null(data, p1, end)?;
            (Some(l), e)
        } else {
            (None, p1)
        };
        let version_offset = read_u16(data, p2, end)?;
        Ok(
            Beef0004 {
                creation,
                last_access,
                identifier,
                file_reference,
                long_string_size: Some(hint),
                name: Some(name),
                long_name,
                localized_name: None,
                version_offset: Some(version_offset),
            },
        )
    }
}

/// An extension payload's bytes, kept verbatim for an unknown signature.
#[derive(Debug, Clone)]
pub struct RawExtensionContent(pub Vec<u8>);

impl View for RawExtensionContent {
    type V = Seq<u8>;

    open spec fn view(&self) -> Seq<u8> {
        self.0@
    }
}

/// The four-byte signature that selects an extension payload's layout.
#[derive(Debug, Clone, Copy, PartialEq, Eq, Structural)]
pub struct ExtensionSignature(pub u32);

impl ExtensionSignature {
    pub fn new(value: u32) -> (r: ExtensionSignature)
        ensures
            r.0 == value,
    {
        ExtensionSignature(value)
    }

    pub fn as_u32(&self) -> (r: u32)
        ensures
            r == self.0,
    {
        self.0
    }
}

/// An extension payload, as its signature selects it.
#[derive(Debug, Clone)]
pub enum ExtensionContent {
    FileEntry(Beef0004),
    Raw(RawExtensionContent),
    Empty,
}

/// What an `ExtensionContent` holds.
pub enum ExtensionContentModel {
    FileEntry(Beef0004Model),
    Raw(Seq<u8>),
    Empty,
}

impl View for ExtensionContent {
    type V = ExtensionContentModel;

    open spec fn view(&self) -> ExtensionContentModel {
        match self {
            ExtensionContent::FileEntry(x) => ExtensionContentModel::FileEntry(x@),
            ExtensionContent::Raw(x) => ExtensionContentModel::Raw(x@),
            ExtensionContent::Empty => ExtensionContentModel::Empty,
        }
    }
}

/// The version and signature that follow a populated block's size field.
#[derive(Debug, Clone, Copy, PartialEq, Eq, Structural)]
pub struct ExtensionHeader {
    pub version: u16,
    pub signature: ExtensionSignature,
}

impl View for ExtensionHeader {
    type V = ExtensionHeader;

    open spec fn view(&self) -> ExtensionHeader {
        *self
    }
}

/// The header at `pos` in the frame ending at `end`.
pub open spec fn extension_header_result(b: Seq<u8>, pos: int, end: int) -> Result<(ExtensionHeader, int), ErrorKind> {
    if end - pos < 6 {
        Err(ErrorKind::IoError)
    } else {
        Ok(
            (
                ExtensionHeader {
                    version: spec_u16(b, pos),
                    signature: ExtensionSignature(spec_u32(b, pos + 2)),
                },
                pos + 6,
            ),
        )
    }
}

impl ExtensionHeader {
    /// Decodes the header at the start of `data`.
    pub fn new(data: &[u8]) -> (r: Result<ExtensionHeader, ShellItemError>)
        ensures
            agrees(r, value_of(extension_header_result(data@, 0, data@.len() as int))),
    {
        match ExtensionHeader::parse(data, 0, data.len()) {
            Ok((h, _)) => Ok(h),
            Err(e) => Err(e),
        }
    }

    /// Decodes the header at `pos` in the frame ending at `end`, with the
    /// position after it.
    pub fn parse(data: &[u8], pos: usize, end: usize) -> (r: Result<(ExtensionHeader, usize), ShellItemError>)
        requires
            pos <= end <= data@.len(),
        ensures
            agrees_at(r, extension_header_result(data@, pos as int, end as int)),
    {
        if end - pos < 6 {
            return Err(ShellItemError::io_error());
        }
        let version = u16_at(data, pos);
        let signature = ExtensionSignature(u32_at(data, pos + 2));
        Ok((ExtensionHeader { version, signature }, pos + 6))
    }

    pub fn get_signature_u32(&self) -> (r: u32)
        ensures
            r == self.signature.0,
    {
        self.signature.as_u32()
    }

    pub fn get_version_u32(&self) -> (r: u16)
        ensures
            r == self.version,
    {
        self.version
    }
}

/// One extension block: its declared size and, unless that is zero, its
/// header and payload.
#[derive(Debug, Clone)]
pub struct ExtensionBlock {
    pub size: u16,
    pub header: Option<ExtensionHeader>,
    pub content: Option<ExtensionContent>,
}

/// What an `ExtensionBlock` holds.
pub struct ExtensionBlockModel {
    pub size: u16,
    pub header: Option<ExtensionHeader>,
    pub content: Option<ExtensionContentModel>,
}

impl View for ExtensionBlock {
    type V = ExtensionBlockModel;

    open spec fn view(&self) -> ExtensionBlockModel {
        ExtensionBlockModel {
            size: self.size,
            header: self.header,
            content: match self.content {
                Some(c) => Some(c@),
                None => None,
            },
        }
    }
}

/// The block that stands for no extension: declared size zero.
pub open spec fn empty_extension_block() -> ExtensionBlockModel {
    ExtensionBlockModel { size: 0, header: None, content: None }
}

/// The extension block at `pos` in the frame ending at `end`, with the
/// position after it: two bytes for a size-zero block, else its declared
/// size. Once the header lies inside the frame, a block with the file
/// entry signature and a version whose layout is not known fails with
/// `UnsupportedVersion`, whatever its declared size; other blocks whose
/// declared size runs past the frame fail with `IoError`.
pub open spec fn extension_block_result(b: Seq<u8>, pos: int, end: int) -> Result<(ExtensionBlockModel, int), ErrorKind> {
    if end - pos < 2 {
        Err(ErrorKind::IoError)
    } else {
        let size = spec_u16(b, pos);
        if size == 0 {
            Ok((empty_extension_block(), pos + 2))
        } else if size < EXTENSION_HEADER_SIZE {
            Err(ErrorKind::Malformed)
        } else if end - pos < EXTENSION_HEADER_SIZE {
            Err(ErrorKind::IoError)
        } else {
            let header = ExtensionHeader {
                version: spec_u16(b, pos + 2),
                signature: ExtensionSignature(spec_u32(b, pos + 4)),
            };
            if header.signature.0 == BEEF0004_SIGNATURE && !is_known_beef0004_version(header.version) {
                Err(ErrorKind::UnsupportedVersion)
            } else if end - pos < size {
                Err(ErrorKind::IoError)
            } else {
                let frame_end = pos + size;
                if header.signature.0 == BEEF0004_SIGNATURE {
                    match beef0004_result(b, pos + 8, frame_end, header.version) {
                        Err(k) => Err(k),
                        Ok(m) => Ok(
                            (
                                ExtensionBlockModel {
                                    size,
                                    header: Some(header),
                                    content: Some(ExtensionContentModel::FileEntry(m)),
                                },
                                frame_end,
                            ),
                        ),
                    }
                } else {
                    Ok(
                        (
                            ExtensionBlockModel {
                                size,
                                header: Some(header),
                                content: Some(ExtensionContentModel::Raw(b.subrange(pos + 8, frame_end))),
                            },
                            frame_end,
                        ),
                    )
                }
            }
        }
    }
}

impl ExtensionBlock {
    /// Decodes the block at the start of `data`.
    pub fn new(data: &[u8]) -> (r: Result<ExtensionBlock, ShellItemError>)
        ensures
            agrees(r, value_of(extension_block_result(data@, 0, data@.len() as int))),
    {
        match ExtensionBlock::parse(data, 0, data.len()) {
            Ok((blk, _)) => Ok(blk),
            Err(e) => Err(e),
        }
    }

    /// Decodes the block at `pos` in the frame ending at `end`, with the
    /// position after it.
    pub fn parse(data: &[u8], pos: usize, end: usize) -> (r: Result<(ExtensionBlock, usize), ShellItemError>)
        requires
            pos <= end <= data@.len(),
        ensures
            r matches Ok((_, e)) ==> pos < e <= end,
            agrees_at(r, extension_block_result(data@, pos as int, end as int)),
    {
        let size = read_u16(data, pos, end)?;
        if size == 0 {
            return Ok((ExtensionBlock { size: 0, header: None, content: None }, pos + 2));
        }
        if size < EXTENSION_HEADER_SIZE {
            return Err(ShellItemError::malformed());
        }
        let (header, _) = ExtensionHeader::parse(data, pos + 2, end)?;
        let version = header.get_version_u32();
        if header.get_signature_u32() == BEEF0004_SIGNATURE && version != 3 && version != 8 && version != 9 {
            return Err(ShellItemError::unsupported_version());
        }
        if end - pos < size as usize {
            return Err(ShellItemError::io_error());
        }
        let frame_end = pos + size as usize;
        let content = if header.get_signature_u32() == BEEF0004_SIGNATURE {
            ExtensionContent::FileEntry(Beef0004::parse(data, pos + 8, frame_end, header.get_version_u32())?)
        } else {
            ExtensionContent::Raw(RawExtensionContent(copy_bytes(data, pos + 8, frame_end)))
        };
        Ok((ExtensionBlock { size, header: Some(header), content: Some(content) }, frame_end))
    }

    pub fn get_size(&self) -> (r: u16)
        ensures
            r == self.size,
    {
        self.size
    }
}

/// The chained extension blocks from `pos`, after those in `acc`: they end
/// at a size-zero block or, once one block has been read, at the end of the
/// frame. The first block is always read, so its failure is the list's.
pub open spec fn extension_blocks_from(
    b: Seq<u8>,
    pos: int,
    end: int,
    acc: Seq<ExtensionBlockModel>,
) -> Result<(Seq<ExtensionBlockModel>, int), ErrorKind>
    decreases end - pos,
{
    if pos >= end && acc.len() > 0 {
        Ok((acc, pos))
    } else {
        match extension_block_result(b, pos, end) {
            Err(k) => Err(k),
            Ok((blk, e)) => if blk.size == 0 {
                Ok((acc, e))
            } else {
                extension_blocks_from(b, e, end, acc.push(blk))
            },
        }
    }
}

/// The blocks of a list, in the order they stand.
#[derive(Debug, Clone)]
pub struct ExtensionList(pub Vec<ExtensionBlock>);

impl View for ExtensionList {
    type V = Seq<ExtensionBlockModel>;

    open spec fn view(&self) -> Seq<ExtensionBlockModel> {
        self.0@.map_values(|x: ExtensionBlock| x@)
    }
}

impl ExtensionList {
    /// Decodes the chained blocks that fill `data`.
    pub fn new(data: &[u8]) -> (r: Result<ExtensionList, ShellItemError>)
        ensures
            agrees(r, value_of(extension_blocks_from(data@, 0, data@.len() as int, Seq::empty()))),
    {
        match ExtensionList::parse(data, 0, data.len()) {
            Ok((list, _)) => Ok(list),
            Err(e) => Err(e),
        }
    }

    /// Decodes the chained blocks from `pos` in the frame ending at `end`,
    /// with the position after them.
    pub fn parse(data: &[u8], pos: usize, end: usize) -> (r: Result<(ExtensionList, usize), ShellItemError>)
        requires
            pos <= end <= data@.len(),
        ensures
            agrees_at(r, extension_blocks_from(data@, pos as int, end as int, Seq::empty())),
    {
        let mut blocks: Vec<ExtensionBlock> = Vec::new();
        let mut p: usize = pos;
        assert(blocks@.map_values(|x: ExtensionBlock| x@) =~= Seq::<ExtensionBlockModel>::empty());
        while p < end || blocks.len() == 0
            invariant
                pos <= p <= end <= data@.len(),
                extension_blocks_from(data@, p as int, end as int, blocks@.map_values(|x: ExtensionBlock| x@))
                    == extension_blocks_from(data@, pos as int, end as int, Seq::empty()),
            decreases end - p,
        {
            let (blk, e) = ExtensionBlock::parse(data, p, end)?;
            if blk.get_size() == 0 {
                proof {
                    assert(blocks@.map_values(|x: ExtensionBlock| x@) =~= ExtensionList(blocks)@);
                }
                return Ok((ExtensionList(blocks), e));
            }
            let ghost before = blocks@;
            blocks.push(blk);
            proof {
                assert(blocks@.map_values(|x: ExtensionBlock| x@) =~= before.map_values(|x: ExtensionBlock| x@).push(blk@));
            }
            p = e;
        }
        proof {
            assert(blocks@.map_values(|x: ExtensionBlock| x@) =~= ExtensionList(blocks)@);
        }
        Ok((ExtensionList(blocks), p))
    }
}

/// A decoded extension block consumed two bytes if its declared size is
/// zero, else exactly its declared size.
pub proof fn lemma_block_consumes_declared_size(b: Seq<u8>, pos: int, end: int)
    requires
        0 <= pos <= end <= b.len(),
    ensures
        extension_block_result(b, pos, end) matches Ok((blk, e)) ==> if blk.size == 0 {
            e == pos + 2
        } else {
            e == pos + blk.size && blk.size >= EXTENSION_HEADER_SIZE
        },
{
}

/// A block with the file entry signature and a version whose layout is not
/// known fails with that error once its header lies inside the frame,
/// whatever its declared size and whatever follows the header.
pub proof fn lemma_unknown_version_is_refused(b: Seq<u8>, pos: int, end: int)
    requires
        0 <= pos <= end <= b.len(),
        end - pos >= EXTENSION_HEADER_SIZE,
        spec_u16(b, pos) >= EXTENSION_HEADER_SIZE,
        spec_u32(b, pos + 4) == BEEF0004_SIGNATURE,
        !is_known_beef0004_version(spec_u16(b, pos + 2)),
    ensures
        extension_block_result(b, pos, end) == Err::<(ExtensionBlockModel, int), ErrorKind>(ErrorKind::UnsupportedVersion),
{
}

/// An extension list always reads its first block: where that block fails
/// the list fails with the same kind, where it is the size-zero block the
/// list is empty, and otherwise the list begins with it.
pub proof fn lemma_extension_list_reads_first_block(b: Seq<u8>, pos: int, end: int)
    requires
        0 <= pos <= end <= b.len(),
    ensures
        extension_block_result(b, pos, end) matches Err(k) ==> extension_blocks_from(b, pos, end, Seq::empty())
            == Err::<(Seq<ExtensionBlockModel>, int), ErrorKind>(k),
        extension_block_result(b, pos, end) matches Ok((blk, e)) ==> if blk.size == 0 {
            extension_blocks_from(b, pos, end, Seq::empty()) == Ok::<(Seq<ExtensionBlockModel>, int), ErrorKind>(
                (Seq::empty(), e),
            )
        } else {
            extension_blocks_from(b, pos, end, Seq::empty()) matches Ok((blocks, _)) ==> blocks.len() > 0
                && blocks[0] == blk
        },
{
    if let Ok((blk, e)) = extension_block_result(b, pos, end) {
        if blk.size != 0 {
            lemma_blocks_from_keep_prefix(b, e, end, Seq::empty().push(blk));
        }
    }
}

proof fn lemma_blocks_from_keep_prefix(b: Seq<u8>, pos: int, end: int, acc: Seq<ExtensionBlockModel>)
    requires
        0 <= pos <= end <= b.len(),
    ensures
        extension_blocks_from(b, pos, end, acc) matches Ok((blocks, _)) ==> acc.len() <= blocks.len()
            && forall|i: int| 0 <= i < acc.len() ==> blocks[i] == acc[i],
    decreases end - pos,
{
    if !(pos >= end && acc.len() > 0) {
        if let Ok((blk, e)) = extension_block_result(b, pos, end) {
            if blk.size != 0 {
                lemma_block_consumes_declared_size(b, pos, end);
                let acc2 = acc.push(blk);
                lemma_blocks_from_keep_prefix(b, e, end, acc2);
                assert forall|i: int| 0 <= i < acc.len() implies acc2[i] == acc[i] by {}
            }
        }
    }
}

} // verus!
