use shellitems::errors::ErrorKind;
use shellitems::extension_blocks::{
    Beef0004, ExtensionBlock, ExtensionContent, ExtensionHeader, ExtensionList, ExtensionSignature,
};
use shellitems::file_entry_shell::{FileEntryShellItem, FILE, IS_UNICODE};
use shellitems::shellitem::{ClassType, ShellContent, ShellData, ShellItem};
use shellitems::shelllist::ShellList;

fn file_entry_bytes() -> Vec<u8> {
    vec![
        0xFA, 0x0A, 0x01, 0x00, 0x68, 0x40, 0x6E, 0xB1, 0x20, 0x00, 0x43, 0x4F, 0x50, 0x59, 0x4F, 0x46,
        0x7E, 0x31, 0x2E, 0x58, 0x4C, 0x53, 0x00, 0x00, 0x64, 0x00, 0x03, 0x00, 0x04, 0x00, 0xEF, 0xBE,
        0x68, 0x40, 0x6E, 0xB1, 0x70, 0x40, 0x70, 0xA0, 0x14, 0x00, 0x00, 0x00, 0x43, 0x00, 0x6F, 0x00,
        0x70, 0x00, 0x79, 0x00, 0x20, 0x00, 0x6F, 0x00, 0x66, 0x00, 0x20, 0x00, 0x4D, 0x00, 0x65, 0x00,
        0x74, 0x00, 0x61, 0x00, 0x6C, 0x00, 0x20, 0x00, 0x41, 0x00, 0x6C, 0x00, 0x6C, 0x00, 0x6F, 0x00,
        0x79, 0x00, 0x20, 0x00, 0x4C, 0x00, 0x69, 0x00, 0x73, 0x00, 0x74, 0x00, 0x20, 0x00, 0x52, 0x00,
        0x65, 0x00, 0x73, 0x00, 0x65, 0x00, 0x61, 0x00, 0x72, 0x00, 0x63, 0x00, 0x68, 0x00, 0x2E, 0x00,
        0x78, 0x00, 0x6C, 0x00, 0x73, 0x00, 0x78, 0x00, 0x00, 0x00, 0x1C, 0x00,
    ]
}

/// A whole shell item list: one file entry item, then the terminator.
fn list_with_file_entry() -> Vec<u8> {
    let body = file_entry_bytes();
    let size = (body.len() + 4) as u16;
    let mut out = vec![(size & 0xFF) as u8, (size >> 8) as u8, 0x32, 0x00];
    out.extend_from_slice(&body);
    out.extend_from_slice(&[0x00, 0x00]);
    out
}

fn utf16(s: &str) -> Vec<u8> {
    let mut out = Vec::new();
    for u in s.encode_utf16() {
        out.push((u & 0xFF) as u8);
        out.push((u >> 8) as u8);
    }
    out.extend_from_slice(&[0, 0]);
    out
}

/// An extension block with the file entry signature around `payload`.
fn beef_block(version: u16, payload: &[u8]) -> Vec<u8> {
    let size = (payload.len() + 8) as u16;
    let mut out = vec![(size & 0xFF) as u8, (size >> 8) as u8, (version & 0xFF) as u8, (version >> 8) as u8];
    out.extend_from_slice(&[0x04, 0x00, 0xEF, 0xBE]);
    out.extend_from_slice(payload);
    out
}

#[test]
fn test_file_entry_item() {
    let buffer: &[u8] = &file_entry_bytes();
    let file_entry = FileEntryShellItem::new(buffer, &ClassType::new(0x32)).unwrap();
    assert_eq!(file_entry.file_size, 68346);
}

#[test]
fn file_entry_fields_of_known_vector() {
    let buffer = file_entry_bytes();
    let entry = FileEntryShellItem::new(&buffer, &ClassType::new(0x32)).unwrap();
    assert_eq!(entry.sub_flags.bits(), 0x02);
    assert!(entry.sub_flags.contains(FILE));
    assert!(!entry.sub_flags.contains(IS_UNICODE));
    assert_eq!(entry.last_modification.0, 0xB16E4068);
    assert_eq!(entry.flags.bits(), 0x0020);
    assert_eq!(entry.name, "COPYOF~1.XLS");
    let block = &entry.extention_block;
    assert_eq!(block.get_size(), 100);
    let header = block.header.unwrap();
    assert_eq!(header.get_signature_u32(), 0xBEEF0004);
    assert_eq!(header.get_version_u32(), 3);
    match &block.content {
        Some(ExtensionContent::FileEntry(beef)) => {
            assert_eq!(beef.creation.0, 0xB16E4068);
            assert_eq!(beef.last_access.0, 0xA0704070);
            assert_eq!(beef.identifier, 0x14);
            assert_eq!(beef.file_reference, None);
            assert_eq!(beef.long_string_size, Some(0));
            assert_eq!(beef.name.as_deref(), Some("Copy of Metal Alloy List Research.xlsx"));
            assert_eq!(beef.long_name, None);
            assert_eq!(beef.version_offset, Some(0x1C));
        }
        other => panic!("unexpected content {:?}", other),
    }
}

#[test]
fn list_with_one_file_entry_consumes_declared_sizes() {
    let data = list_with_file_entry();
    let (list, end) = ShellList::parse(&data, 0).unwrap();
    assert_eq!(list.0.len(), 1);
    assert_eq!(list.0[0].get_size(), 128);
    assert_eq!(end, 128 + 2);
    assert_eq!(end, data.len());
    let item = &list.0[0];
    let body = item.data.as_ref().unwrap();
    assert_eq!(body.class_type.get_type(), 0x32);
    match &body.content {
        ShellContent::FileEntry(entry) => assert_eq!(entry.file_size, 68346),
        other => panic!("unexpected content {:?}", other),
    }
}

#[test]
fn decoding_twice_gives_equal_trees() {
    let data = list_with_file_entry();
    let first = ShellList::new(&data).unwrap();
    let second = ShellList::new(&data).unwrap();
    assert_eq!(format!("{:?}", first), format!("{:?}", second));
}

#[test]
fn lone_terminator_is_empty_list() {
    let (list, end) = ShellList::parse(&[0x00, 0x00], 0).unwrap();
    assert!(list.0.is_empty());
    assert_eq!(end, 2);
}

#[test]
fn zero_size_record_at_start_ends_list() {
    let list = ShellList::new(&[0x00, 0x00, 0x05, 0x00, 0x01, 0x00, 0xAA]).unwrap();
    assert_eq!(list.0.len(), 0);
    let item = ShellItem::new(&[0x00, 0x00]).unwrap();
    assert_eq!(item.get_size(), 0);
    assert!(item.data.is_none());
}

#[test]
fn raw_record_keeps_its_bytes() {
    for payload in [vec![0u8; 5], vec![0x13, 0x37, 0xFF, 0x00, 0x42, 0x99, 0x01], vec![]] {
        let size = (payload.len() + 4) as u16;
        let mut data = vec![size as u8, 0x00, 0x01, 0x7F];
        data.extend_from_slice(&payload);
        data.extend_from_slice(&[0x00, 0x00]);
        let list = ShellList::new(&data).unwrap();
        assert_eq!(list.0.len(), 1);
        let body = list.0[0].data.as_ref().unwrap();
        assert_eq!(body.class_type.get_type(), 0x01);
        assert_eq!(body.unknown, 0x7F);
        match &body.content {
            ShellContent::Raw(raw) => assert_eq!(raw.0, payload),
            other => panic!("unexpected content {:?}", other),
        }
    }
}

#[test]
fn shell_data_with_declared_size() {
    let data = [0x20, 0x00, 0xAB, 0xCD, 0xEF];
    let body = ShellData::new(&data, 6).unwrap();
    match &body.content {
        ShellContent::Raw(raw) => assert_eq!(raw.0, vec![0xAB, 0xCD]),
        other => panic!("unexpected content {:?}", other),
    }
    assert_eq!(ShellData::new(&data, 3).unwrap_err().kind, ErrorKind::Malformed);
    assert_eq!(ShellData::new(&data, 9).unwrap_err().kind, ErrorKind::IoError);
}

#[test]
fn undersized_item_is_malformed() {
    let err = ShellList::new(&[0x03, 0x00, 0x01, 0x00, 0x00, 0x00]).unwrap_err();
    assert_eq!(err.kind, ErrorKind::Malformed);
}

#[test]
fn truncated_input_is_io_error() {
    assert_eq!(ShellList::new(&[]).unwrap_err().kind, ErrorKind::IoError);
    assert_eq!(ShellList::new(&[0x08, 0x00, 0x01, 0x00]).unwrap_err().kind, ErrorKind::IoError);
    let data = list_with_file_entry();
    assert_eq!(ShellList::new(&data[..data.len() - 2]).unwrap_err().kind, ErrorKind::IoError);
    let buffer = file_entry_bytes();
    let err = FileEntryShellItem::new(&buffer[..60], &ClassType::new(0x32)).unwrap_err();
    assert_eq!(err.kind, ErrorKind::IoError);
}

#[test]
fn unicode_name_has_no_alignment_byte() {
    let mut data = vec![0u8; 10];
    data.extend_from_slice(&utf16("ab"));
    let entry = FileEntryShellItem::new(&data, &ClassType::new(0x36)).unwrap();
    assert_eq!(entry.name, "ab");
    assert_eq!(entry.extention_block.get_size(), 0);
    assert!(entry.extention_block.header.is_none());
}

#[test]
fn ansi_name_alignment_byte() {
    // "ab" and its null are three bytes: one alignment byte follows.
    let mut odd = vec![0u8; 10];
    odd.extend_from_slice(b"ab\0\x00");
    let entry = FileEntryShellItem::new(&odd, &ClassType::new(0x31)).unwrap();
    assert_eq!(entry.name, "ab");
    assert_eq!(entry.extention_block.get_size(), 0);
    let err = FileEntryShellItem::new(&odd[..13], &ClassType::new(0x31)).unwrap_err();
    assert_eq!(err.kind, ErrorKind::IoError);
    // "abc" and its null are four bytes: none follows.
    let mut even = vec![0u8; 10];
    even.extend_from_slice(b"abc\0");
    let entry = FileEntryShellItem::new(&even, &ClassType::new(0x31)).unwrap();
    assert_eq!(entry.name, "abc");
    assert_eq!(entry.extention_block.get_size(), 0);
}

#[test]
fn invalid_names_are_decode_errors() {
    let mut unicode = vec![0u8; 10];
    unicode.extend_from_slice(&[0x00, 0xD8, 0x00, 0x00]);
    let err = FileEntryShellItem::new(&unicode, &ClassType::new(0x34)).unwrap_err();
    assert_eq!(err.kind, ErrorKind::Utf16Error);
    let mut ansi = vec![0u8; 10];
    ansi.extend_from_slice(&[0xFF, 0xFE, 0x00, 0x00]);
    let err = FileEntryShellItem::new(&ansi, &ClassType::new(0x30)).unwrap_err();
    assert_eq!(err.kind, ErrorKind::Utf16Error);
}

#[test]
fn unknown_beef0004_version_is_refused() {
    let block = beef_block(5, &[0u8; 40]);
    assert_eq!(ExtensionBlock::new(&block).unwrap_err().kind, ErrorKind::UnsupportedVersion);
    assert_eq!(Beef0004::new(&[0u8; 40], 7).unwrap_err().kind, ErrorKind::UnsupportedVersion);
    // The error ends the whole list, and nothing after it is decoded.
    let mut body = vec![0u8; 10];
    body.extend_from_slice(b"abc\0");
    body.extend_from_slice(&block);
    let size = (body.len() + 4) as u16;
    let mut data = vec![size as u8, (size >> 8) as u8, 0x31, 0x00];
    data.extend_from_slice(&body);
    data.extend_from_slice(&[0x00, 0x00]);
    assert_eq!(ShellList::new(&data).unwrap_err().kind, ErrorKind::UnsupportedVersion);
}

#[test]
fn unknown_version_is_refused_before_size_check() {
    let mut block = vec![0x40, 0x00, 0x07, 0x00, 0x04, 0x00, 0xEF, 0xBE];
    block.extend_from_slice(&[0u8; 10]);
    assert_eq!(ExtensionBlock::new(&block).unwrap_err().kind, ErrorKind::UnsupportedVersion);
    // A known version with the same truncated frame is a short read.
    block[2] = 0x03;
    assert_eq!(ExtensionBlock::new(&block).unwrap_err().kind, ErrorKind::IoError);
    // Inside a file entry whose frame ends first, the version error comes too.
    let mut body = vec![0u8; 10];
    body.extend_from_slice(b"abc\0");
    body.extend_from_slice(&[0x40, 0x00, 0x07, 0x00, 0x04, 0x00, 0xEF, 0xBE, 0x00, 0x00]);
    let err = FileEntryShellItem::new(&body, &ClassType::new(0x31)).unwrap_err();
    assert_eq!(err.kind, ErrorKind::UnsupportedVersion);
}

#[test]
fn beef0004_version_8_layout() {
    let mut payload = vec![1, 0, 0, 0, 2, 0, 0, 0, 0x2A, 0x00];
    payload.extend_from_slice(&[0xEE, 0xEE]);
    payload.extend_from_slice(&[0x05, 0, 0, 0, 0, 0, 0x03, 0x00]);
    payload.extend_from_slice(&[0u8; 8]);
    payload.extend_from_slice(&[0x01, 0x00]);
    payload.extend_from_slice(&[0u8; 4]);
    payload.extend_from_slice(&utf16("name"));
    payload.extend_from_slice(&utf16("long"));
    payload.extend_from_slice(&[0x2E, 0x00]);
    let beef = Beef0004::new(&payload, 8).unwrap();
    assert_eq!(beef.creation.0, 1);
    assert_eq!(beef.last_access.0, 2);
    assert_eq!(beef.identifier, 0x2A);
    assert_eq!(beef.file_reference.unwrap().0, 0x0003_0000_0000_0005);
    assert_eq!(beef.long_string_size, Some(1));
    assert_eq!(beef.name.as_deref(), Some("name"));
    assert_eq!(beef.long_name.as_deref(), Some("long"));
    assert_eq!(beef.localized_name, None);
    assert_eq!(beef.version_offset, Some(0x2E));
}

#[test]
fn beef0004_version_9_layout() {
    let mut payload = vec![0u8; 10];
    payload.extend_from_slice(&[0, 0]);
    payload.extend_from_slice(&[0x07, 0, 0, 0, 0, 0, 0, 0]);
    payload.extend_from_slice(&[0u8; 8]);
    payload.extend_from_slice(&[0x00, 0x00]);
    payload.extend_from_slice(&[0u8; 8]);
    payload.extend_from_slice(&utf16("n9"));
    payload.extend_from_slice(&[0x10, 0x00]);
    let block = beef_block(9, &payload);
    let ext = ExtensionBlock::new(&block).unwrap();
    match ext.content {
        Some(ExtensionContent::FileEntry(beef)) => {
            assert_eq!(beef.file_reference.unwrap().0, 7);
            assert_eq!(beef.name.as_deref(), Some("n9"));
            assert_eq!(beef.long_name, None);
            assert_eq!(beef.version_offset, Some(0x10));
        }
        other => panic!("unexpected content {:?}", other),
    }
    // The same bytes read as version 8 put the name four bytes early.
    let beef8 = Beef0004::new(&payload, 8).unwrap();
    assert_eq!(beef8.name.as_deref(), Some(""));
}

#[test]
fn unknown_signature_is_raw() {
    let block = [0x0B, 0x00, 0x01, 0x00, 0x78, 0x56, 0x34, 0x12, 0xAA, 0xBB, 0xCC, 0xDD];
    let ext = ExtensionBlock::new(&block).unwrap();
    assert_eq!(ext.get_size(), 11);
    assert_eq!(ext.header.unwrap().signature, ExtensionSignature::new(0x12345678));
    match ext.content {
        Some(ExtensionContent::Raw(raw)) => assert_eq!(raw.0, vec![0xAA, 0xBB, 0xCC]),
        other => panic!("unexpected content {:?}", other),
    }
    assert_eq!(ExtensionBlock::new(&[0x05, 0x00, 0, 0, 0]).unwrap_err().kind, ErrorKind::Malformed);
    assert_eq!(ExtensionBlock::new(&[0x20, 0x00, 0, 0, 0, 0, 0, 0]).unwrap_err().kind, ErrorKind::IoError);
}

#[test]
fn extension_list_reads_chained_blocks() {
    let mut data = vec![0x09, 0x00, 0x01, 0x00, 0x01, 0x00, 0x00, 0x00, 0x11];
    data.extend_from_slice(&[0x0A, 0x00, 0x02, 0x00, 0x02, 0x00, 0x00, 0x00, 0x22, 0x33]);
    data.extend_from_slice(&[0x00, 0x00, 0xFF]);
    let (list, end) = ExtensionList::parse(&data, 0, data.len()).unwrap();
    assert_eq!(list.0.len(), 2);
    assert_eq!(list.0[1].get_size(), 10);
    assert_eq!(end, 21);
    let list = ExtensionList::new(&data[..19]).unwrap();
    assert_eq!(list.0.len(), 2);
    assert_eq!(ExtensionList::new(&[]).unwrap_err().kind, ErrorKind::IoError);
    assert_eq!(ExtensionList::new(&[0x05]).unwrap_err().kind, ErrorKind::IoError);
    assert!(ExtensionList::new(&[0x00, 0x00]).unwrap().0.is_empty());
}

#[test]
fn extension_header_fields() {
    let header = ExtensionHeader::new(&[0x09, 0x00, 0x04, 0x00, 0xEF, 0xBE]).unwrap();
    assert_eq!(header.get_version_u32(), 9);
    assert_eq!(header.get_signature_u32(), 0xBEEF0004);
    assert_eq!(header.signature.as_u32(), 0xBEEF0004);
    assert_eq!(ExtensionHeader::new(&[0x09, 0x00, 0x04]).unwrap_err().kind, ErrorKind::IoError);
}

#[test]
fn class_type_nibbles() {
    let class = ClassType::new(0x32);
    assert_eq!(class.get_major(), 0x30);
    assert_eq!(class.get_minor(), 0x02);
    assert_eq!(class.get_type(), 0x32);
}
