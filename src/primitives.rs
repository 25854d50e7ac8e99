use vstd::prelude::*;
use crate::errors::{ErrorKind, ShellItemError};

verus! {

/// A DOS date and time, packed into 32 bits and kept as it was read.
#[derive(Debug, Clone, Copy, PartialEq, Eq, Structural)]
pub struct DosDateTime(pub u32);

/// An NTFS file reference (entry and sequence number), kept as read.
#[derive(Debug, Clone, Copy, PartialEq, Eq, Structural)]
pub struct MftReference(pub u64);

/// The little-endian 16-bit value at `b[i..i + 2]`.
pub open spec fn spec_u16(b: Seq<u8>, i: int) -> u16 {
    (b[i] as int + 0x100 * b[i + 1] as int) as u16
}

/// The little-endian 32-bit value at `b[i..i + 4]`.
pub open spec fn spec_u32(b: Seq<u8>, i: int) -> u32 {
    (b[i] as int + 0x100 * b[i + 1] as int + 0x1_0000 * b[i + 2] as int + 0x100_0000
        * b[i + 3] as int) as u32
}

/// The little-endian 64-bit value at `b[i..i + 8]`.
pub open spec fn spec_u64(b: Seq<u8>, i: int) -> u64 {
    (spec_u32(b, i) as int + 0x1_0000_0000 * spec_u32(b, i + 4) as int) as u64
}

pub fn u16_at(data: &[u8], i: usize) -> (r: u16)
    requires
        i + 2 <= data@.len(),
    ensures
        r == spec_u16(data@, i as int),
{
    data[i] as u16 + 0x100 * data[i + 1] as u16
}

pub fn u32_at(data: &[u8], i: usize) -> (r: u32)
    requires
        i + 4 <= data@.len(),
    ensures
        r == spec_u32(data@, i as int),
{
    data[i] as u32 + 0x100 * data[i + 1] as u32 + 0x1_0000 * data[i + 2] as u32 + 0x100_0000
        * data[i + 3] as u32
}

pub fn u64_at(data: &[u8], i: usize) -> (r: u64)
    requires
        i + 8 <= data@.len(),
    ensures
        r == spec_u64(data@, i as int),
{
    // The slice length bounds i + 8, so i + 4 fits in usize.
    let _len = data.len();
    let lo = u32_at(data, i);
    let hi = u32_at(data, i + 4);
    lo as u64 + 0x1_0000_0000 * hi as u64
}

/// Reads a little-endian `u16` at `pos` of the frame ending at `end`.
pub fn read_u16(data: &[u8], pos: usize, end: usize) -> (r: Result<u16, ShellItemError>)
    requires
        pos <= end <= data@.len(),
    ensures
        r is Ok <==> pos + 2 <= end,
        r matches Ok(v) ==> v == spec_u16(data@, pos as int),
        r matches Err(e) ==> e.kind == ErrorKind::IoError,
{
    if end - pos < 2 {
        return Err(ShellItemError::io_error());
    }
    Ok(u16_at(data, pos))
}

/// The text of an optional name.
pub open spec fn opt_text(o: Option<String>) -> Option<Seq<char>> {
    match o {
        Some(s) => Some(s@),
        None => None,
    }
}

/// Copies `data[s..t]`.
pub fn copy_bytes(data: &[u8], s: usize, t: usize) -> (r: Vec<u8>)
    requires
        s <= t <= data@.len(),
    ensures
        r@ == data@.subrange(s as int, t as int),
{
    let mut r: Vec<u8> = Vec::with_capacity(t - s);
    let mut i: usize = s;
    while i < t
        invariant
            s <= i <= t <= data@.len(),
            r@ == data@.subrange(s as int, i as int),
        decreases t - i,
    {
        r.push(data[i]);
        i = i + 1;
        assert(r@ =~= data@.subrange(s as int, i as int));
    }
    r
}

/// The code units between `s` and `t`, two bytes each.
pub open spec fn units_between(b: Seq<u8>, s: int, t: int) -> Seq<u16> {
    Seq::new(((t - s) / 2) as nat, |k: int| spec_u16(b, s + 2 * k))
}

/// Where the first null UTF-16 code unit lies, scanning from `pos` in steps
/// of two bytes inside the frame ending at `end`.
pub open spec fn utf16_null_at(b: Seq<u8>, pos: int, end: int) -> Option<int>
    decreases end - pos,
{
    if pos + 2 > end {
        None
    } else if spec_u16(b, pos) == 0 {
        Some(pos)
    } else {
        utf16_null_at(b, pos + 2, end)
    }
}

/// Where the first null byte lies, scanning from `pos` inside the frame
/// ending at `end`.
pub open spec fn byte_null_at(b: Seq<u8>, pos: int, end: int) -> Option<int>
    decreases end - pos,
{
    if pos >= end {
        None
    } else if b[pos] == 0 {
        Some(pos)
    } else {
        byte_null_at(b, pos + 1, end)
    }
}

/// The text that UTF-16 code units decode to, or `None` where they are not
/// valid UTF-16.
pub uninterp spec fn utf16_text(units: Seq<u16>) -> Option<Seq<char>>;

/// The text that bytes decode to as UTF-8, or `None` where they are not
/// valid UTF-8.
pub uninterp spec fn utf8_text(bytes: Seq<u8>) -> Option<Seq<char>>;

/// Relies on `String::from_utf16`: decodes the code units, refusing unpaired
/// surrogates; the error text is its `Display`.
#[verifier::external_body]
fn decode_utf16(units: &[u16]) -> (r: Result<String, String>)
    ensures
        r is Ok <==> utf16_text(units@) is Some,
        r matches Ok(s) ==> s@ == utf16_text(units@)->0,
{
    match String::from_utf16(units) {
        Ok(s) => Ok(s),
        Err(e) => Err(e.to_string()),
    }
}

/// Relies on `String::from_utf8`: decodes the bytes as UTF-8, refusing
/// invalid sequences; the error text is its `Display`.
#[verifier::external_body]
fn decode_utf8(bytes: Vec<u8>) -> (r: Result<String, String>)
    ensures
        r is Ok <==> utf8_text(bytes@) is Some,
        r matches Ok(s) ==> s@ == utf8_text(bytes@)->0,
{
    match String::from_utf8(bytes) {
        Ok(s) => Ok(s),
        Err(e) => Err(e.to_string()),
    }
}

/// A null-terminated UTF-16LE string at `pos`: its text and the position
/// just after its null code unit.
pub open spec fn utf16_string_result(b: Seq<u8>, pos: int, end: int) -> Result<(Seq<char>, int), ErrorKind> {
    match utf16_null_at(b, pos, end) {
        None => Err(ErrorKind::IoError),
        Some(t) => match utf16_text(units_between(b, pos, t)) {
            None => Err(ErrorKind::Utf16Error),
            Some(s) => Ok((s, t + 2)),
        },
    }
}

/// A null-terminated single-byte string at `pos`: its text and the position
/// after its null byte and, where the string with its null is of odd length,
/// one alignment byte.
pub open spec fn ansi_string_result(b: Seq<u8>, pos: int, end: int) -> Result<(Seq<char>, int), ErrorKind> {
    match byte_null_at(b, pos, end) {
        None => Err(ErrorKind::IoError),
        Some(t) => match utf8_text(b.subrange(pos, t)) {
            None => Err(ErrorKind::Utf16Error),
            Some(s) => if (t - pos + 1) % 2 != 0 {
                if t + 2 <= end {
                    Ok((s, t + 2))
                } else {
                    Err(ErrorKind::IoError)
                }
            } else {
                Ok((s, t + 1))
            },
        },
    }
}

/// A name: UTF-16LE where `unicode` holds, single-byte text otherwise.
pub open spec fn name_result(b: Seq<u8>, pos: int, end: int, unicode: bool) -> Result<(Seq<char>, int), ErrorKind> {
    if unicode {
        utf16_string_result(b, pos, end)
    } else {
        ansi_string_result(b, pos, end)
    }
}

/// `r` is the decoded string and end position that `s` gives, or fails
/// with its error kind.
pub open spec fn agrees_text(r: Result<(String, usize), ShellItemError>, s: Result<(Seq<char>, int), ErrorKind>) -> bool {
    match r {
        Ok((x, e)) => s == Ok::<(Seq<char>, int), ErrorKind>((x@, e as int)),
        Err(err) => s == Err::<(Seq<char>, int), ErrorKind>(err.kind),
    }
}

/// Reads UTF-16LE code units from `pos` up to the first null unit, and
/// decodes them.
pub fn read_string_u16_till_null(data: &[u8], pos: usize, end: usize) -> (r: Result<(String, usize), ShellItemError>)
    requires
        pos <= end <= data@.len(),
    ensures
        r matches Ok((_, e)) ==> pos <= e <= end,
        agrees_text(r, utf16_string_result(data@, pos as int, end as int)),
{
    let mut units: Vec<u16> = Vec::new();
    let mut p: usize = pos;
    loop
        invariant
            pos <= p <= end <= data@.len(),
            (p - pos) % 2 == 0,
            units@ == units_between(data@, pos as int, p as int),
            utf16_null_at(data@, pos as int, end as int) == utf16_null_at(data@, p as int, end as int),
        ensures
            p + 2 <= end,
            spec_u16(data@, p as int) == 0,
        decreases end - p,
    {
        if end - p < 2 {
            return Err(ShellItemError::io_error());
        }
        let unit = u16_at(data, p);
        if unit == 0 {
            break;
        }
        units.push(unit);
        p = p + 2;
        assert(units@ =~= units_between(data@, pos as int, p as int));
    }
    match decode_utf16(units.as_slice()) {
        Ok(s) => Ok((s, p + 2)),
        Err(msg) => Err(ShellItemError::utf16_decode_error(msg)),
    }
}

/// Reads bytes from `pos` up to the first null byte, decodes them as text,
/// and skips one alignment byte where the string with its null is of odd
/// length.
pub fn read_string_u8_till_null(data: &[u8], pos: usize, end: usize) -> (r: Result<(String, usize), ShellItemError>)
    requires
        pos <= end <= data@.len(),
    ensures
        r matches Ok((_, e)) ==> pos <= e <= end,
        agrees_text(r, ansi_string_result(data@, pos as int, end as int)),
{
    let mut bytes: Vec<u8> = Vec::new();
    let mut p: usize = pos;
    loop
        invariant
            pos <= p <= end <= data@.len(),
            bytes@ == data@.subrange(pos as int, p as int),
            byte_null_at(data@, pos as int, end as int) == byte_null_at(data@, p as int, end as int),
        ensures
            p < end,
            data@[p as int] == 0,
        decreases end - p,
    {
        if p == end {
            return Err(ShellItemError::io_error());
        }
        let byte = data[p];
        if byte == 0 {
            break;
        }
        bytes.push(byte);
        p = p + 1;
        assert(bytes@ =~= data@.subrange(pos as int, p as int));
    }
    let count = p - pos;
    match decode_utf8(bytes) {
        Ok(s) => {
            if count % 2 == 0 {
                if end - p < 2 {
                    return Err(ShellItemError::io_error());
                }
                Ok((s, p + 2))
            } else {
                Ok((s, p + 1))
            }
        },
        Err(msg) => Err(ShellItemError::utf16_decode_error(msg)),
    }
}

/// Reads a name, UTF-16LE where `unicode` holds and single-byte text
/// otherwise.
pub fn read_name(data: &[u8], pos: usize, end: usize, unicode: bool) -> (r: Result<(String, usize), ShellItemError>)
    requires
        pos <= end <= data@.len(),
    ensures
        r matches Ok((_, e)) ==> pos <= e <= end,
        agrees_text(r, name_result(data@, pos as int, end as int, unicode)),
{
    if unicode {
        read_string_u16_till_null(data, pos, end)
    } else {
        read_string_u8_till_null(data, pos, end)
    }
}

/// `t` is the first null code unit from `pos`, stepping by two bytes.
pub open spec fn is_first_null_unit(b: Seq<u8>, pos: int, t: int) -> bool {
    &&& pos <= t
    &&& (t - pos) % 2 == 0
    &&& spec_u16(b, t) == 0
    &&& forall|j: int| pos <= j < t && (j - pos) % 2 == 0 ==> spec_u16(b, j) != 0
}

/// `t` is the first null byte from `pos`.
pub open spec fn is_first_null_byte(b: Seq<u8>, pos: int, t: int) -> bool {
    &&& pos <= t
    &&& b[t] == 0
    &&& forall|j: int| pos <= j < t ==> b[j] != 0
}

proof fn lemma_utf16_null_at(b: Seq<u8>, pos: int, end: int)
    requires
        pos <= end,
    ensures
        utf16_null_at(b, pos, end) matches Some(t) ==> t + 2 <= end && is_first_null_unit(b, pos, t),
    decreases end - pos,
{
    if pos + 2 <= end && spec_u16(b, pos) != 0 {
        lemma_utf16_null_at(b, pos + 2, end);
    }
}

proof fn lemma_byte_null_at(b: Seq<u8>, pos: int, end: int)
    requires
        pos <= end,
    ensures
        byte_null_at(b, pos, end) matches Some(t) ==> t < end && is_first_null_byte(b, pos, t),
    decreases end - pos,
{
    if pos < end && b[pos] != 0 {
        lemma_byte_null_at(b, pos + 1, end);
    }
}

/// A decoded name ends at its first null: a UTF-16 name just after the
/// first null code unit, with no alignment byte; a single-byte name just
/// after the first null byte, and one byte further where the name and its
/// null are of odd length.
pub proof fn lemma_name_ends_after_first_null(b: Seq<u8>, pos: int, end: int, unicode: bool)
    requires
        0 <= pos <= end <= b.len(),
    ensures
        name_result(b, pos, end, unicode) matches Ok((_, e)) ==> if unicode {
            is_first_null_unit(b, pos, e - 2)
        } else {
            exists|t: int| #[trigger] is_first_null_byte(b, pos, t) && e == t + 1 + (t - pos + 1) % 2
        },
{
    lemma_utf16_null_at(b, pos, end);
    lemma_byte_null_at(b, pos, end);
    if !unicode {
        if let Some(t) = byte_null_at(b, pos, end) {
            assert(is_first_null_byte(b, pos, t));
        }
    }
}

/// A decoded string ends inside its frame.
pub proof fn lemma_name_result_bounds(b: Seq<u8>, pos: int, end: int, unicode: bool)
    requires
        0 <= pos <= end <= b.len(),
    ensures
        name_result(b, pos, end, unicode) matches Ok((_, e)) ==> pos <= e <= end,
{
    lemma_utf16_null_at(b, pos, end);
    lemma_byte_null_at(b, pos, end);
}

} // verus!
