use vstd::prelude::*;
use crate::footprint::DecodeError;

verus! {

/// The little-endian 32-bit integer held by the four bytes at `pos`.
pub open spec fn le_u32(b: Seq<u8>, pos: int) -> u32 {
    (b[pos] as int + b[pos + 1] as int * 0x100 + b[pos + 2] as int * 0x1_0000
        + b[pos + 3] as int * 0x100_0000) as u32
}

/// Relies on parity_codec's `Decode` for `u32` on a byte slice: it reads four
/// bytes as a little-endian integer, and gives `None` when fewer remain.
#[verifier::external_body]
pub(crate) fn read_u32(encoded: &[u8], pos: usize) -> (r: Option<u32>)
    requires
        pos <= encoded@.len(),
    ensures
        r == (if pos + 4 <= encoded@.len() {
            Some(le_u32(encoded@, pos as int))
        } else {
            None::<u32>
        }),
{
    let mut input = &encoded[pos..];
    <u32 as parity_codec::Decode>::decode(&mut input)
}

/// Relies on parity_codec's `Decode` for `i8` on a byte slice: it reads one byte
/// as a two's-complement integer, and gives `None` when no byte remains.
#[verifier::external_body]
pub(crate) fn read_i8(encoded: &[u8], pos: usize) -> (r: Option<i8>)
    requires
        pos <= encoded@.len(),
    ensures
        r == (if pos < encoded@.len() {
            Some(encoded@[pos as int] as i8)
        } else {
            None::<i8>
        }),
{
    let mut input = &encoded[pos..];
    <i8 as parity_codec::Decode>::decode(&mut input)
}

/// The compact length prefix at `pos`: its value and the number of bytes it
/// takes. The two low bits of the first byte give the width: one byte, two or
/// four bytes little-endian (the value in the upper bits), or the first byte
/// followed by a four-byte little-endian value, where the first byte's upper
/// bits must be zero.
pub open spec fn compact_u32(b: Seq<u8>, pos: int) -> Result<(u32, int), DecodeError> {
    if pos < 0 || pos >= b.len() {
        Err(DecodeError::BufferUnderrun)
    } else {
        let first = b[pos];
        if first % 4 == 0 {
            Ok(((first / 4) as u32, 1))
        } else if first % 4 == 1 {
            if pos + 2 <= b.len() {
                Ok((((first as int + b[pos + 1] as int * 0x100) / 4) as u32, 2))
            } else {
                Err(DecodeError::BufferUnderrun)
            }
        } else if first % 4 == 2 {
            if pos + 4 <= b.len() {
                Ok(((le_u32(b, pos) / 4) as u32, 4))
            } else {
                Err(DecodeError::BufferUnderrun)
            }
        } else if first / 4 != 0 {
            Err(DecodeError::InvalidLengthPrefix)
        } else if pos + 5 <= b.len() {
            Ok((le_u32(b, pos + 1), 5))
        } else {
            Err(DecodeError::BufferUnderrun)
        }
    }
}

/// Relies on parity_codec's `Decode` for `Compact<u32>` on a byte slice: the
/// value of the compact prefix, with the number of bytes left after it; `None`
/// where the bytes run out or the prefix is out of range.
#[verifier::external_body]
pub(crate) fn read_compact_u32(encoded: &[u8], pos: usize) -> (r: Option<(u32, usize)>)
    requires
        pos <= encoded@.len(),
    ensures
        r == (match compact_u32(encoded@, pos as int) {
            Ok((v, width)) => Some((v, (encoded@.len() - pos - width) as usize)),
            Err(_) => None::<(u32, usize)>,
        }),
{
    let mut input = &encoded[pos..];
    match <parity_codec::Compact<u32> as parity_codec::Decode>::decode(&mut input) {
        Some(c) => Some((c.0, input.len())),
        None => None,
    }
}

} // verus!
