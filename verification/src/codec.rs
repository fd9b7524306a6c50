//! The bit-packing codec: a payload is framed by a 32-bit length field and
//! written, one bit per carrier byte, into the low bits of the carrier from
//! a given offset on.

use vstd::prelude::*;

use crate::bits::{bit_at, lsb_value, read_bits, with_lsb, write_bits};
use crate::error::StegError;
use crate::format::{file_pixel_offset, offset_of};

verus! {

/// Number of bits in the length field, and so of carrier bytes that hold it.
pub const LENGTH_FIELD_BITS: usize = 32;

/// Number of payload bits that one carrier byte takes. The codec knows this
/// one density: a denser embedding would be a different frame layout.
pub const BITS_PER_CARRIER_BYTE: usize = 1;

/// Number of carrier bytes that a payload of `payload_len` bytes takes up:
/// one for each bit of the length field and of the payload.
pub open spec fn frame_len(payload_len: nat) -> nat {
    32 + 8 * payload_len
}

/// Whether a carrier of `carrier_len` bytes has room, from `offset` on, for
/// the frame of a payload of `payload_len` bytes.
pub open spec fn fits(payload_len: nat, carrier_len: nat, offset: nat) -> bool {
    offset + frame_len(payload_len) <= carrier_len
}

/// Bit `j` of the frame of `payload`. Bits 0 to 31 are the binary digits of
/// the payload's length, least significant first. Then come the payload's
/// bytes in order, each with its least significant bit first.
pub open spec fn frame_bit(payload: Seq<u8>, j: int) -> u8 {
    if j < 32 {
        bit_at(payload.len(), j as nat)
    } else {
        bit_at(payload[(j - 32) / 8] as nat, ((j - 32) % 8) as nat)
    }
}

/// The carrier with the frame of `payload` embedded from `offset` on: the
/// low bit of byte `offset + j` is bit `j` of the frame, for every bit of the
/// frame. The upper seven bits of those bytes and all other bytes are the
/// carrier's.
pub open spec fn encoded(payload: Seq<u8>, carrier: Seq<u8>, offset: int) -> Seq<u8> {
    Seq::new(
        carrier.len(),
        |i: int|
            if offset <= i < offset + frame_len(payload.len()) {
                with_lsb(carrier[i], frame_bit(payload, i - offset))
            } else {
                carrier[i]
            },
    )
}

/// The payload length that the 32 low bits from `offset` on spell out.
pub open spec fn embedded_len(carrier: Seq<u8>, offset: int) -> nat {
    lsb_value(carrier, offset, 32)
}

/// Byte `i` of the embedded payload: the eight low bits that follow the
/// length field and the `i` bytes before it, least significant bit first.
pub open spec fn embedded_byte(carrier: Seq<u8>, offset: int, i: int) -> u8 {
    lsb_value(carrier, offset + 32 + 8 * i, 8) as u8
}

/// Whether the carrier is long enough to hold a length field at `offset`
/// and as many payload bytes behind it as that field announces.
pub open spec fn decodable(carrier: Seq<u8>, offset: int) -> bool {
    &&& offset + 32 <= carrier.len()
    &&& offset + frame_len(embedded_len(carrier, offset)) <= carrier.len()
}

/// The payload embedded in the carrier at `offset`.
pub open spec fn decoded(carrier: Seq<u8>, offset: int) -> Seq<u8> {
    Seq::new(embedded_len(carrier, offset), |i: int| embedded_byte(carrier, offset, i))
}

/// Tells whether a carrier of `carrier_len` bytes can take a payload of
/// `payload_len` bytes at `offset`.
pub fn has_capacity(payload_len: usize, carrier_len: usize, offset: usize) -> (r: bool)
    ensures
        r == fits(payload_len as nat, carrier_len as nat, offset as nat),
{
    if offset > carrier_len || carrier_len - offset < LENGTH_FIELD_BITS {
        return false;
    }
    payload_len <= (carrier_len - offset - LENGTH_FIELD_BITS) / 8
}

/// Embeds `payload` in a copy of `carrier`, starting at byte `offset`.
///
/// The carrier itself is not changed. Where the carrier is too short for
/// the whole frame, nothing is written and `CapacityExceeded` is returned.
pub fn encode(payload: &Vec<u8>, carrier: &Vec<u8>, offset: usize) -> (r: Result<
    Vec<u8>,
    StegError,
>)
    ensures
        fits(payload@.len(), carrier@.len(), offset as nat) ==> r is Ok && r->Ok_0@ == encoded(
            payload@,
            carrier@,
            offset as int,
        ),
        !fits(payload@.len(), carrier@.len(), offset as nat) ==> r == Err::<Vec<u8>, StegError>(
            StegError::CapacityExceeded,
        ),
        r is Ok ==> r->Ok_0@.len() == carrier@.len(),
        r is Ok ==> forall|i: int| 0 <= i < offset ==> r->Ok_0@[i] == carrier@[i],
        r is Ok ==> forall|i: int|
            offset + frame_len(payload@.len()) <= i < carrier@.len() ==> r->Ok_0@[i] == carrier@[i],
{
    if !has_capacity(payload.len(), carrier.len(), offset) {
        return Err(StegError::CapacityExceeded);
    }
    let mut out = carrier.clone();
    write_bits(&mut out, offset, payload.len() as u64, LENGTH_FIELD_BITS);
    let mut byte_index: usize = 0;
    while byte_index < payload.len()
        invariant
            byte_index <= payload.len(),
            offset + frame_len(payload.len() as nat) <= carrier.len(),
            out@.len() == carrier@.len(),
            forall|i: int|
                0 <= i < carrier@.len() ==> out@[i] == if offset <= i < offset + frame_len(
                    byte_index as nat,
                ) {
                    with_lsb(carrier@[i], frame_bit(payload@, i - offset))
                } else {
                    carrier@[i]
                },
        decreases payload.len() - byte_index,
    {
        let start = offset + LENGTH_FIELD_BITS + 8 * byte_index;
        write_bits(&mut out, start, payload[byte_index] as u64, 8);
        byte_index += 1;
    }
    Ok(out)
}

/// Recovers the payload embedded in `carrier` at byte `offset`.
///
/// Reads the length field first, then that many payload bytes. Where the
/// carrier ends before the length field, or before the last payload bit
/// that the field announces, `Truncated` is returned.
pub fn decode(carrier: &Vec<u8>, offset: usize) -> (r: Result<Vec<u8>, StegError>)
    ensures
        decodable(carrier@, offset as int) ==> r is Ok && r->Ok_0@ == decoded(
            carrier@,
            offset as int,
        ),
        !decodable(carrier@, offset as int) ==> r == Err::<Vec<u8>, StegError>(
            StegError::Truncated,
        ),
        r is Ok ==> r->Ok_0@.len() == embedded_len(carrier@, offset as int),
{
    if offset > carrier.len() || carrier.len() - offset < LENGTH_FIELD_BITS {
        return Err(StegError::Truncated);
    }
    let announced: u64 = read_bits(carrier, offset, LENGTH_FIELD_BITS);
    let room: usize = (carrier.len() - offset - LENGTH_FIELD_BITS) / 8;
    if announced > room as u64 {
        return Err(StegError::Truncated);
    }
    let len: usize = announced as usize;
    let mut payload: Vec<u8> = Vec::new();
    let mut byte_index: usize = 0;
    while byte_index < len
        invariant
            byte_index <= len,
            len == embedded_len(carrier@, offset as int),
            offset + frame_len(len as nat) <= carrier.len(),
            payload@.len() == byte_index,
            forall|i: int|
                0 <= i < byte_index ==> payload@[i] == embedded_byte(carrier@, offset as int, i),
        decreases len - byte_index,
    {
        let start = offset + LENGTH_FIELD_BITS + 8 * byte_index;
        let byte: u64 = read_bits(carrier, start, 8);
        payload.push(byte as u8);
        byte_index += 1;
    }
    Ok(payload)
}

/// Embeds `msg` in a copy of `medium`, a carrier of the format that
/// `file_type` names, behind that format's header.
///
/// An unknown format is refused with `UnsupportedFormat` and a carrier that
/// is too short with `CapacityExceeded`; `medium` is not changed either way.
pub fn encode_message(msg: &Vec<u8>, medium: &Vec<u8>, file_type: String) -> (r: Result<
    Vec<u8>,
    StegError,
>)
    ensures
        offset_of(file_type@) is None ==> r == Err::<Vec<u8>, StegError>(
            StegError::UnsupportedFormat,
        ),
        offset_of(file_type@) matches Some(offset) ==> (fits(
            msg@.len(),
            medium@.len(),
            offset as nat,
        ) ==> r is Ok && r->Ok_0@ == encoded(msg@, medium@, offset as int)),
        offset_of(file_type@) matches Some(offset) ==> (!fits(
            msg@.len(),
            medium@.len(),
            offset as nat,
        ) ==> r == Err::<Vec<u8>, StegError>(StegError::CapacityExceeded)),
{
    match file_pixel_offset(&file_type) {
        Ok(offset) => encode(msg, medium, offset),
        Err(e) => Err(e),
    }
}

/// Recovers the payload embedded in `medium`, a carrier of the format that
/// `file_type` names, behind that format's header.
///
/// An unknown format is refused with `UnsupportedFormat`, and a carrier
/// that ends before the announced payload does with `Truncated`.
pub fn decode_message(medium: &Vec<u8>, file_type: &String) -> (r: Result<Vec<u8>, StegError>)
    ensures
        offset_of(file_type@) is None ==> r == Err::<Vec<u8>, StegError>(
            StegError::UnsupportedFormat,
        ),
        offset_of(file_type@) matches Some(offset) ==> (decodable(medium@, offset as int) ==> r
            is Ok && r->Ok_0@ == decoded(medium@, offset as int)),
        offset_of(file_type@) matches Some(offset) ==> (!decodable(medium@, offset as int) ==> r
            == Err::<Vec<u8>, StegError>(StegError::Truncated)),
{
    match file_pixel_offset(file_type) {
        Ok(offset) => decode(medium, offset),
        Err(e) => Err(e),
    }
}

} // verus!
