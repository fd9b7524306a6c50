//! What holds of the codec as a whole: what encoding leaves alone, and that
//! decoding undoes it.

use vstd::arithmetic::power2::{lemma2_to64, lemma_pow2_pos};
use vstd::prelude::*;

use crate::bits::{
    bit_at, lemma_lsb_value_of_digits, lemma_lsb_value_same_bits, lemma_with_lsb, lsb, with_lsb,
};
use crate::codec::{
    decodable, decoded, embedded_byte, embedded_len, encoded, fits, frame_bit, frame_len,
};

verus! {

/// Within the frame, the low bit of each encoded byte is the frame's bit
/// for that byte.
proof fn lemma_encoded_bits(payload: Seq<u8>, carrier: Seq<u8>, offset: nat, j: int)
    requires
        fits(payload.len(), carrier.len(), offset),
        0 <= j < frame_len(payload.len()),
    ensures
        lsb(encoded(payload, carrier, offset as int)[offset + j]) == frame_bit(payload, j),
{
    lemma_with_lsb(carrier[offset + j], frame_bit(payload, j));
}

/// Encoding never touches the header region: every byte before `offset` is
/// the carrier's.
pub proof fn law_header_preserved(payload: Seq<u8>, carrier: Seq<u8>, offset: nat)
    ensures
        encoded(payload, carrier, offset as int).len() == carrier.len(),
        forall|i: int|
            0 <= i < offset && i < carrier.len() ==> encoded(payload, carrier, offset as int)[i]
                == carrier[i],
{
}

/// Encoding never touches the tail: every byte behind the frame is the
/// carrier's.
pub proof fn law_tail_preserved(payload: Seq<u8>, carrier: Seq<u8>, offset: nat)
    ensures
        forall|i: int|
            offset + frame_len(payload.len()) <= i < carrier.len() ==> encoded(
                payload,
                carrier,
                offset as int,
            )[i] == carrier[i],
{
}

/// Within the frame, encoding changes nothing but the low bit: the upper
/// seven bits of every byte are the carrier's.
pub proof fn law_upper_bits_preserved(payload: Seq<u8>, carrier: Seq<u8>, offset: nat)
    ensures
        forall|i: int|
            0 <= i < carrier.len() ==> #[trigger] encoded(payload, carrier, offset as int)[i] >> 1
                == carrier[i] >> 1,
{
    assert forall|i: int| 0 <= i < carrier.len() implies #[trigger] encoded(
        payload,
        carrier,
        offset as int,
    )[i] >> 1 == carrier[i] >> 1 by {
        if offset <= i < offset + frame_len(payload.len()) {
            lemma_with_lsb(carrier[i], frame_bit(payload, i - offset));
        }
    }
}

/// The length field of an encoded carrier spells out the payload's length,
/// exactly where that length is below `2^32`, and its 32 lowest binary
/// digits otherwise.
pub proof fn law_length_field(payload: Seq<u8>, carrier: Seq<u8>, offset: nat)
    requires
        fits(payload.len(), carrier.len(), offset),
    ensures
        embedded_len(encoded(payload, carrier, offset as int), offset as int) == payload.len()
            % 0x1_0000_0000,
        payload.len() < 0x1_0000_0000 ==> embedded_len(
            encoded(payload, carrier, offset as int),
            offset as int,
        ) == payload.len(),
{
    let enc = encoded(payload, carrier, offset as int);
    assert forall|k: int| 0 <= k < 32 implies lsb(#[trigger] enc[offset + k]) == bit_at(
        payload.len(),
        k as nat,
    ) by {
        lemma_encoded_bits(payload, carrier, offset, k);
    }
    lemma_lsb_value_of_digits(enc, offset as int, 32, payload.len());
    lemma2_to64();
}

/// Decoding what was encoded gives the payload back, whatever the carrier
/// held, for every payload whose length the 32-bit length field can hold.
pub proof fn law_round_trip(payload: Seq<u8>, carrier: Seq<u8>, offset: nat)
    requires
        fits(payload.len(), carrier.len(), offset),
        payload.len() < 0x1_0000_0000,
    ensures
        decodable(encoded(payload, carrier, offset as int), offset as int),
        decoded(encoded(payload, carrier, offset as int), offset as int) == payload,
{
    let enc = encoded(payload, carrier, offset as int);
    law_length_field(payload, carrier, offset);
    lemma2_to64();
    assert forall|i: int| 0 <= i < payload.len() implies embedded_byte(enc, offset as int, i)
        == payload[i] by {
        let start = offset + 32 + 8 * i;
        assert forall|k: int| 0 <= k < 8 implies lsb(#[trigger] enc[start + k]) == bit_at(
            payload[i] as nat,
            k as nat,
        ) by {
            lemma_encoded_bits(payload, carrier, offset, 32 + 8 * i + k);
        }
        lemma_lsb_value_of_digits(enc, start, 8, payload[i] as nat);
    }
}

/// A carrier that ends with the frame's last bit has room for the frame;
/// a carrier of one byte less has not.
pub proof fn law_capacity_boundary(payload_len: nat, offset: nat)
    ensures
        fits(payload_len, offset + frame_len(payload_len), offset),
        !fits(payload_len, (offset + frame_len(payload_len) - 1) as nat, offset),
{
}

/// An encoded carrier that ends with the frame's last bit can be decoded;
/// cut by its last byte it cannot: the decoder runs out of bits.
pub proof fn law_truncation_boundary(payload: Seq<u8>, carrier: Seq<u8>, offset: nat)
    requires
        carrier.len() == offset + frame_len(payload.len()),
        payload.len() < 0x1_0000_0000,
    ensures
        decodable(encoded(payload, carrier, offset as int), offset as int),
        !decodable(encoded(payload, carrier, offset as int).drop_last(), offset as int),
{
    let enc = encoded(payload, carrier, offset as int);
    let cut = enc.drop_last();
    law_round_trip(payload, carrier, offset);
    if payload.len() > 0 {
        assert forall|k: int| 0 <= k < 32 implies lsb(#[trigger] cut[offset + k]) == lsb(
            enc[offset + k],
        ) by {}
        lemma_lsb_value_same_bits(cut, enc, offset as int, 32);
    }
}

/// An empty payload writes a length field of zero and nothing else: the
/// 32 bytes from `offset` on get a low bit of 0, every other byte is the
/// carrier's, and decoding gives the empty payload.
pub proof fn law_empty_payload(carrier: Seq<u8>, offset: nat)
    requires
        fits(0, carrier.len(), offset),
    ensures
        forall|i: int|
            offset <= i < offset + 32 ==> encoded(Seq::<u8>::empty(), carrier, offset as int)[i]
                == with_lsb(carrier[i], 0),
        forall|i: int|
            0 <= i < carrier.len() && !(offset <= i < offset + 32) ==> encoded(
                Seq::<u8>::empty(),
                carrier,
                offset as int,
            )[i] == carrier[i],
        embedded_len(encoded(Seq::<u8>::empty(), carrier, offset as int), offset as int) == 0,
        decoded(encoded(Seq::<u8>::empty(), carrier, offset as int), offset as int)
            == Seq::<u8>::empty(),
{
    let empty = Seq::<u8>::empty();
    let enc = encoded(empty, carrier, offset as int);
    assert forall|i: int| offset <= i < offset + 32 implies enc[i] == with_lsb(carrier[i], 0) by {
        let k = (i - offset) as nat;
        lemma_pow2_pos(k);
    }
    law_round_trip(empty, carrier, offset);
}

} // verus!
