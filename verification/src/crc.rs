//! The CRC-16 checksum that protects a FIT file's header and the file as a whole.

use vstd::prelude::*;

verus! {

/// The checksum's lookup table: one entry for each value of a nibble.
pub const CRC_TABLE: [u16; 16] = [
    0x0000, 0xCC01, 0xD801, 0x1400, 0xF001, 0x3C00, 0x2800, 0xE401,
    0xA001, 0x6C00, 0x7800, 0xB401, 0x5000, 0x9C01, 0x8801, 0x4400,
];

/// The accumulator after it has taken in one nibble.
pub open spec fn step_nibble(crc: u16, nibble: u8) -> u16 {
    ((crc >> 4) & 0x0FFF) ^ CRC_TABLE[(crc & 0xF) as int] ^ CRC_TABLE[nibble as int]
}

/// The accumulator after it has taken in one byte: the low nibble, then the high one.
pub open spec fn step_byte(crc: u16, byte: u8) -> u16 {
    step_nibble(step_nibble(crc, byte & 0xF), (byte >> 4) & 0xF)
}

/// The checksum of a byte sequence: the accumulator starts at zero and takes in the
/// bytes from first to last.
pub open spec fn crc16(bytes: Seq<u8>) -> u16
    decreases bytes.len(),
{
    if bytes.len() == 0 {
        0
    } else {
        step_byte(crc16(bytes.drop_last()), bytes.last())
    }
}

/// Whether `checksum` is the checksum of `data`.
pub open spec fn spec_valid(data: Seq<u8>, checksum: u16) -> bool {
    crc16(data) == checksum
}

/// The checksum computed for a byte sequence is valid for it, and no other is.
pub proof fn lemma_round_trip(data: Seq<u8>, checksum: u16)
    ensures
        spec_valid(data, crc16(data)),
        spec_valid(data, checksum) <==> checksum == crc16(data),
{
}

/// The table's entry for a nibble, as the entries of the nibble's bits combined:
/// the table is linear over exclusive or.
pub open spec fn entry_in_bits(nibble: u16) -> u16 {
    (if nibble & 1 != 0 { 0xCC01u16 } else { 0u16 })
        ^ (if nibble & 2 != 0 { 0xD801u16 } else { 0u16 })
        ^ (if nibble & 4 != 0 { 0xF001u16 } else { 0u16 })
        ^ (if nibble & 8 != 0 { 0xA001u16 } else { 0u16 })
}

/// [`step_nibble`] with the table's entries spelled out in bits.
pub open spec fn step_nibble_in_bits(crc: u16, nibble: u16) -> u16 {
    ((crc >> 4) & 0x0FFF) ^ entry_in_bits(crc & 0xF) ^ entry_in_bits(nibble)
}

/// [`step_byte`] with the table's entries spelled out in bits.
pub open spec fn step_byte_in_bits(crc: u16, byte: u8) -> u16 {
    step_nibble_in_bits(
        step_nibble_in_bits(crc, (byte & 0xF) as u16),
        ((byte >> 4) & 0xF) as u16,
    )
}

/// One step of the shift register that divides by the polynomial of CRC-16,
/// x^16 + x^15 + x^2 + 1, which is held with its bits in reverse order: the register
/// moves one bit down, and takes the polynomial in where a one leaves it.
pub open spec fn shift_bit(crc: u16) -> u16 {
    if crc & 1 == 1 {
        (crc >> 1) ^ 0xA001
    } else {
        crc >> 1
    }
}

/// The shift register after it has taken in one byte: the byte goes into the low
/// bits, and the register makes eight steps.
pub open spec fn shift_byte(crc: u16, byte: u8) -> u16 {
    shift_bit(
        shift_bit(
            shift_bit(shift_bit(shift_bit(shift_bit(shift_bit(shift_bit(crc ^ (byte as u16))))))),
        ),
    )
}

/// The checksum as the shift register computes it, bit by bit and without a table.
pub open spec fn crc16_by_bits(bytes: Seq<u8>) -> u16
    decreases bytes.len(),
{
    if bytes.len() == 0 {
        0
    } else {
        shift_byte(crc16_by_bits(bytes.drop_last()), bytes.last())
    }
}

/// Every entry of the table is the combination of the entries of its index's bits.
pub proof fn lemma_table_is_linear(nibble: u16)
    requires
        nibble < 16,
    ensures
        CRC_TABLE[nibble as int] == entry_in_bits(nibble),
{
    assert(nibble < 16 ==> entry_in_bits(nibble) == (if nibble == 0 {
        0x0000u16
    } else if nibble == 1 {
        0xCC01u16
    } else if nibble == 2 {
        0xD801u16
    } else if nibble == 3 {
        0x1400u16
    } else if nibble == 4 {
        0xF001u16
    } else if nibble == 5 {
        0x3C00u16
    } else if nibble == 6 {
        0x2800u16
    } else if nibble == 7 {
        0xE401u16
    } else if nibble == 8 {
        0xA001u16
    } else if nibble == 9 {
        0x6C00u16
    } else if nibble == 10 {
        0x7800u16
    } else if nibble == 11 {
        0xB401u16
    } else if nibble == 12 {
        0x5000u16
    } else if nibble == 13 {
        0x9C01u16
    } else if nibble == 14 {
        0x8801u16
    } else {
        0x4400u16
    })) by (bit_vector);
}

/// The step by table lookup is the step spelled out in bits.
pub proof fn lemma_step_in_bits(crc: u16, byte: u8)
    ensures
        step_byte(crc, byte) == step_byte_in_bits(crc, byte),
{
    let low = byte & 0xF;
    let high = (byte >> 4) & 0xF;
    assert(low < 16 && high < 16) by (bit_vector)
        requires
            low == byte & 0xF,
            high == (byte >> 4) & 0xF,
    ;
    let first = step_nibble(crc, low);
    assert(crc & 0xF < 16 && first & 0xF < 16) by (bit_vector);
    lemma_table_is_linear(crc & 0xF);
    lemma_table_is_linear(low as u16);
    lemma_table_is_linear(first & 0xF);
    lemma_table_is_linear(high as u16);
}

/// Two accumulators that differ still differ after they took in the same byte, and
/// one accumulator that takes in two bytes that differ ends in two states.
pub proof fn lemma_step_is_injective(first: u16, second: u16, byte: u8, other: u8)
    ensures
        first != second ==> step_byte(first, byte) != step_byte(second, byte),
        byte != other ==> step_byte(first, byte) != step_byte(first, other),
{
    lemma_step_in_bits(first, byte);
    lemma_step_in_bits(second, byte);
    lemma_step_in_bits(first, other);
    assert(first != second ==> step_byte_in_bits(first, byte) != step_byte_in_bits(second, byte))
        by (bit_vector);
    assert(byte != other ==> step_byte_in_bits(first, byte) != step_byte_in_bits(first, other))
        by (bit_vector);
}

/// The table computes the checksum that the shift register computes: two lookups
/// for a byte do what eight steps of the register do.
pub proof fn lemma_table_computes_shifts(bytes: Seq<u8>)
    ensures
        crc16(bytes) == crc16_by_bits(bytes),
    decreases bytes.len(),
{
    if bytes.len() > 0 {
        lemma_table_computes_shifts(bytes.drop_last());
        let crc = crc16(bytes.drop_last());
        let byte = bytes.last();
        lemma_step_in_bits(crc, byte);
        assert(step_byte_in_bits(crc, byte) == shift_byte(crc, byte)) by (bit_vector);
    }
}

/// A change of one byte changes the checksum: no sequence that differs from `data`
/// in the byte at `index` alone has the checksum of `data`.
pub proof fn lemma_detects_changed_byte(data: Seq<u8>, index: int, byte: u8)
    requires
        0 <= index < data.len(),
        byte != data[index],
    ensures
        crc16(data.update(index, byte)) != crc16(data),
        !spec_valid(data.update(index, byte), crc16(data)),
    decreases data.len(),
{
    let changed = data.update(index, byte);
    if index == data.len() - 1 {
        assert(changed.drop_last() =~= data.drop_last());
        lemma_step_is_injective(crc16(data.drop_last()), 0, data.last(), byte);
    } else {
        assert(changed.drop_last() =~= data.drop_last().update(index, byte));
        lemma_detects_changed_byte(data.drop_last(), index, byte);
        lemma_step_is_injective(
            crc16(changed.drop_last()),
            crc16(data.drop_last()),
            data.last(),
            0,
        );
    }
}

/// A flip of one bit changes the checksum.
pub proof fn lemma_detects_flipped_bit(data: Seq<u8>, index: int, bit: u8)
    requires
        0 <= index < data.len(),
        bit < 8,
    ensures
        !spec_valid(data.update(index, data[index] ^ (1u8 << bit)), crc16(data)),
{
    let byte = data[index];
    assert(bit < 8 ==> byte ^ (1u8 << bit) != byte) by (bit_vector);
    lemma_detects_changed_byte(data, index, byte ^ (1u8 << bit));
}

fn update(crc: u16, byte: u8) -> (next: u16)
    ensures
        next == step_byte(crc, byte),
{
    let low: u8 = byte & 0xF;
    let high: u8 = (byte >> 4) & 0xF;
    assert(low < 16 && high < 16) by (bit_vector)
        requires
            low == byte & 0xF,
            high == (byte >> 4) & 0xF,
    ;
    let index: u16 = crc & 0xF;
    assert(index < 16) by (bit_vector)
        requires
            index == crc & 0xF,
    ;
    let tmp: u16 = CRC_TABLE[index as usize];
    let crc: u16 = ((crc >> 4) & 0x0FFF) ^ tmp ^ CRC_TABLE[low as usize];
    let index: u16 = crc & 0xF;
    assert(index < 16) by (bit_vector)
        requires
            index == crc & 0xF,
    ;
    let tmp: u16 = CRC_TABLE[index as usize];
    ((crc >> 4) & 0x0FFF) ^ tmp ^ CRC_TABLE[high as usize]
}

/// Computes the checksum of `from`.
pub fn calculate(from: &[u8]) -> (crc: u16)
    ensures
        crc == crc16(from@),
{
    let mut crc: u16 = 0;
    let mut i: usize = 0;
    while i < from.len()
        invariant
            i <= from.len(),
            crc == crc16(from@.take(i as int)),
        decreases from.len() - i,
    {
        proof {
            assert(from@.take(i + 1).drop_last() =~= from@.take(i as int));
        }
        crc = update(crc, from[i]);
        i += 1;
    }
    proof {
        assert(from@.take(from.len() as int) =~= from@);
    }
    crc
}

/// Tells whether `checksum` is the checksum of `data`.
pub fn valid(data: &[u8], checksum: u16) -> (ok: bool)
    ensures
        ok == spec_valid(data@, checksum),
{
    calculate(data) == checksum
}

} // verus!
