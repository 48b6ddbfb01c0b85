//! The control byte that opens every record of the stream.

use vstd::prelude::*;

verus! {

/// What kind of record a control byte announces.
#[derive(Debug, PartialEq, Eq, Clone, Copy, Structural)]
pub enum MessageType {
    /// A record that declares the layout of a local message type.
    Definition,
    /// A record that holds field values.
    Data,
    /// A record that holds field values and whose control byte carries a time offset.
    CompressedTimestamp,
}

/// A decoded control byte.
#[derive(Debug, PartialEq, Eq, Clone, Copy)]
pub struct RecordHeader {
    pub message_type: MessageType,
    /// Bit 5 of a control byte that is not compressed; `false` for a compressed one.
    pub message_type_specific: bool,
    /// The local message type that the record defines or follows: 0 to 15, and 0 to 3
    /// in a compressed record.
    pub local_message_type: u8,
    /// The five-bit time offset of a compressed record; `None` for any other.
    pub time_offset: Option<u8>,
}

/// Bit 7: the record is a compressed-timestamp record.
pub const COMPRESSED: u8 = 0b1000_0000;

/// Bit 6 of a control byte that is not compressed: the record is a definition.
pub const NORMAL_MESSAGE_TYPE: u8 = 0b0100_0000;

/// Bit 5 of a control byte that is not compressed.
pub const MESSAGE_TYPE_SPECIFIC: u8 = 0b0010_0000;

/// Bits 6 and 5 of a compressed control byte: its local message type.
pub const COMPRESSED_LOCAL_MESSAGE_TYPE: u8 = 0b0110_0000;

/// Bits 3 to 0 of a control byte that is not compressed: its local message type.
pub const NORMAL_LOCAL_MESSAGE_TYPE: u8 = 0b0000_1111;

/// Bits 4 to 0 of a compressed control byte: its time offset.
pub const TIME_OFFSET: u8 = 0b0001_1111;

impl RecordHeader {
    /// Whether bit 7 of the control byte is set.
    pub open spec fn spec_compressed(from: u8) -> bool {
        COMPRESSED & from == COMPRESSED
    }

    /// Whether bit 6 of the control byte is set.
    pub open spec fn spec_definition(from: u8) -> bool {
        NORMAL_MESSAGE_TYPE & from == NORMAL_MESSAGE_TYPE
    }

    /// The kind of record that the control byte announces.
    pub open spec fn spec_message_type(from: u8) -> MessageType {
        if Self::spec_compressed(from) {
            MessageType::CompressedTimestamp
        } else if Self::spec_definition(from) {
            MessageType::Definition
        } else {
            MessageType::Data
        }
    }

    /// Bit 5 of a control byte that is not compressed.
    pub open spec fn spec_message_type_specific(from: u8) -> bool {
        !Self::spec_compressed(from) && MESSAGE_TYPE_SPECIFIC & from == MESSAGE_TYPE_SPECIFIC
    }

    /// The local message type that the control byte names.
    pub open spec fn spec_local_message_type(from: u8) -> u8 {
        if Self::spec_compressed(from) {
            (COMPRESSED_LOCAL_MESSAGE_TYPE & from) >> 5
        } else {
            NORMAL_LOCAL_MESSAGE_TYPE & from
        }
    }

    /// The time offset that a compressed control byte carries.
    pub open spec fn spec_time_offset(from: u8) -> Option<u8> {
        if Self::spec_compressed(from) {
            Some(TIME_OFFSET & from)
        } else {
            None
        }
    }

    /// The record header that the control byte `from` encodes.
    pub open spec fn decode(from: u8) -> RecordHeader {
        RecordHeader {
            message_type: Self::spec_message_type(from),
            message_type_specific: Self::spec_message_type_specific(from),
            local_message_type: Self::spec_local_message_type(from),
            time_offset: Self::spec_time_offset(from),
        }
    }

    /// Whether the header's fields agree with each other: the local message type is
    /// in range, and a time offset below 32 is there exactly in a compressed record.
    pub open spec fn well_formed(&self) -> bool {
        &&& self.local_message_type < 16
        &&& self.message_type == MessageType::CompressedTimestamp ==> {
            &&& self.local_message_type < 4
            &&& !self.message_type_specific
            &&& self.time_offset matches Some(offset) && offset < 32
        }
        &&& self.message_type != MessageType::CompressedTimestamp
            ==> self.time_offset is None
    }

    /// Decodes a control byte. Every byte is a control byte.
    pub fn from(from: u8) -> (header: RecordHeader)
        ensures
            header == Self::decode(from),
            header.well_formed(),
    {
        proof {
            Self::lemma_decode_well_formed(from);
        }
        RecordHeader {
            message_type: Self::message_type(&from),
            message_type_specific: Self::message_type_specific(&from),
            local_message_type: Self::local_message_type(&from),
            time_offset: Self::time_offset(&from),
        }
    }

    fn compressed(from: &u8) -> (set: bool)
        ensures
            set == Self::spec_compressed(*from),
    {
        COMPRESSED & *from == COMPRESSED
    }

    fn message_type(from: &u8) -> (kind: MessageType)
        ensures
            kind == Self::spec_message_type(*from),
    {
        if Self::compressed(from) {
            MessageType::CompressedTimestamp
        } else if Self::definition(from) {
            MessageType::Definition
        } else {
            MessageType::Data
        }
    }

    fn definition(from: &u8) -> (set: bool)
        ensures
            set == Self::spec_definition(*from),
    {
        NORMAL_MESSAGE_TYPE & *from == NORMAL_MESSAGE_TYPE
    }

    fn message_type_specific(from: &u8) -> (set: bool)
        ensures
            set == Self::spec_message_type_specific(*from),
    {
        if Self::compressed(from) {
            false
        } else {
            MESSAGE_TYPE_SPECIFIC & *from == MESSAGE_TYPE_SPECIFIC
        }
    }

    fn local_message_type(from: &u8) -> (slot: u8)
        ensures
            slot == Self::spec_local_message_type(*from),
    {
        if Self::compressed(from) {
            (COMPRESSED_LOCAL_MESSAGE_TYPE & *from) >> 5
        } else {
            NORMAL_LOCAL_MESSAGE_TYPE & *from
        }
    }

    fn time_offset(from: &u8) -> (offset: Option<u8>)
        ensures
            offset == Self::spec_time_offset(*from),
    {
        if Self::compressed(from) {
            Some(TIME_OFFSET & *from)
        } else {
            None
        }
    }

    /// Every control byte decodes to a header whose fields agree with each other.
    pub proof fn lemma_decode_well_formed(from: u8)
        ensures
            Self::decode(from).well_formed(),
    {
        assert((0b0110_0000u8 & from) >> 5 < 4) by (bit_vector);
        assert(0b0000_1111u8 & from < 16) by (bit_vector);
        assert(0b0001_1111u8 & from < 32) by (bit_vector);
    }

    /// The fields of a control byte in terms of arithmetic: a byte of 128 or more is
    /// compressed, with its local message type in the quotient by 32 and its time
    /// offset in the remainder; a smaller one is a definition from 64 on, and has its
    /// local message type in the remainder by 16.
    pub proof fn lemma_decode_arithmetic(from: u8)
        ensures
            Self::spec_compressed(from) <==> from >= 128,
            from >= 128 ==> Self::decode(from) == (RecordHeader {
                message_type: MessageType::CompressedTimestamp,
                message_type_specific: false,
                local_message_type: ((from - 128) / 32) as u8,
                time_offset: Some((from % 32) as u8),
            }),
            from < 128 ==> Self::decode(from) == (RecordHeader {
                message_type: if from >= 64 {
                    MessageType::Definition
                } else {
                    MessageType::Data
                },
                message_type_specific: from % 64 >= 32,
                local_message_type: (from % 16) as u8,
                time_offset: None,
            }),
    {
        assert((0b1000_0000u8 & from == 0b1000_0000u8) <==> from >= 128) by (bit_vector);
        assert(from >= 128 ==> (0b0110_0000u8 & from) >> 5 == (from - 128) / 32) by (bit_vector);
        assert(0b0001_1111u8 & from == from % 32) by (bit_vector);
        assert(from < 128 ==> ((0b0100_0000u8 & from == 0b0100_0000u8) <==> from >= 64))
            by (bit_vector);
        assert((0b0010_0000u8 & from == 0b0010_0000u8) <==> from % 64 >= 32) by (bit_vector);
        assert(0b0000_1111u8 & from == from % 16) by (bit_vector);
    }
}

} // verus!
