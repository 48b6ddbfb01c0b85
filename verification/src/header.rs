//! The file header: the first bytes of every FIT file.

use vstd::prelude::*;
use vstd::slice::slice_subrange;
use crate::crc::{crc16, valid};
use crate::cursor::Cursor;
use crate::endian::{u16_from_le, u32_from_le};

verus! {

/// The bytes `.FIT`, which every header carries at offset 8.
pub const SIGNATURE: [u8; 4] = [0x2E, 0x46, 0x49, 0x54];

/// The length of a header without a checksum, and of the part of any header that
/// its checksum covers.
pub const LEGACY_LENGTH: u8 = 12;

/// The length of a header that ends with its checksum.
pub const CHECKSUMMED_LENGTH: u8 = 14;

/// Why a header was rejected.
#[derive(Debug, PartialEq, Eq, Clone, Copy)]
pub enum Error {
    /// The header's length byte is less than twelve, or the source ends before the
    /// header does, or before the checksum that a header of more than twelve bytes
    /// carries in its thirteenth and fourteenth byte.
    WrongLength,
    /// The bytes at offset 8 are not `.FIT`.
    FitTextMissing,
    /// The header carries a checksum other than zero, and it is not the checksum of
    /// the twelve bytes before it.
    ChecksumFailed,
}

/// A file header that passed every check.
#[derive(Debug, PartialEq, Eq, Clone, Copy)]
pub struct Header {
    pub protocol_version: u8,
    pub profile_version: u16,
    /// The length in bytes of the record stream, which starts where the header ends.
    pub data_length: u32,
    /// The length in bytes of the header itself.
    pub header_length: u8,
    pub signature: [u8; 4],
    /// The header's checksum as stored; only a header longer than twelve bytes holds
    /// one, and zero stands for a checksum that was never computed.
    pub header_checksum: Option<u16>,
}

impl Header {
    /// Whether the fields agree with each other: the header is at least twelve bytes
    /// long, carries the signature, and holds a checksum exactly where it is longer
    /// than twelve bytes.
    pub open spec fn well_formed(&self) -> bool {
        &&& self.header_length >= LEGACY_LENGTH
        &&& self.signature == SIGNATURE
        &&& self.header_checksum is Some <==> self.header_length > LEGACY_LENGTH
    }

    /// Whether a source that starts with `bytes` announces a header of less than
    /// twelve bytes, or ends before the header that it announces does.
    pub open spec fn wrong_length(bytes: Seq<u8>) -> bool {
        bytes.len() == 0 || bytes[0] < LEGACY_LENGTH || bytes.len() < bytes[0]
    }

    /// Whether a source that starts with `bytes` announces a header with a checksum
    /// and ends before the two bytes of that checksum do. Only a source of thirteen
    /// bytes that holds a header of thirteen can be long enough for the header and
    /// too short for the checksum.
    pub open spec fn checksum_missing(bytes: Seq<u8>) -> bool {
        bytes[0] > LEGACY_LENGTH && bytes.len() < CHECKSUMMED_LENGTH
    }

    /// Whether `bytes` carry the signature at offset 8.
    pub open spec fn signed(bytes: Seq<u8>) -> bool {
        bytes.subrange(8, 12) == SIGNATURE@
    }

    /// The checksum stored in a header longer than twelve bytes.
    pub open spec fn stored_checksum(bytes: Seq<u8>) -> u16 {
        u16_from_le(bytes[12], bytes[13])
    }

    /// Whether the header's checksum, where it has one that is not zero, is the
    /// checksum of the header's first twelve bytes.
    pub open spec fn checksum_ok(bytes: Seq<u8>) -> bool {
        bytes[0] > LEGACY_LENGTH && Self::stored_checksum(bytes) != 0 ==> crc16(
            bytes.take(LEGACY_LENGTH as int),
        ) == Self::stored_checksum(bytes)
    }

    /// The header that a source starting with `bytes` holds, or the first reason to
    /// reject it: the length of the header, then the signature, then the checksum,
    /// whose two bytes must be there before they are held to the header.
    pub open spec fn parse(bytes: Seq<u8>) -> Result<Header, Error> {
        if Self::wrong_length(bytes) {
            Err(Error::WrongLength)
        } else if !Self::signed(bytes) {
            Err(Error::FitTextMissing)
        } else if Self::checksum_missing(bytes) {
            Err(Error::WrongLength)
        } else if !Self::checksum_ok(bytes) {
            Err(Error::ChecksumFailed)
        } else {
            Ok(
                Header {
                    protocol_version: bytes[1],
                    profile_version: u16_from_le(bytes[2], bytes[3]),
                    data_length: u32_from_le(bytes[4], bytes[5], bytes[6], bytes[7]),
                    header_length: bytes[0],
                    signature: SIGNATURE,
                    header_checksum: if bytes[0] > LEGACY_LENGTH {
                        Some(Self::stored_checksum(bytes))
                    } else {
                        None
                    },
                },
            )
        }
    }

    /// A header that is accepted is well formed, lies within the source, and has
    /// passed each of the checks.
    pub proof fn lemma_parsed_is_well_formed(bytes: Seq<u8>)
        ensures
            Self::parse(bytes) matches Ok(header) ==> {
                &&& header.well_formed()
                &&& header.header_length <= bytes.len()
                &&& Self::signed(bytes)
                &&& !Self::checksum_missing(bytes)
                &&& Self::checksum_ok(bytes)
            },
    {
    }

    /// The checks of a header come in one order: a source that is too short for the
    /// header it announces has the wrong length whatever else it holds, one that is
    /// long enough and lacks the signature lacks the signature whatever its checksum
    /// bytes are, and only a signed header is held to its checksum.
    pub proof fn lemma_order_of_checks(bytes: Seq<u8>)
        ensures
            Self::wrong_length(bytes) ==> Self::parse(bytes) == Err::<Header, Error>(
                Error::WrongLength,
            ),
            !Self::wrong_length(bytes) && !Self::signed(bytes) ==> Self::parse(bytes) == Err::<
                Header,
                Error,
            >(Error::FitTextMissing),
            Self::parse(bytes) == Err::<Header, Error>(Error::ChecksumFailed) ==> {
                &&& !Self::wrong_length(bytes)
                &&& Self::signed(bytes)
                &&& bytes.len() >= CHECKSUMMED_LENGTH
                &&& !Self::checksum_ok(bytes)
            },
    {
    }

    /// Reads a header at the cursor. On success the cursor stands right behind the
    /// header; on failure it has not moved.
    pub fn from(from: &mut Cursor) -> (result: Result<Header, Error>)
        ensures
            final(from).bytes() == old(from).bytes(),
            result == Self::parse(old(from).rest()),
            match result {
                Ok(header) => {
                    &&& header.well_formed()
                    &&& final(from).position() == old(from).position() + header.header_length
                    &&& final(from).rest() == old(from).rest().skip(header.header_length as int)
                },
                Err(_) => final(from).position() == old(from).position(),
            },
    {
        let ghost bytes = from.rest();
        let header_length = match from.peek(1) {
            Some(first) => first[0],
            None => {
                return Err(Error::WrongLength);
            },
        };
        if header_length < LEGACY_LENGTH {
            return Err(Error::WrongLength);
        }
        let window = match from.peek(header_length as usize) {
            Some(window) => window,
            None => {
                return Err(Error::WrongLength);
            },
        };
        if window[8] != SIGNATURE[0] || window[9] != SIGNATURE[1] || window[10] != SIGNATURE[2]
            || window[11] != SIGNATURE[3] {
            proof {
                assert(bytes.subrange(8, 12)[0] == bytes[8]);
                assert(bytes.subrange(8, 12)[1] == bytes[9]);
                assert(bytes.subrange(8, 12)[2] == bytes[10]);
                assert(bytes.subrange(8, 12)[3] == bytes[11]);
            }
            return Err(Error::FitTextMissing);
        }
        proof {
            assert(bytes.subrange(8, 12) =~= SIGNATURE@);
        }
        let header_checksum = if header_length > LEGACY_LENGTH {
            let window = if header_length < CHECKSUMMED_LENGTH {
                match from.peek(CHECKSUMMED_LENGTH as usize) {
                    Some(window) => window,
                    None => {
                        return Err(Error::WrongLength);
                    },
                }
            } else {
                window
            };
            let checksum = u16_from_le(window[12], window[13]);
            let covered = slice_subrange(window, 0, 12);
            proof {
                assert(covered@ =~= bytes.take(12));
            }
            if checksum != 0 && !valid(covered, checksum) {
                return Err(Error::ChecksumFailed);
            }
            Some(checksum)
        } else {
            None
        };
        let header = Header {
            protocol_version: window[1],
            profile_version: u16_from_le(window[2], window[3]),
            data_length: u32_from_le(window[4], window[5], window[6], window[7]),
            header_length,
            signature: SIGNATURE,
            header_checksum,
        };
        let _ = from.take(header_length as usize);
        Ok(header)
    }
}

} // verus!
