//! A structural decoder for FIT activity files.
//!
//! A FIT file is a header, a stream of records and a checksum. The records describe
//! themselves: a definition record declares the fields of a local message type, and
//! the data records of that type that follow it hold one value for each field. This
//! crate checks the file and cuts the stream into messages; what a field means is
//! left to the caller.
//!
//! - [`crc`]: the checksum of the header and of the file.
//! - [`cursor`]: the byte source that the parsers read from.
//! - [`endian`]: integers of more than one byte.
//! - [`header`]: the file header.
//! - [`record_header`]: the control byte of a record.
//! - [`record`]: definition and data records.
//! - [`message`]: what a record decodes to.
//! - [`stream`]: the records of a stream, one after the other.
//! - [`decoder`]: the decoder of a whole file, step by step or at once.
//! - [`fit`]: a decoded file as one value.

pub mod crc;
pub mod cursor;
pub mod decoder;
pub mod endian;
pub mod fit;
pub mod header;
pub mod message;
pub mod record;
pub mod record_header;
pub mod stream;
