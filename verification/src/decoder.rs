//! The decoder: from the bytes of a whole file to its header and its messages.
//!
//! A file is checked and read in one pass and in a fixed order: the header, then
//! the checksum of the whole file, then the records of the stream one after the
//! other. The first failure rejects the file.

use vstd::prelude::*;
use vstd::slice::slice_subrange;
use crate::crc::{crc16, valid};
use crate::cursor::Cursor;
use crate::endian::u16_from_le;
use crate::header;
use crate::header::Header;
use crate::message::{Message, MessageView};
use crate::record;
use crate::record_header::{MessageType, RecordHeader};
use crate::stream::{
    definitions_after, lemma_data_first_fails, lemma_record_fits, lemma_stream_consumed,
    parse_record, parse_stream, read_record, Definitions, SlotTable,
};

verus! {

/// Why a file was rejected.
#[derive(Debug, PartialEq, Eq, Clone, Copy)]
pub enum Error {
    /// The header was rejected.
    Header(header::Error),
    /// The file's last two bytes are not the checksum of the bytes before them.
    ChecksumFailed,
    /// A record could not be read, or the file ends before the record stream that
    /// its header announces does.
    Record(record::Error),
}

/// Whether the last two bytes of a file are the checksum of all the bytes before
/// them. A stored checksum of zero is held to that like any other.
pub open spec fn file_checksum_ok(bytes: Seq<u8>) -> bool {
    &&& bytes.len() >= 2
    &&& crc16(bytes.take(bytes.len() - 2)) == u16_from_le(
        bytes[bytes.len() - 2],
        bytes[bytes.len() - 1],
    )
}

/// The header and the messages of the file `bytes`, or the first reason to reject
/// it: the header, then the checksum of the file, then the record stream, which
/// starts behind the header, has the length that the header gives, and must end
/// before the checksum does.
pub open spec fn parse_file(bytes: Seq<u8>) -> Result<(Header, Seq<MessageView>), Error> {
    match Header::parse(bytes) {
        Err(error) => Err(Error::Header(error)),
        Ok(header) => {
            let start = header.header_length as int;
            let end = start + header.data_length;
            if !file_checksum_ok(bytes) {
                Err(Error::ChecksumFailed)
            } else if end + 2 > bytes.len() {
                Err(Error::Record(record::Error::UnexpectedEof))
            } else {
                match parse_stream(bytes.subrange(start, end), Map::empty()) {
                    Err(error) => Err(Error::Record(error)),
                    Ok(messages) => Ok((header, messages)),
                }
            }
        },
    }
}

/// A file is decoded only if its checksum holds, and its messages then take exactly
/// the bytes of the record stream that the header announces, which lies between
/// the header and the checksum.
pub proof fn lemma_file_consumed(bytes: Seq<u8>)
    ensures
        parse_file(bytes) matches Ok((header, messages)) ==> {
            &&& Header::parse(bytes) == Ok::<Header, header::Error>(header)
            &&& file_checksum_ok(bytes)
            &&& header.header_length + header.data_length + 2 <= bytes.len()
            &&& MessageView::total_length(messages) == header.data_length
        },
{
    if let Ok(header) = Header::parse(bytes) {
        let start = header.header_length as int;
        lemma_stream_consumed(bytes.subrange(start, start + header.data_length), Map::empty());
    }
}

/// The header is judged before the checksum of the file: a file whose header is
/// rejected fails with the header's error, whatever its checksum and its records
/// are.
pub proof fn lemma_header_before_checksum(bytes: Seq<u8>)
    requires
        Header::parse(bytes) is Err,
    ensures
        parse_file(bytes) == Err::<(Header, Seq<MessageView>), Error>(
            Error::Header(Header::parse(bytes)->Err_0),
        ),
{
}

/// A stored checksum of zero is no leave to skip the check: a file with a good
/// header that ends in two zero bytes, and whose bytes before them have another
/// checksum than zero, fails on the checksum.
pub proof fn lemma_zero_checksum_is_held(bytes: Seq<u8>)
    requires
        Header::parse(bytes) is Ok,
        bytes.len() >= 2,
        bytes[bytes.len() - 2] == 0,
        bytes[bytes.len() - 1] == 0,
        crc16(bytes.take(bytes.len() - 2)) != 0,
    ensures
        parse_file(bytes) == Err::<(Header, Seq<MessageView>), Error>(Error::ChecksumFailed),
{
}

/// A file that passes the header and the checksum, and whose record stream starts
/// with a data record, compressed or not, fails on that record: no definition is
/// in force for it.
pub proof fn lemma_file_starts_with_definition(bytes: Seq<u8>)
    requires
        Header::parse(bytes) matches Ok(header) && {
            let start = header.header_length as int;
            &&& file_checksum_ok(bytes)
            &&& header.data_length > 0
            &&& start + header.data_length + 2 <= bytes.len()
            &&& RecordHeader::decode(bytes[start]).message_type != MessageType::Definition
        },
    ensures
        parse_file(bytes) == Err::<(Header, Seq<MessageView>), Error>(
            Error::Record(record::Error::UndefinedLocalMessageType),
        ),
{
    let header = Header::parse(bytes)->Ok_0;
    let start = header.header_length as int;
    lemma_data_first_fails(bytes.subrange(start, start + header.data_length));
}

/// The checksum of the file is held to before any record is read: a file with a
/// good header and a wrong checksum fails on the checksum, whatever its records
/// are.
pub proof fn lemma_checksum_before_records(bytes: Seq<u8>)
    requires
        Header::parse(bytes) is Ok,
        !file_checksum_ok(bytes),
    ensures
        parse_file(bytes) == Err::<(Header, Seq<MessageView>), Error>(Error::ChecksumFailed),
{
}

/// Where a decoder stands between two steps.
#[derive(Debug, PartialEq, Eq, Clone, Copy)]
pub enum State {
    /// Nothing was read yet.
    AwaitHeader,
    /// The header was accepted; the checksum of the file is to be checked.
    ValidatingChecksum(Header),
    /// Header and checksum were accepted; records are read one by one.
    Streaming(Header),
    /// The last record of the stream was read.
    Finished(Header),
    /// The file was rejected.
    Failed(Error),
}

/// A [`Decoder`] as a mathematical value.
pub struct DecoderView {
    /// The bytes of the whole file.
    pub bytes: Seq<u8>,
    pub state: State,
    /// While records are read, the part of the record stream that is still unread;
    /// empty in every other state.
    pub stream: Seq<u8>,
    /// While records are read, the definitions in force; empty in every other state.
    pub definitions: Definitions,
}

impl DecoderView {
    /// The decoder of the file `bytes` before its first step.
    pub open spec fn start(bytes: Seq<u8>) -> DecoderView {
        DecoderView {
            bytes,
            state: State::AwaitHeader,
            stream: Seq::empty(),
            definitions: Map::empty(),
        }
    }

    /// The decoder in the state `state`, outside the record stream.
    pub open spec fn at(self, state: State) -> DecoderView {
        DecoderView { bytes: self.bytes, state, stream: Seq::empty(), definitions: Map::empty() }
    }

    /// The decoder after it has read the header, which it awaited.
    pub open spec fn read_header(self) -> DecoderView {
        match Header::parse(self.bytes) {
            Ok(header) => self.at(State::ValidatingChecksum(header)),
            Err(error) => self.at(State::Failed(Error::Header(error))),
        }
    }

    /// The decoder after it has checked the checksum of the file, and that the
    /// record stream which `header` announces ends before the checksum does.
    pub open spec fn validate_checksum(self, header: Header) -> DecoderView {
        let start = header.header_length as int;
        let end = start + header.data_length;
        if !file_checksum_ok(self.bytes) {
            self.at(State::Failed(Error::ChecksumFailed))
        } else if end + 2 > self.bytes.len() {
            self.at(State::Failed(Error::Record(record::Error::UnexpectedEof)))
        } else {
            DecoderView {
                bytes: self.bytes,
                state: State::Streaming(header),
                stream: self.bytes.subrange(start, end),
                definitions: Map::empty(),
            }
        }
    }

    /// The decoder after it has read one record of the stream, or found the stream
    /// at its end, and the message that the record gave.
    pub open spec fn read_record(self, header: Header) -> (DecoderView, Option<MessageView>) {
        if self.stream.len() == 0 {
            (self.at(State::Finished(header)), None)
        } else {
            match parse_record(self.stream, self.definitions) {
                Ok(message) => (
                    DecoderView {
                        bytes: self.bytes,
                        state: self.state,
                        stream: self.stream.skip(message.encoded_length() as int),
                        definitions: definitions_after(self.definitions, self.stream[0], message),
                    },
                    Some(message),
                ),
                Err(error) => (self.at(State::Failed(Error::Record(error))), None),
            }
        }
    }

    /// One step of the decoder: the decoder after it, and the message that the step
    /// gave, if it gave one. A decoder that has finished or failed stays as it is.
    pub open spec fn advance(self) -> (DecoderView, Option<MessageView>) {
        match self.state {
            State::AwaitHeader => (self.read_header(), None),
            State::ValidatingChecksum(header) => (self.validate_checksum(header), None),
            State::Streaming(header) => self.read_record(header),
            State::Finished(_) => (self, None),
            State::Failed(_) => (self, None),
        }
    }

    /// How many kinds of step the decoder has before it.
    pub open spec fn rank(self) -> nat {
        match self.state {
            State::AwaitHeader => 3,
            State::ValidatingChecksum(_) => 2,
            State::Streaming(_) => 1,
            State::Finished(_) => 0,
            State::Failed(_) => 0,
        }
    }
}

/// `messages` in front of the messages of an outcome.
pub open spec fn after(
    messages: Seq<MessageView>,
    outcome: Result<(Header, Seq<MessageView>), Error>,
) -> Result<(Header, Seq<MessageView>), Error> {
    match outcome {
        Ok((header, rest)) => Ok((header, messages + rest)),
        Err(error) => Err(error),
    }
}

/// The messages that a step gave: one or none.
pub open spec fn emitted(message: Option<MessageView>) -> Seq<MessageView> {
    match message {
        Some(message) => seq![message],
        None => Seq::empty(),
    }
}

/// What the decoder comes to when it takes step after step until it has finished
/// or failed: the header and the messages that its steps give from here on, or
/// the error that it fails with.
pub open spec fn run(decoder: DecoderView) -> Result<(Header, Seq<MessageView>), Error>
    decreases decoder.rank(), decoder.stream.len(),
    via run_decreases
{
    match decoder.state {
        State::Finished(header) => Ok((header, Seq::empty())),
        State::Failed(error) => Err(error),
        _ => after(emitted(decoder.advance().1), run(decoder.advance().0)),
    }
}

#[via_fn]
proof fn run_decreases(decoder: DecoderView) {
    if decoder.state is Streaming && decoder.stream.len() > 0 {
        lemma_record_fits(decoder.stream, decoder.definitions);
    }
}

/// A decoder that reads records comes to what the rest of its stream holds.
pub proof fn lemma_run_streaming(decoder: DecoderView)
    requires
        decoder.state is Streaming,
    ensures
        run(decoder) == match parse_stream(decoder.stream, decoder.definitions) {
            Ok(messages) => Ok::<(Header, Seq<MessageView>), Error>(
                (decoder.state->Streaming_0, messages),
            ),
            Err(error) => Err::<(Header, Seq<MessageView>), Error>(Error::Record(error)),
        },
    decreases decoder.stream.len(),
{
    let header = decoder.state->Streaming_0;
    let (next, message) = decoder.advance();
    if decoder.stream.len() == 0 {
        assert(run(next) == Ok::<(Header, Seq<MessageView>), Error>((header, Seq::empty())));
        assert(Seq::<MessageView>::empty() + Seq::<MessageView>::empty() =~= Seq::<
            MessageView,
        >::empty());
    } else {
        match parse_record(decoder.stream, decoder.definitions) {
            Ok(_) => {
                lemma_record_fits(decoder.stream, decoder.definitions);
                lemma_run_streaming(next);
            },
            Err(error) => {
                assert(run(next) == Err::<(Header, Seq<MessageView>), Error>(Error::Record(error)));
            },
        }
    }
}

/// A decoder that takes every step from the start comes to what the file holds:
/// the states, gone through in their order, decode the file.
pub proof fn lemma_run_decodes(bytes: Seq<u8>)
    ensures
        run(DecoderView::start(bytes)) == parse_file(bytes),
{
    let start = DecoderView::start(bytes);
    let validating = start.advance().0;
    assert(Seq::<MessageView>::empty() + Seq::<MessageView>::empty() =~= Seq::<
        MessageView,
    >::empty());
    match Header::parse(bytes) {
        Ok(header) => {
            let streaming = validating.advance().0;
            if streaming.state is Streaming {
                lemma_run_streaming(streaming);
                if let Ok(messages) = parse_stream(streaming.stream, streaming.definitions) {
                    assert(Seq::<MessageView>::empty() + messages =~= messages);
                }
            } else {
                assert(run(streaming) == Err::<(Header, Seq<MessageView>), Error>(
                    streaming.state->Failed_0,
                ));
            }
            assert(run(validating) == after(Seq::empty(), run(streaming)));
        },
        Err(error) => {
            assert(run(validating) == Err::<(Header, Seq<MessageView>), Error>(
                Error::Header(error),
            ));
        },
    }
}

/// A decoder of one file, which goes from state to state one step at a time.
///
/// It awaits the header, checks the checksum of the file, and then reads the
/// records of the stream one by one, until it has read the last one or fails.
/// The definitions in force are its own, and last as long as it does.
pub struct Decoder<'a> {
    bytes: &'a [u8],
    state: State,
    stream: Cursor<'a>,
    table: SlotTable,
}

impl<'a> View for Decoder<'a> {
    type V = DecoderView;

    closed spec fn view(&self) -> DecoderView {
        if self.state is Streaming {
            DecoderView {
                bytes: self.bytes@,
                state: self.state,
                stream: self.stream.rest(),
                definitions: self.table.view(),
            }
        } else {
            DecoderView {
                bytes: self.bytes@,
                state: self.state,
                stream: Seq::empty(),
                definitions: Map::empty(),
            }
        }
    }
}

impl<'a> Decoder<'a> {
    /// A decoder for the file `bytes`, which has read nothing yet.
    pub fn new(bytes: &'a [u8]) -> (decoder: Self)
        ensures
            decoder@ == DecoderView::start(bytes@),
    {
        Decoder {
            bytes,
            state: State::AwaitHeader,
            stream: Cursor::new(bytes),
            table: SlotTable::new(),
        }
    }

    /// The state that the decoder is in.
    pub fn state(&self) -> (state: State)
        ensures
            state == self@.state,
    {
        self.state
    }

    /// Takes one step: reads the header, checks the checksum, or reads one record,
    /// as the state asks, and returns the message of a record that was read.
    pub fn advance(&mut self) -> (message: Option<Message>)
        ensures
            match message {
                Some(message) => old(self)@.advance() == (final(self)@, Some(message@)),
                None => old(self)@.advance() == (final(self)@, None::<MessageView>),
            },
    {
        match self.state {
            State::AwaitHeader => {
                let mut from = Cursor::new(self.bytes);
                proof {
                    assert(from.rest() =~= self.bytes@);
                }
                self.state = match Header::from(&mut from) {
                    Ok(header) => State::ValidatingChecksum(header),
                    Err(error) => State::Failed(Error::Header(error)),
                };
                None
            },
            State::ValidatingChecksum(header) => {
                self.state = self.validate_checksum(header);
                None
            },
            State::Streaming(header) => {
                if self.stream.remaining() == 0 {
                    self.state = State::Finished(header);
                    return None;
                }
                match read_record(&mut self.stream, &mut self.table) {
                    Ok(message) => Some(message),
                    Err(error) => {
                        self.state = State::Failed(Error::Record(error));
                        None
                    },
                }
            },
            State::Finished(_) => None,
            State::Failed(_) => None,
        }
    }

    /// Checks the checksum of the file and the extent of the record stream, and
    /// sets the decoder at the start of the stream where both are in order.
    fn validate_checksum(&mut self, header: Header) -> (state: State)
        requires
            old(self).state == State::ValidatingChecksum(header),
        ensures
            final(self).bytes == old(self).bytes,
            old(self)@.validate_checksum(header) == (DecoderView {
                bytes: old(self).bytes@,
                state,
                stream: if state is Streaming {
                    final(self).stream.rest()
                } else {
                    Seq::empty()
                },
                definitions: if state is Streaming {
                    final(self).table.view()
                } else {
                    Map::empty()
                },
            }),
    {
        let length = self.bytes.len();
        if length < 2 {
            return State::Failed(Error::ChecksumFailed);
        }
        let covered = slice_subrange(self.bytes, 0, length - 2);
        let checksum = u16_from_le(self.bytes[length - 2], self.bytes[length - 1]);
        proof {
            assert(covered@ =~= self.bytes@.take(length - 2));
        }
        if !valid(covered, checksum) {
            return State::Failed(Error::ChecksumFailed);
        }
        let start = header.header_length as usize;
        if length - 2 < start || header.data_length as u64 > (length - 2 - start) as u64 {
            return State::Failed(Error::Record(record::Error::UnexpectedEof));
        }
        let end = start + header.data_length as usize;
        self.stream = Cursor::new(slice_subrange(self.bytes, start, end));
        self.table = SlotTable::new();
        proof {
            assert(self.stream.rest() =~= self.bytes@.subrange(start as int, end as int));
        }
        State::Streaming(header)
    }
}

/// Decodes a whole file: checks its header and its checksum, then reads every
/// record of the stream that the header announces. The messages of a decoded file
/// take exactly the bytes of that stream.
pub fn decode(bytes: &[u8]) -> (result: Result<(Header, Vec<Message>), Error>)
    ensures
        match result {
            Ok((header, messages)) => {
                &&& parse_file(bytes@) == Ok::<(Header, Seq<MessageView>), Error>(
                    (header, Message::views(messages@)),
                )
                &&& MessageView::total_length(Message::views(messages@)) == header.data_length
            },
            Err(error) => parse_file(bytes@) == Err::<(Header, Seq<MessageView>), Error>(error),
        },
{
    let mut decoder = Decoder::new(bytes);
    let mut messages: Vec<Message> = Vec::new();
    proof {
        lemma_run_decodes(bytes@);
        lemma_file_consumed(bytes@);
        assert(Message::views(messages@) =~= Seq::<MessageView>::empty());
        if let Ok((_, all)) = parse_file(bytes@) {
            assert(Seq::<MessageView>::empty() + all =~= all);
        }
    }
    loop
        invariant
            parse_file(bytes@) == after(Message::views(messages@), run(decoder@)),
            parse_file(bytes@) matches Ok((header, all)) ==> MessageView::total_length(all)
                == header.data_length,
        decreases decoder@.rank(), decoder@.stream.len(),
    {
        match decoder.state() {
            State::Finished(header) => {
                proof {
                    assert(Message::views(messages@) + Seq::<MessageView>::empty()
                        =~= Message::views(messages@));
                }
                return Ok((header, messages));
            },
            State::Failed(error) => {
                return Err(error);
            },
            _ => {},
        }
        let ghost before = decoder@;
        let ghost done = Message::views(messages@);
        proof {
            if before.state is Streaming && before.stream.len() > 0 {
                lemma_record_fits(before.stream, before.definitions);
            }
        }
        match decoder.advance() {
            Some(message) => {
                messages.push(message);
                proof {
                    assert(Message::views(messages@) =~= done.push(message@));
                    if let Ok((_, rest)) = run(decoder@) {
                        assert(done + (seq![message@] + rest) =~= done.push(message@) + rest);
                    }
                }
            },
            None => {
                proof {
                    if let Ok((_, rest)) = run(decoder@) {
                        assert(done + (Seq::<MessageView>::empty() + rest) =~= done + rest);
                    }
                }
            },
        }
    }
}

} // verus!
