//! A decoded FIT file as one value.

use vstd::prelude::*;
use vstd::std_specs::convert::FromSpecImpl;
use crate::decoder;
use crate::decoder::{decode, parse_file};
use crate::header::Header;
use crate::message::{Message, MessageView};

verus! {

/// Why no [`Fit`] could be had, for a caller that loads files and asks no more than
/// whether the file was there and whether it was valid. [`Fit::read`] itself says
/// what was wrong with the bytes; every such error is `FileNotValid` here.
#[derive(Debug, PartialEq, Eq, Clone, Copy)]
pub enum Error {
    /// The bytes of the file could not be had at all. Nothing in this crate opens a
    /// file: the variant is there for the callers that do.
    FileNotFound,
    /// The bytes are not a FIT file: the header, the checksum or a record was
    /// rejected.
    FileNotValid,
}

impl From<decoder::Error> for Error {
    fn from(error: decoder::Error) -> (result: Error) {
        Error::FileNotValid
    }
}

impl FromSpecImpl<decoder::Error> for Error {
    open spec fn obeys_from_spec() -> bool {
        true
    }

    open spec fn from_spec(error: decoder::Error) -> Error {
        Error::FileNotValid
    }
}

/// A file that was decoded in full: its header and the messages of its records.
#[derive(Debug, PartialEq, Eq)]
pub struct Fit {
    header: Header,
    messages: Vec<Message>,
}

/// A [`Fit`] as a mathematical value.
pub struct FitView {
    pub header: Header,
    pub messages: Seq<MessageView>,
}

impl View for Fit {
    type V = FitView;

    closed spec fn view(&self) -> FitView {
        FitView { header: self.header, messages: Message::views(self.messages@) }
    }
}

impl Fit {
    /// Decodes the bytes of a whole file, or says why they were rejected: the error
    /// is that of the first check that failed, the header's before the checksum of
    /// the file and the checksum before any record. The messages of a decoded file
    /// take exactly the bytes of its record stream.
    pub fn read(from: &[u8]) -> (result: Result<Fit, decoder::Error>)
        ensures
            match result {
                Ok(fit) => {
                    &&& parse_file(from@) == Ok::<(Header, Seq<MessageView>), decoder::Error>(
                        (fit@.header, fit@.messages),
                    )
                    &&& MessageView::total_length(fit@.messages) == fit@.header.data_length
                },
                Err(error) => parse_file(from@) == Err::<
                    (Header, Seq<MessageView>),
                    decoder::Error,
                >(error),
            },
    {
        match decode(from) {
            Ok((header, messages)) => Ok(Fit { header, messages }),
            Err(error) => Err(error),
        }
    }

    /// The file's header.
    pub fn header(&self) -> (header: &Header)
        ensures
            *header == self@.header,
    {
        &self.header
    }

    /// The messages of the file's records, in the order of the stream.
    pub fn messages(&self) -> (messages: &Vec<Message>)
        ensures
            Message::views(messages@) == self@.messages,
    {
        &self.messages
    }
}

} // verus!
