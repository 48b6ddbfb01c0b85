//! The messages that a record stream decodes to.

use vstd::prelude::*;
use crate::record::{Definition, DefinitionView, Record, RecordView};

verus! {

/// One record of the stream, decoded.
#[derive(Debug, PartialEq, Eq)]
pub enum Message {
    Definition(Definition),
    Data(Record),
}

/// A [`Message`] as a mathematical value.
pub enum MessageView {
    Definition(DefinitionView),
    Data(RecordView),
}

impl View for Message {
    type V = MessageView;

    open spec fn view(&self) -> MessageView {
        match self {
            Message::Definition(definition) => MessageView::Definition(definition@),
            Message::Data(record) => MessageView::Data(record@),
        }
    }
}

impl Message {
    /// The messages of a sequence as mathematical values.
    pub open spec fn views(messages: Seq<Message>) -> Seq<MessageView> {
        messages.map_values(|message: Message| message@)
    }
}

impl MessageView {
    /// The length in bytes of the message's record in the stream: the control byte
    /// and the content.
    pub open spec fn encoded_length(self) -> nat {
        match self {
            MessageView::Definition(definition) => 1 + definition.encoded_length(),
            MessageView::Data(record) => 1 + record.encoded_length(),
        }
    }

    /// The length in bytes of the records of `messages` in the stream.
    pub open spec fn total_length(messages: Seq<MessageView>) -> nat
        decreases messages.len(),
    {
        if messages.len() == 0 {
            0
        } else {
            messages[0].encoded_length() + Self::total_length(messages.skip(1))
        }
    }
}

} // verus!
