//! The record stream: one record after the other, each read under the definitions
//! that the records before it left in force.

use vstd::prelude::*;
use crate::cursor::Cursor;
use crate::message::{Message, MessageView};
use crate::record;
use crate::record::{Definition, DefinitionView, Record};
use crate::record_header::{MessageType, RecordHeader};

verus! {

/// The definitions in force, by local message type.
pub type Definitions = Map<u8, DefinitionView>;

/// The definition in force for a local message type, if one came.
pub open spec fn lookup(definitions: Definitions, local_message_type: u8) -> Option<
    DefinitionView,
> {
    if definitions.contains_key(local_message_type) {
        Some(definitions[local_message_type])
    } else {
        None
    }
}

/// The message of the record that `stream` starts with, where `definitions` are in
/// force. The first byte is the record's control byte: a definition is read as it
/// stands, and a data record, compressed or not, under the definition for its local
/// message type.
pub open spec fn parse_record(stream: Seq<u8>, definitions: Definitions) -> Result<
    MessageView,
    record::Error,
>
    recommends
        stream.len() > 0,
{
    let header = RecordHeader::decode(stream[0]);
    let content = stream.skip(1);
    if header.message_type == MessageType::Definition {
        match Record::parse_definition(content) {
            Some(definition) => Ok(MessageView::Definition(definition)),
            None => Err(record::Error::UnexpectedEof),
        }
    } else {
        match Record::parse_data(content, header, lookup(definitions, header.local_message_type)) {
            Ok(record) => Ok(MessageView::Data(record)),
            Err(error) => Err(error),
        }
    }
}

/// The definitions in force after a record with control byte `control` gave
/// `message`: a definition takes the place of any earlier one for its local message
/// type.
pub open spec fn definitions_after(
    definitions: Definitions,
    control: u8,
    message: MessageView,
) -> Definitions {
    match message {
        MessageView::Definition(definition) => definitions.insert(
            RecordHeader::decode(control).local_message_type,
            definition,
        ),
        MessageView::Data(_) => definitions,
    }
}

/// A definition is in force for its local message type from the record that brings
/// it, in the place of any earlier one, and leaves the other local message types
/// as they were.
pub proof fn lemma_definition_replaces(
    definitions: Definitions,
    control: u8,
    definition: DefinitionView,
)
    ensures
        ({
            let local_message_type = RecordHeader::decode(control).local_message_type;
            let after = definitions_after(
                definitions,
                control,
                MessageView::Definition(definition),
            );
            &&& lookup(after, local_message_type) == Some(definition)
            &&& forall|other: u8|
                other != local_message_type ==> lookup(after, other) == lookup(definitions, other)
        }),
{
}

/// `messages` in front of what a rest of the stream gave.
pub open spec fn prepend(
    messages: Seq<MessageView>,
    rest: Result<Seq<MessageView>, record::Error>,
) -> Result<Seq<MessageView>, record::Error> {
    match rest {
        Ok(rest) => Ok(messages + rest),
        Err(error) => Err(error),
    }
}

/// The messages of a record stream, read from its first byte to its last with
/// `definitions` in force at its start, or the error of the first record that
/// cannot be read.
pub open spec fn parse_stream(stream: Seq<u8>, definitions: Definitions) -> Result<
    Seq<MessageView>,
    record::Error,
>
    decreases stream.len(),
    via parse_stream_decreases
{
    if stream.len() == 0 {
        Ok(Seq::empty())
    } else {
        match parse_record(stream, definitions) {
            Err(error) => Err(error),
            Ok(message) => prepend(
                seq![message],
                parse_stream(
                    stream.skip(message.encoded_length() as int),
                    definitions_after(definitions, stream[0], message),
                ),
            ),
        }
    }
}

#[via_fn]
proof fn parse_stream_decreases(stream: Seq<u8>, definitions: Definitions) {
    if stream.len() > 0 {
        lemma_record_fits(stream, definitions);
    }
}

/// A record that can be read lies within the stream, and is not empty.
pub proof fn lemma_record_fits(stream: Seq<u8>, definitions: Definitions)
    requires
        stream.len() > 0,
    ensures
        parse_record(stream, definitions) matches Ok(message) ==> 1 <= message.encoded_length()
            <= stream.len(),
{
    let header = RecordHeader::decode(stream[0]);
    let content = stream.skip(1);
    match parse_record(stream, definitions) {
        Ok(MessageView::Data(record)) => {
            let definition = lookup(definitions, header.local_message_type)->Some_0;
            definition.lemma_values_length(content, definition.count() as int);
            assert(definition.values(content).take(definition.count() as int)
                =~= definition.values(content));
        },
        _ => {},
    }
}

/// A stream that can be read is read to its last byte: the records of its messages
/// take exactly the bytes of the stream.
pub proof fn lemma_stream_consumed(stream: Seq<u8>, definitions: Definitions)
    ensures
        parse_stream(stream, definitions) matches Ok(messages) ==> MessageView::total_length(
            messages,
        ) == stream.len(),
    decreases stream.len(),
{
    if stream.len() > 0 {
        if let Ok(message) = parse_record(stream, definitions) {
            lemma_record_fits(stream, definitions);
            let rest = stream.skip(message.encoded_length() as int);
            let after = definitions_after(definitions, stream[0], message);
            lemma_stream_consumed(rest, after);
            if let Ok(others) = parse_stream(rest, after) {
                assert((seq![message] + others).skip(1) =~= others);
            }
        }
    }
}

/// A data record, compressed or not, for a local message type that no definition is
/// in force for fails the stream it stands first in.
pub proof fn lemma_data_needs_definition(stream: Seq<u8>, definitions: Definitions)
    requires
        stream.len() > 0,
        RecordHeader::decode(stream[0]).message_type != MessageType::Definition,
        !definitions.contains_key(RecordHeader::decode(stream[0]).local_message_type),
    ensures
        parse_record(stream, definitions) == Err::<MessageView, record::Error>(
            record::Error::UndefinedLocalMessageType,
        ),
        parse_stream(stream, definitions) == Err::<Seq<MessageView>, record::Error>(
            record::Error::UndefinedLocalMessageType,
        ),
{
}

/// No definition is in force where a stream starts: a stream whose first record is
/// a data record fails.
pub proof fn lemma_data_first_fails(stream: Seq<u8>)
    requires
        stream.len() > 0,
        RecordHeader::decode(stream[0]).message_type != MessageType::Definition,
    ensures
        parse_stream(stream, Map::empty()) == Err::<Seq<MessageView>, record::Error>(
            record::Error::UndefinedLocalMessageType,
        ),
{
    lemma_data_needs_definition(stream, Map::empty());
}

/// A data record right behind a definition for its local message type, in a stream
/// that holds all of it, is read under that definition, whatever was in force
/// before: it has one value for each declared field and developer field, in the
/// order of their declaration, and each value has the declared number and size.
pub proof fn lemma_data_follows_definition(stream: Seq<u8>, definitions: Definitions)
    requires
        stream.len() > 0,
        parse_record(stream, definitions) matches Ok(MessageView::Definition(definition)) && {
            let rest = stream.skip(1 + definition.encoded_length() as int);
            &&& rest.len() > definition.data_length()
            &&& RecordHeader::decode(rest[0]).message_type != MessageType::Definition
            &&& RecordHeader::decode(rest[0]).local_message_type == RecordHeader::decode(
                stream[0],
            ).local_message_type
        },
    ensures
        ({
            let definition = parse_record(stream, definitions)->Ok_0->Definition_0;
            let rest = stream.skip(1 + definition.encoded_length() as int);
            let after = definitions_after(
                definitions,
                stream[0],
                MessageView::Definition(definition),
            );
            &&& parse_record(rest, after) matches Ok(MessageView::Data(record))
            &&& record.field_values.len() == definition.count()
            &&& forall|index: int|
                0 <= index < definition.count() ==> {
                    &&& (#[trigger] record.field_values[index]).field_definition_number
                        == definition.number(index)
                    &&& record.field_values[index].data.len() == definition.size(index)
                }
            &&& record.encoded_length() == definition.data_length()
        }),
{
    let definition = parse_record(stream, definitions)->Ok_0->Definition_0;
    let rest = stream.skip(1 + definition.encoded_length() as int);
    definition.lemma_values_length(rest.skip(1), definition.count() as int);
    assert(definition.values(rest.skip(1)).take(definition.count() as int) =~= definition.values(
        rest.skip(1),
    ));
}

/// The decoder's table of the definitions in force, one slot for each local
/// message type.
pub(crate) struct SlotTable {
    slots: [Option<Definition>; 16],
}

impl SlotTable {
    pub(crate) closed spec fn view(&self) -> Definitions {
        Map::new(
            |slot: u8| slot < 16 && self.slots@[slot as int] is Some,
            |slot: u8| self.slots@[slot as int]->Some_0@,
        )
    }

    pub(crate) fn new() -> (table: Self)
        ensures
            table.view() == Map::<u8, DefinitionView>::empty(),
    {
        let table = SlotTable {
            slots: [
                None,
                None,
                None,
                None,
                None,
                None,
                None,
                None,
                None,
                None,
                None,
                None,
                None,
                None,
                None,
                None,
            ],
        };
        proof {
            assert(table.view() =~= Map::<u8, DefinitionView>::empty());
        }
        table
    }

    pub(crate) fn get(&self, slot: u8) -> (definition: Option<&Definition>)
        requires
            slot < 16,
        ensures
            match definition {
                Some(definition) => lookup(self.view(), slot) == Some(definition@),
                None => lookup(self.view(), slot) is None,
            },
    {
        self.slots[slot as usize].as_ref()
    }

    pub(crate) fn set(&mut self, slot: u8, definition: Definition)
        requires
            slot < 16,
        ensures
            final(self).view() == old(self).view().insert(slot, definition@),
    {
        self.slots[slot as usize] = Some(definition);
        proof {
            assert(self.view() =~= old(self).view().insert(slot, definition@));
        }
    }
}

/// Reads the record at the cursor, which must not be at the end of its source, and
/// puts a definition into the table.
pub(crate) fn read_record(from: &mut Cursor, table: &mut SlotTable) -> (result: Result<
    Message,
    record::Error,
>)
    requires
        old(from).rest().len() > 0,
    ensures
        final(from).bytes() == old(from).bytes(),
        match result {
            Ok(message) => {
                &&& parse_record(old(from).rest(), old(table).view()) == Ok::<
                    MessageView,
                    record::Error,
                >(message@)
                &&& final(from).rest() == old(from).rest().skip(message@.encoded_length() as int)
                &&& final(table).view() == definitions_after(
                    old(table).view(),
                    old(from).rest()[0],
                    message@,
                )
            },
            Err(error) => parse_record(old(from).rest(), old(table).view()) == Err::<
                MessageView,
                record::Error,
            >(error),
        },
{
    let ghost stream = from.rest();
    let control = match from.take(1) {
        Some(control) => control[0],
        None => {
            return Err(record::Error::UnexpectedEof);
        },
    };
    let ghost content = from.rest();
    let header = RecordHeader::from(control);
    match header.message_type {
        MessageType::Definition => {
            let definition = Record::definition(from)?;
            table.set(header.local_message_type, definition.clone());
            proof {
                assert(from.rest() =~= stream.skip(1 + definition@.encoded_length() as int));
            }
            Ok(Message::Definition(definition))
        },
        _ => {
            let record = Record::data(from, &header, table.get(header.local_message_type))?;
            proof {
                let definition = lookup(table.view(), header.local_message_type)->Some_0;
                definition.lemma_values_length(content, definition.count() as int);
                assert(definition.values(content).take(definition.count() as int)
                    =~= definition.values(content));
                assert(from.rest() =~= stream.skip(1 + definition.data_length() as int));
            }
            Ok(Message::Data(record))
        },
    }
}

} // verus!
