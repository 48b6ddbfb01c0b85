//! The two kinds of record content: a definition, which declares the layout of a
//! local message type, and the data that follow such a layout.

use vstd::prelude::*;
use vstd::slice::{slice_subrange, slice_to_vec};
use crate::cursor::Cursor;
use crate::endian::{u16_from_be, u16_from_le};
use crate::record_header::RecordHeader;

verus! {

/// Why a record could not be read.
#[derive(Debug, PartialEq, Eq, Clone, Copy)]
pub enum Error {
    /// The source ends before the record does.
    UnexpectedEof,
    /// A data record names a local message type that no definition came for.
    UndefinedLocalMessageType,
}

/// The byte order of the multi-byte values of one local message type.
#[derive(Debug, PartialEq, Eq, Clone, Copy, Structural)]
pub enum Endianness {
    Big,
    Little,
}

/// The declaration of one field: its number, the bytes its value takes, and the
/// code of its base type, which is kept as read.
#[derive(Debug, PartialEq, Eq, Clone, Copy, Structural)]
pub struct Field {
    pub field_definition_number: u8,
    pub size: u8,
    pub base_type: u8,
}

/// The declaration of one developer field. It has the shape of a [`Field`], and a
/// numbering of its own.
#[derive(Debug, PartialEq, Eq, Clone, Copy, Structural)]
pub struct DeveloperField {
    pub field_definition_number: u8,
    pub size: u8,
    pub base_type: u8,
}

/// A definition message: the layout that the data records of one local message
/// type follow until the next definition for it.
#[derive(Debug, PartialEq, Eq)]
pub struct Definition {
    pub endianness: Endianness,
    pub global_message_number: u16,
    pub fields: Vec<Field>,
    pub developer_fields: Vec<DeveloperField>,
}

/// A [`Definition`] as a mathematical value.
pub struct DefinitionView {
    pub endianness: Endianness,
    pub global_message_number: u16,
    pub fields: Seq<Field>,
    pub developer_fields: Seq<DeveloperField>,
}

/// The raw bytes of one field of a data record.
#[derive(Debug, PartialEq, Eq)]
pub struct FieldValue {
    pub field_definition_number: u8,
    pub data: Vec<u8>,
}

/// A [`FieldValue`] as a mathematical value.
pub struct FieldValueView {
    pub field_definition_number: u8,
    pub data: Seq<u8>,
}

/// A data message: the field values of one record, in the order in which the
/// definition declares them, the fields first and the developer fields after them.
#[derive(Debug, PartialEq, Eq)]
pub struct Record {
    pub local_message_type: u8,
    /// The time offset of the record's control byte, where that was compressed.
    pub time_offset: Option<u8>,
    pub field_values: Vec<FieldValue>,
}

/// A [`Record`] as a mathematical value.
pub struct RecordView {
    pub local_message_type: u8,
    pub time_offset: Option<u8>,
    pub field_values: Seq<FieldValueView>,
}

impl View for Definition {
    type V = DefinitionView;

    open spec fn view(&self) -> DefinitionView {
        DefinitionView {
            endianness: self.endianness,
            global_message_number: self.global_message_number,
            fields: self.fields@,
            developer_fields: self.developer_fields@,
        }
    }
}

impl Clone for Definition {
    fn clone(&self) -> (copy: Self)
        ensures
            copy@ == self@,
    {
        let mut fields: Vec<Field> = Vec::new();
        let mut index: usize = 0;
        while index < self.fields.len()
            invariant
                index <= self.fields@.len(),
                fields@ == self.fields@.take(index as int),
            decreases self.fields@.len() - index,
        {
            fields.push(self.fields[index]);
            index += 1;
            proof {
                assert(fields@ =~= self.fields@.take(index as int));
            }
        }
        let mut developer_fields: Vec<DeveloperField> = Vec::new();
        let mut index: usize = 0;
        while index < self.developer_fields.len()
            invariant
                index <= self.developer_fields@.len(),
                developer_fields@ == self.developer_fields@.take(index as int),
            decreases self.developer_fields@.len() - index,
        {
            developer_fields.push(self.developer_fields[index]);
            index += 1;
            proof {
                assert(developer_fields@ =~= self.developer_fields@.take(index as int));
            }
        }
        proof {
            assert(fields@ =~= self.fields@);
            assert(developer_fields@ =~= self.developer_fields@);
        }
        Definition {
            endianness: self.endianness,
            global_message_number: self.global_message_number,
            fields,
            developer_fields,
        }
    }
}

impl View for FieldValue {
    type V = FieldValueView;

    open spec fn view(&self) -> FieldValueView {
        FieldValueView { field_definition_number: self.field_definition_number, data: self.data@ }
    }
}

impl FieldValue {
    /// The values of a sequence as mathematical values.
    pub open spec fn views(values: Seq<FieldValue>) -> Seq<FieldValueView> {
        values.map_values(|value: FieldValue| value@)
    }
}

impl FieldValueView {
    /// The number of bytes that the values hold, all together.
    pub open spec fn total_length(values: Seq<FieldValueView>) -> nat
        decreases values.len(),
    {
        if values.len() == 0 {
            0
        } else {
            Self::total_length(values.drop_last()) + values.last().data.len()
        }
    }
}

impl RecordView {
    /// The length in bytes of the record's content in the stream.
    pub open spec fn encoded_length(self) -> nat {
        FieldValueView::total_length(self.field_values)
    }
}

impl View for Record {
    type V = RecordView;

    open spec fn view(&self) -> RecordView {
        RecordView {
            local_message_type: self.local_message_type,
            time_offset: self.time_offset,
            field_values: FieldValue::views(self.field_values@),
        }
    }
}

impl DefinitionView {
    /// Whether the definition can stand in a stream, where one byte counts the
    /// fields and another the developer fields.
    pub open spec fn well_formed(self) -> bool {
        self.fields.len() <= 255 && self.developer_fields.len() <= 255
    }

    /// The number of values that a data record of this layout holds.
    pub open spec fn count(self) -> nat {
        self.fields.len() + self.developer_fields.len()
    }

    /// The field number of the `index`-th value, counting the developer fields
    /// after the fields.
    pub open spec fn number(self, index: int) -> u8 {
        if index < self.fields.len() {
            self.fields[index].field_definition_number
        } else {
            self.developer_fields[index - self.fields.len()].field_definition_number
        }
    }

    /// The size in bytes of the `index`-th value.
    pub open spec fn size(self, index: int) -> u8 {
        if index < self.fields.len() {
            self.fields[index].size
        } else {
            self.developer_fields[index - self.fields.len()].size
        }
    }

    /// Where the `index`-th value starts in a data record: the sizes of the values
    /// before it, added up.
    pub open spec fn offset(self, index: int) -> nat
        decreases index,
    {
        if index <= 0 {
            0
        } else {
            self.offset(index - 1) + self.size(index - 1) as nat
        }
    }

    /// The length in bytes of a data record of this layout.
    pub open spec fn data_length(self) -> nat {
        self.offset(self.count() as int)
    }

    /// The length in bytes of the definition itself: six bytes, and three for each
    /// field and developer field.
    pub open spec fn encoded_length(self) -> nat {
        6 + 3 * self.fields.len() + 3 * self.developer_fields.len()
    }

    /// The `index`-th value of the data record that starts with `bytes`.
    pub open spec fn value(self, bytes: Seq<u8>, index: int) -> FieldValueView {
        FieldValueView {
            field_definition_number: self.number(index),
            data: bytes.subrange(
                self.offset(index) as int,
                self.offset(index) + self.size(index),
            ),
        }
    }

    /// The values of the data record that starts with `bytes`, in order.
    pub open spec fn values(self, bytes: Seq<u8>) -> Seq<FieldValueView> {
        Seq::new(self.count(), |index: int| self.value(bytes, index))
    }

    /// The first `count` values of a data record that holds them all take as many
    /// bytes as lie before the value that follows them, and each takes the size it
    /// was declared with.
    pub proof fn lemma_values_length(self, bytes: Seq<u8>, count: int)
        requires
            0 <= count <= self.count(),
            self.data_length() <= bytes.len(),
        ensures
            FieldValueView::total_length(self.values(bytes).take(count)) == self.offset(count),
            forall|index: int|
                0 <= index < count ==> (#[trigger] self.values(bytes)[index]).data.len()
                    == self.size(index),
        decreases count,
    {
        if count > 0 {
            self.lemma_values_length(bytes, count - 1);
            self.lemma_offset_monotonic(count, self.count() as int);
            assert(self.values(bytes).take(count).drop_last() =~= self.values(bytes).take(
                count - 1,
            ));
        }
    }

    /// No value starts before an earlier one does.
    pub proof fn lemma_offset_monotonic(self, earlier: int, later: int)
        requires
            earlier <= later,
        ensures
            self.offset(earlier) <= self.offset(later),
        decreases later - earlier,
    {
        if earlier < later {
            self.lemma_offset_monotonic(earlier, later - 1);
        }
    }
}

impl Definition {
    /// The length in bytes of a data record of this layout, or `None` where that
    /// length is beyond what `usize` holds.
    pub fn data_length(&self) -> (length: Option<usize>)
        ensures
            match length {
                Some(length) => length == self@.data_length(),
                None => self@.data_length() > usize::MAX,
            },
    {
        let field_count = self.fields.len();
        let developer_field_count = self.developer_fields.len();
        let mut length: usize = 0;
        let mut index: usize = 0;
        while index < field_count
            invariant
                index <= field_count == self.fields@.len(),
                length == self@.offset(index as int),
            decreases field_count - index,
        {
            let size = self.fields[index].size as usize;
            if size > usize::MAX - length {
                proof {
                    self@.lemma_offset_monotonic(index + 1, self@.count() as int);
                }
                return None;
            }
            length = length + size;
            index += 1;
        }
        let mut index: usize = 0;
        while index < developer_field_count
            invariant
                index <= developer_field_count == self.developer_fields@.len(),
                field_count == self.fields@.len(),
                length == self@.offset(field_count + index),
            decreases developer_field_count - index,
        {
            let size = self.developer_fields[index].size as usize;
            if size > usize::MAX - length {
                proof {
                    self@.lemma_offset_monotonic(field_count + index + 1, self@.count() as int);
                }
                return None;
            }
            length = length + size;
            index += 1;
        }
        Some(length)
    }
}

impl Record {
    /// The number of bytes that the definition starting with `bytes` takes, where
    /// `bytes` hold all of it.
    pub open spec fn definition_length(bytes: Seq<u8>) -> Option<nat> {
        if bytes.len() < 5 {
            None
        } else {
            let developer_count_at = 5 + 3 * bytes[4];
            if bytes.len() <= developer_count_at {
                None
            } else {
                let length = (developer_count_at + 1 + 3 * bytes[developer_count_at]) as nat;
                if bytes.len() < length {
                    None
                } else {
                    Some(length)
                }
            }
        }
    }

    /// The byte order that an architecture byte stands for: 1 is big-endian, and
    /// every other value little-endian.
    pub open spec fn endianness_of(architecture: u8) -> Endianness {
        if architecture == 1 {
            Endianness::Big
        } else {
            Endianness::Little
        }
    }

    /// The field declaration in the three bytes from `at`.
    pub open spec fn field_at(bytes: Seq<u8>, at: int) -> Field {
        Field { field_definition_number: bytes[at], size: bytes[at + 1], base_type: bytes[at + 2] }
    }

    /// The developer field declaration in the three bytes from `at`.
    pub open spec fn developer_field_at(bytes: Seq<u8>, at: int) -> DeveloperField {
        DeveloperField {
            field_definition_number: bytes[at],
            size: bytes[at + 1],
            base_type: bytes[at + 2],
        }
    }

    /// The first `count` field declarations of the definition that starts with
    /// `bytes`.
    pub open spec fn fields_of(bytes: Seq<u8>, count: nat) -> Seq<Field> {
        Seq::new(count, |index: int| Self::field_at(bytes, 5 + 3 * index))
    }

    /// The first `count` developer field declarations of the definition that starts
    /// with `bytes`.
    pub open spec fn developer_fields_of(bytes: Seq<u8>, count: nat) -> Seq<DeveloperField> {
        Seq::new(
            count,
            |index: int| Self::developer_field_at(bytes, 5 + 3 * bytes[4] + 1 + 3 * index),
        )
    }

    /// The definition that starts with `bytes`, or `None` where they end before it
    /// does. The global message number is in the byte order that the architecture
    /// byte before it gives.
    pub open spec fn parse_definition(bytes: Seq<u8>) -> Option<DefinitionView> {
        if Self::definition_length(bytes) is None {
            None
        } else {
            let endianness = Self::endianness_of(bytes[1]);
            Some(
                DefinitionView {
                    endianness,
                    global_message_number: match endianness {
                        Endianness::Little => u16_from_le(bytes[2], bytes[3]),
                        Endianness::Big => u16_from_be(bytes[2], bytes[3]),
                    },
                    fields: Self::fields_of(bytes, bytes[4] as nat),
                    developer_fields: Self::developer_fields_of(
                        bytes,
                        bytes[5 + 3 * bytes[4]] as nat,
                    ),
                },
            )
        }
    }

    /// The data record that starts with `bytes`, under the header of its control
    /// byte and the definition that is in force for its local message type.
    pub open spec fn parse_data(
        bytes: Seq<u8>,
        header: RecordHeader,
        definition: Option<DefinitionView>,
    ) -> Result<RecordView, Error> {
        match definition {
            None => Err(Error::UndefinedLocalMessageType),
            Some(definition) => {
                if bytes.len() < definition.data_length() {
                    Err(Error::UnexpectedEof)
                } else {
                    Ok(
                        RecordView {
                            local_message_type: header.local_message_type,
                            time_offset: header.time_offset,
                            field_values: definition.values(bytes),
                        },
                    )
                }
            },
        }
    }

    /// Reads a definition at the cursor. On success the cursor stands right behind
    /// the definition; where the source ends too early it has not moved.
    pub fn definition(from: &mut Cursor) -> (result: Result<Definition, Error>)
        ensures
            final(from).bytes() == old(from).bytes(),
            match result {
                Ok(definition) => {
                    &&& definition@.well_formed()
                    &&& Self::parse_definition(old(from).rest()) == Some(definition@)
                    &&& Self::definition_length(old(from).rest()) == Some(
                        definition@.encoded_length(),
                    )
                    &&& final(from).position() == old(from).position()
                        + definition@.encoded_length()
                    &&& final(from).rest() == old(from).rest().skip(
                        definition@.encoded_length() as int,
                    )
                },
                Err(error) => {
                    &&& error == Error::UnexpectedEof
                    &&& Self::parse_definition(old(from).rest()) is None
                    &&& final(from).position() == old(from).position()
                },
            },
    {
        let ghost bytes = from.rest();
        let field_count: usize = match from.peek(5) {
            Some(fixed) => fixed[4] as usize,
            None => {
                return Err(Error::UnexpectedEof);
            },
        };
        let developer_count_at: usize = 5 + 3 * field_count;
        let developer_field_count: usize = match from.peek(developer_count_at + 1) {
            Some(counted) => counted[developer_count_at] as usize,
            None => {
                return Err(Error::UnexpectedEof);
            },
        };
        let length: usize = developer_count_at + 1 + 3 * developer_field_count;
        let window = match from.take(length) {
            Some(window) => window,
            None => {
                return Err(Error::UnexpectedEof);
            },
        };
        let endianness = if window[1] == 1 {
            Endianness::Big
        } else {
            Endianness::Little
        };
        let global_message_number = match endianness {
            Endianness::Little => u16_from_le(window[2], window[3]),
            Endianness::Big => u16_from_be(window[2], window[3]),
        };
        let mut fields: Vec<Field> = Vec::new();
        let mut index: usize = 0;
        while index < field_count
            invariant
                index <= field_count == bytes[4],
                5 + 3 * field_count < length <= bytes.len(),
                window@ == bytes.take(length as int),
                fields@ == Self::fields_of(bytes, index as nat),
            decreases field_count - index,
        {
            let at: usize = 5 + 3 * index;
            let field = Field {
                field_definition_number: window[at],
                size: window[at + 1],
                base_type: window[at + 2],
            };
            fields.push(field);
            index += 1;
            proof {
                assert(fields@ =~= Self::fields_of(bytes, index as nat));
            }
        }
        let mut developer_fields: Vec<DeveloperField> = Vec::new();
        let mut index: usize = 0;
        while index < developer_field_count
            invariant
                index <= developer_field_count,
                field_count == bytes[4],
                length == 5 + 3 * field_count + 1 + 3 * developer_field_count,
                length <= bytes.len(),
                window@ == bytes.take(length as int),
                developer_fields@ == Self::developer_fields_of(bytes, index as nat),
            decreases developer_field_count - index,
        {
            let at: usize = 5 + 3 * field_count + 1 + 3 * index;
            let field = DeveloperField {
                field_definition_number: window[at],
                size: window[at + 1],
                base_type: window[at + 2],
            };
            developer_fields.push(field);
            index += 1;
            proof {
                assert(developer_fields@ =~= Self::developer_fields_of(bytes, index as nat));
            }
        }
        Ok(Definition { endianness, global_message_number, fields, developer_fields })
    }

    /// Reads a data record at the cursor: for each declared field, and then for each
    /// developer field, as many bytes as it declares. `header` is the record's
    /// decoded control byte, and `definition` the definition in force for its local
    /// message type, if one came. On success the cursor stands right behind the
    /// record; on failure it has not moved.
    pub fn data(
        from: &mut Cursor,
        header: &RecordHeader,
        definition: Option<&Definition>,
    ) -> (result: Result<Record, Error>)
        ensures
            final(from).bytes() == old(from).bytes(),
            match result {
                Ok(record) => {
                    &&& definition matches Some(definition)
                    &&& Self::parse_data(old(from).rest(), *header, Some(definition@)) == Ok::<
                        RecordView,
                        Error,
                    >(record@)
                    &&& final(from).position() == old(from).position()
                        + definition@.data_length()
                    &&& final(from).rest() == old(from).rest().skip(
                        definition@.data_length() as int,
                    )
                    &&& record@.encoded_length() == definition@.data_length()
                    &&& record@.field_values.len() == definition@.count()
                    &&& forall|index: int|
                        0 <= index < definition@.count() ==> {
                            &&& (#[trigger] record@.field_values[index]).field_definition_number
                                == definition@.number(index)
                            &&& record@.field_values[index].data.len() == definition@.size(index)
                        }
                },
                Err(error) => {
                    &&& Self::parse_data(
                        old(from).rest(),
                        *header,
                        match definition {
                            Some(definition) => Some(definition@),
                            None => None,
                        },
                    ) == Err::<RecordView, Error>(error)
                    &&& final(from).position() == old(from).position()
                },
            },
    {
        let definition = match definition {
            Some(definition) => definition,
            None => {
                return Err(Error::UndefinedLocalMessageType);
            },
        };
        let ghost bytes = from.rest();
        let ghost layout = definition@;
        let length = match definition.data_length() {
            Some(length) => length,
            None => {
                proof {
                    from.lemma_rest_fits();
                }
                return Err(Error::UnexpectedEof);
            },
        };
        let window = match from.take(length) {
            Some(window) => window,
            None => {
                return Err(Error::UnexpectedEof);
            },
        };
        let field_count = definition.fields.len();
        let developer_field_count = definition.developer_fields.len();
        let mut field_values: Vec<FieldValue> = Vec::new();
        let mut start: usize = 0;
        let mut index: usize = 0;
        while index < field_count
            invariant
                index <= field_count == layout.fields.len(),
                layout == definition@,
                start == layout.offset(index as int),
                length == layout.data_length() <= bytes.len(),
                window@ == bytes.take(length as int),
                FieldValue::views(field_values@) == Seq::new(
                    index as nat,
                    |index: int| layout.value(bytes, index),
                ),
            decreases field_count - index,
        {
            let field = &definition.fields[index];
            proof {
                layout.lemma_offset_monotonic(index + 1, layout.count() as int);
            }
            let end: usize = start + field.size as usize;
            let data = slice_to_vec(slice_subrange(window, start, end));
            proof {
                assert(data@ =~= layout.value(bytes, index as int).data);
            }
            let ghost before = field_values@;
            field_values.push(
                FieldValue { field_definition_number: field.field_definition_number, data },
            );
            start = end;
            index += 1;
            proof {
                assert(FieldValue::views(field_values@) =~= FieldValue::views(before).push(
                    layout.value(bytes, index - 1),
                ));
            }
        }
        let mut index: usize = 0;
        while index < developer_field_count
            invariant
                index <= developer_field_count == layout.developer_fields.len(),
                field_count == layout.fields.len(),
                layout == definition@,
                start == layout.offset(field_count + index),
                length == layout.data_length() <= bytes.len(),
                window@ == bytes.take(length as int),
                FieldValue::views(field_values@) == Seq::new(
                    (field_count + index) as nat,
                    |index: int| layout.value(bytes, index),
                ),
            decreases developer_field_count - index,
        {
            let field = &definition.developer_fields[index];
            proof {
                layout.lemma_offset_monotonic(field_count + index + 1, layout.count() as int);
            }
            let end: usize = start + field.size as usize;
            let data = slice_to_vec(slice_subrange(window, start, end));
            proof {
                assert(data@ =~= layout.value(bytes, field_count + index).data);
            }
            let ghost before = field_values@;
            field_values.push(
                FieldValue { field_definition_number: field.field_definition_number, data },
            );
            start = end;
            index += 1;
            proof {
                assert(FieldValue::views(field_values@) =~= FieldValue::views(before).push(
                    layout.value(bytes, field_count + index - 1),
                ));
            }
        }
        proof {
            layout.lemma_values_length(bytes, layout.count() as int);
            assert(layout.values(bytes).take(layout.count() as int) =~= layout.values(bytes));
        }
        Ok(
            Record {
                local_message_type: header.local_message_type,
                time_offset: header.time_offset,
                field_values,
            },
        )
    }
}

} // verus!
