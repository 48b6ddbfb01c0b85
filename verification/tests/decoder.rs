use fit::decoder::{decode, Decoder, Error, State};
use fit::message::Message;
use fit::header;
use fit::record;
use fit::record::{Definition, DeveloperField, Endianness, Field, FieldValue, Record};

const SAMPLE: [u8; 60] = [
    14, 16, 99, 8, 44, 0, 0, 0, 46, 70, 73, 84, 245, 185, 64, 0, 0, 20, 0, 2, 253, 4, 134, 3, 1, 2,
    0, 0, 120, 86, 52, 18, 7, 97, 0, 1, 1, 2, 1, 0, 2, 132, 1, 5, 3, 0, 1, 171, 205, 9, 8, 7, 145,
    1, 2, 3, 4, 5, 39, 31,
];
const LEGACY: [u8; 58] = [
    12, 16, 99, 8, 44, 0, 0, 0, 46, 70, 73, 84, 64, 0, 0, 20, 0, 2, 253, 4, 134, 3, 1, 2, 0, 0,
    120, 86, 52, 18, 7, 97, 0, 1, 1, 2, 1, 0, 2, 132, 1, 5, 3, 0, 1, 171, 205, 9, 8, 7, 145, 1, 2,
    3, 4, 5, 121, 136,
];
const EMPTY_STREAM: [u8; 16] = [14, 16, 100, 0, 0, 0, 0, 0, 46, 70, 73, 84, 33, 238, 0, 0];
const UNDEFINED: [u8; 20] =
    [14, 16, 100, 0, 4, 0, 0, 0, 46, 70, 73, 84, 32, 29, 3, 1, 2, 3, 16, 229];
const CUT_DEFINITION: [u8; 24] = [
    14, 16, 100, 0, 8, 0, 0, 0, 46, 70, 73, 84, 32, 72, 64, 0, 0, 20, 0, 2, 253, 4, 212, 160,
];
const STREAM_TOO_LONG: [u8; 60] = [
    14, 16, 100, 0, 45, 0, 0, 0, 46, 70, 73, 84, 226, 111, 64, 0, 0, 20, 0, 2, 253, 4, 134, 3, 1,
    2, 0, 0, 120, 86, 52, 18, 7, 97, 0, 1, 1, 2, 1, 0, 2, 132, 1, 5, 3, 0, 1, 171, 205, 9, 8, 7,
    145, 1, 2, 3, 4, 5, 39, 31,
];
const TRAILING: [u8; 32] = [
    14, 16, 100, 0, 13, 0, 0, 0, 46, 70, 73, 84, 224, 119, 64, 0, 0, 20, 0, 2, 253, 4, 134, 3, 1,
    2, 0, 9, 9, 9, 121, 170,
];
const LONG_HEADER: [u8; 31] = [
    16, 16, 100, 0, 13, 0, 0, 0, 46, 70, 73, 84, 200, 95, 238, 255, 64, 0, 0, 20, 0, 2, 253, 4,
    134, 3, 1, 2, 0, 90, 155,
];

fn first_definition() -> Definition {
    Definition {
        endianness: Endianness::Little,
        global_message_number: 20,
        fields: vec![
            Field { field_definition_number: 253, size: 4, base_type: 0x86 },
            Field { field_definition_number: 3, size: 1, base_type: 2 },
        ],
        developer_fields: vec![],
    }
}

fn sample_messages() -> Vec<Message> {
    vec![
        Message::Definition(first_definition()),
        Message::Data(Record {
            local_message_type: 0,
            time_offset: None,
            field_values: vec![
                FieldValue { field_definition_number: 253, data: vec![0x78, 0x56, 0x34, 0x12] },
                FieldValue { field_definition_number: 3, data: vec![7] },
            ],
        }),
        Message::Definition(Definition {
            endianness: Endianness::Big,
            global_message_number: 258,
            fields: vec![Field { field_definition_number: 0, size: 2, base_type: 0x84 }],
            developer_fields: vec![DeveloperField {
                field_definition_number: 5,
                size: 3,
                base_type: 0,
            }],
        }),
        Message::Data(Record {
            local_message_type: 1,
            time_offset: None,
            field_values: vec![
                FieldValue { field_definition_number: 0, data: vec![0xAB, 0xCD] },
                FieldValue { field_definition_number: 5, data: vec![9, 8, 7] },
            ],
        }),
        Message::Data(Record {
            local_message_type: 0,
            time_offset: Some(17),
            field_values: vec![
                FieldValue { field_definition_number: 253, data: vec![1, 2, 3, 4] },
                FieldValue { field_definition_number: 3, data: vec![5] },
            ],
        }),
    ]
}

fn encoded_length(message: &Message) -> usize {
    match message {
        Message::Definition(definition) => {
            1 + 6 + 3 * definition.fields.len() + 3 * definition.developer_fields.len()
        }
        Message::Data(record) => {
            1 + record.field_values.iter().map(|value| value.data.len()).sum::<usize>()
        }
    }
}

fn with_stream(stream: &[u8]) -> Vec<u8> {
    let mut bytes = vec![12, 16, 100, 0, stream.len() as u8, 0, 0, 0, 46, 70, 73, 84];
    bytes.extend_from_slice(stream);
    let checksum = fit::crc::calculate(&bytes);
    bytes.push((checksum & 0xFF) as u8);
    bytes.push((checksum >> 8) as u8);
    bytes
}

#[test]
fn sample_file_is_decoded() {
    let (header, messages) = decode(&SAMPLE).unwrap();

    assert_eq!(header.header_length, 14);
    assert_eq!(header.protocol_version, 16);
    assert_eq!(header.profile_version, 2147);
    assert_eq!(header.data_length, 44);
    assert_eq!(header.header_checksum, Some(47605));
    assert_eq!(messages, sample_messages());
}

#[test]
fn legacy_file_is_decoded() {
    let (header, messages) = decode(&LEGACY).unwrap();

    assert_eq!(header.header_length, 12);
    assert_eq!(header.header_checksum, None);
    assert_eq!(messages, sample_messages());
}

#[test]
fn messages_take_the_whole_stream() {
    let (header, messages) = decode(&SAMPLE).unwrap();
    let consumed: usize = messages.iter().map(encoded_length).sum();

    assert_eq!(consumed, 44);
    assert_eq!(consumed, header.data_length as usize);
}

#[test]
fn file_without_records() {
    let (header, messages) = decode(&EMPTY_STREAM).unwrap();

    assert_eq!(header.data_length, 0);
    assert!(messages.is_empty());
}

#[test]
fn file_with_longer_header() {
    let (header, messages) = decode(&LONG_HEADER).unwrap();

    assert_eq!(header.header_length, 16);
    assert_eq!(messages, vec![Message::Definition(first_definition())]);
}

#[test]
fn bytes_between_stream_and_checksum_are_not_records() {
    let (header, messages) = decode(&TRAILING).unwrap();

    assert_eq!(header.data_length, 13);
    assert_eq!(messages, vec![Message::Definition(first_definition())]);
}

#[test]
fn data_for_undefined_local_message_type() {
    let result = decode(&UNDEFINED);

    assert_eq!(result, Err(Error::Record(record::Error::UndefinedLocalMessageType)));
}

#[test]
fn compressed_data_for_undefined_local_message_type() {
    let result = decode(&with_stream(&[0x40, 0, 0, 1, 0, 0, 0, 0b1010_0000]));

    assert_eq!(result, Err(Error::Record(record::Error::UndefinedLocalMessageType)));
}

#[test]
fn data_for_another_local_message_type_than_the_one_defined() {
    let result = decode(&with_stream(&[0x41, 0, 0, 1, 0, 0, 0, 0x02]));

    assert_eq!(result, Err(Error::Record(record::Error::UndefinedLocalMessageType)));
}

#[test]
fn record_that_ends_with_the_stream() {
    let result = decode(&CUT_DEFINITION);

    assert_eq!(result, Err(Error::Record(record::Error::UnexpectedEof)));
}

#[test]
fn data_that_ends_with_the_stream() {
    let result = decode(&with_stream(&[0x40, 0, 0, 1, 0, 1, 0, 2, 0, 0, 0x00, 0x11]));

    assert_eq!(result, Err(Error::Record(record::Error::UnexpectedEof)));
}

#[test]
fn records_do_not_reach_into_the_checksum() {
    // The data record needs two bytes, and only the checksum is behind it.
    let result = decode(&with_stream(&[0x40, 0, 0, 1, 0, 1, 0, 2, 0, 0, 0x00]));

    assert_eq!(result, Err(Error::Record(record::Error::UnexpectedEof)));
}

#[test]
fn stream_longer_than_the_file() {
    let result = decode(&STREAM_TOO_LONG);

    assert_eq!(result, Err(Error::Record(record::Error::UnexpectedEof)));
}

#[test]
fn header_alone_is_no_file() {
    let result = decode(&[14, 16, 100, 0, 0, 0, 0, 0, 46, 70, 73, 84, 33, 238]);

    assert_eq!(result, Err(Error::Record(record::Error::UnexpectedEof)));
}

#[test]
fn wrong_file_checksum() {
    let mut bytes = SAMPLE;
    bytes[59] ^= 1;

    assert_eq!(decode(&bytes), Err(Error::ChecksumFailed));
}

#[test]
fn changed_record_fails_the_checksum() {
    for index in 14..58 {
        let mut bytes = SAMPLE;
        bytes[index] ^= 0x10;

        assert_eq!(decode(&bytes), Err(Error::ChecksumFailed));
    }
}

#[test]
fn zero_file_checksum_is_not_skipped() {
    let mut bytes = SAMPLE;
    bytes[58] = 0;
    bytes[59] = 0;

    assert_eq!(decode(&bytes), Err(Error::ChecksumFailed));
}

#[test]
fn checksum_is_checked_before_the_records() {
    let mut bytes = UNDEFINED;
    bytes[19] ^= 0x80;
    assert_eq!(decode(&bytes), Err(Error::ChecksumFailed));

    let mut bytes = STREAM_TOO_LONG;
    bytes[58] ^= 0x80;
    assert_eq!(decode(&bytes), Err(Error::ChecksumFailed));
}

#[test]
fn header_is_checked_before_the_checksum() {
    let mut bytes = SAMPLE;
    bytes[59] ^= 1;
    bytes[12] ^= 1;
    assert_eq!(decode(&bytes), Err(Error::Header(header::Error::ChecksumFailed)));

    bytes[8] = 0;
    assert_eq!(decode(&bytes), Err(Error::Header(header::Error::FitTextMissing)));

    assert_eq!(decode(&bytes[..13]), Err(Error::Header(header::Error::WrongLength)));
    assert_eq!(decode(&[]), Err(Error::Header(header::Error::WrongLength)));
}

#[test]
fn later_definition_takes_the_place_of_an_earlier_one() {
    let stream = [
        0x42, 0, 0, 1, 0, 1, 7, 1, 0, 0, // local message type 2: field 7 of one byte
        0x02, 0xAA, // data
        0x42, 0, 0, 2, 0, 1, 8, 2, 0, 0, // again: field 8 of two bytes
        0x02, 0xBB, 0xCC, // data
    ];
    let (_, messages) = decode(&with_stream(&stream)).unwrap();

    assert_eq!(messages.len(), 4);
    assert_eq!(
        messages[1],
        Message::Data(Record {
            local_message_type: 2,
            time_offset: None,
            field_values: vec![FieldValue { field_definition_number: 7, data: vec![0xAA] }],
        })
    );
    assert_eq!(
        messages[3],
        Message::Data(Record {
            local_message_type: 2,
            time_offset: None,
            field_values: vec![FieldValue { field_definition_number: 8, data: vec![0xBB, 0xCC] }],
        })
    );
}

#[test]
fn definitions_of_other_local_message_types_stay() {
    let stream = [
        0x40, 0, 0, 1, 0, 1, 7, 1, 0, 0, // local message type 0
        0x4F, 0, 0, 2, 0, 1, 8, 2, 0, 0, // local message type 15
        0x00, 0xAA, // data for 0
        0x0F, 0xBB, 0xCC, // data for 15
    ];
    let (_, messages) = decode(&with_stream(&stream)).unwrap();

    assert_eq!(messages.len(), 4);
    assert_eq!(
        messages[3],
        Message::Data(Record {
            local_message_type: 15,
            time_offset: None,
            field_values: vec![FieldValue { field_definition_number: 8, data: vec![0xBB, 0xCC] }],
        })
    );
}

#[test]
fn compressed_record_names_one_of_the_first_four_local_message_types() {
    let stream = [
        0x43, 0, 0, 1, 0, 1, 7, 1, 0, 0, // local message type 3
        0b1111_1111, 0xAA, // compressed data for 3, offset 31
    ];
    let (_, messages) = decode(&with_stream(&stream)).unwrap();

    assert_eq!(
        messages[1],
        Message::Data(Record {
            local_message_type: 3,
            time_offset: Some(31),
            field_values: vec![FieldValue { field_definition_number: 7, data: vec![0xAA] }],
        })
    );
}

#[test]
fn decoder_goes_through_its_states() {
    let mut decoder = Decoder::new(&TRAILING);
    assert_eq!(decoder.state(), State::AwaitHeader);

    assert_eq!(decoder.advance(), None);
    let header = match decoder.state() {
        State::ValidatingChecksum(header) => header,
        other => panic!("unexpected state {:?}", other),
    };
    assert_eq!(header.data_length, 13);

    assert_eq!(decoder.advance(), None);
    assert_eq!(decoder.state(), State::Streaming(header));

    assert_eq!(decoder.advance(), Some(Message::Definition(first_definition())));
    assert_eq!(decoder.state(), State::Streaming(header));

    assert_eq!(decoder.advance(), None);
    assert_eq!(decoder.state(), State::Finished(header));

    assert_eq!(decoder.advance(), None);
    assert_eq!(decoder.state(), State::Finished(header));
}

#[test]
fn decoder_gives_the_messages_one_by_one() {
    let mut decoder = Decoder::new(&SAMPLE);
    let mut messages = Vec::new();
    let mut steps = 0;
    while !matches!(decoder.state(), State::Finished(_) | State::Failed(_)) {
        if let Some(message) = decoder.advance() {
            messages.push(message);
        }
        steps += 1;
    }

    assert_eq!(steps, 2 + 5 + 1);
    assert_eq!(messages, sample_messages());
    assert!(matches!(decoder.state(), State::Finished(_)));
}

#[test]
fn decoder_fails_on_the_header() {
    let mut decoder = Decoder::new(&SAMPLE[..13]);

    assert_eq!(decoder.advance(), None);
    assert_eq!(decoder.state(), State::Failed(Error::Header(header::Error::WrongLength)));
    assert_eq!(decoder.advance(), None);
    assert_eq!(decoder.state(), State::Failed(Error::Header(header::Error::WrongLength)));
}

#[test]
fn decoder_fails_on_the_checksum_before_it_reads_a_record() {
    let mut bytes = SAMPLE;
    bytes[59] ^= 1;
    let mut decoder = Decoder::new(&bytes);

    assert_eq!(decoder.advance(), None);
    assert!(matches!(decoder.state(), State::ValidatingChecksum(_)));
    assert_eq!(decoder.advance(), None);
    assert_eq!(decoder.state(), State::Failed(Error::ChecksumFailed));
}

#[test]
fn decoder_fails_on_a_stream_longer_than_the_file() {
    let mut decoder = Decoder::new(&STREAM_TOO_LONG);

    assert_eq!(decoder.advance(), None);
    assert_eq!(decoder.advance(), None);
    assert_eq!(decoder.state(), State::Failed(Error::Record(record::Error::UnexpectedEof)));
}

#[test]
fn decoder_fails_on_a_record_after_the_messages_before_it() {
    let stream = [0x40, 0, 0, 1, 0, 1, 7, 1, 0, 0, 0x00, 0xAA, 0x01, 0xBB];
    let bytes = with_stream(&stream);
    let mut decoder = Decoder::new(&bytes);

    assert_eq!(decoder.advance(), None);
    assert_eq!(decoder.advance(), None);
    assert!(matches!(decoder.advance(), Some(Message::Definition(_))));
    assert!(matches!(decoder.advance(), Some(Message::Data(_))));
    assert_eq!(decoder.advance(), None);
    assert_eq!(
        decoder.state(),
        State::Failed(Error::Record(record::Error::UndefinedLocalMessageType))
    );
    assert_eq!(decode(&bytes), Err(Error::Record(record::Error::UndefinedLocalMessageType)));
}
