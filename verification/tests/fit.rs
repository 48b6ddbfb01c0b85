use fit::decoder;
use fit::fit::{Error, Fit};
use fit::header;
use fit::message::Message;
use fit::record;

const ACTIVITY: [u8; 32] = [
    14, 16, 100, 0, 13, 0, 0, 0, 46, 70, 73, 84, 224, 119, 64, 0, 0, 20, 0, 2, 253, 4, 134, 3, 1,
    2, 0, 9, 9, 9, 121, 170,
];
const UNDEFINED: [u8; 20] =
    [14, 16, 100, 0, 4, 0, 0, 0, 46, 70, 73, 84, 32, 29, 3, 1, 2, 3, 16, 229];

#[test]
fn bytes_can_be_read() {
    let activity = Fit::read(&ACTIVITY);

    assert!(activity.is_ok());
}

#[test]
fn read_file_has_header_and_messages() {
    let activity = Fit::read(&ACTIVITY).unwrap();

    assert_eq!(activity.header().data_length, 13);
    assert_eq!(activity.header().profile_version, 100);
    assert_eq!(activity.messages().len(), 1);
    assert!(matches!(activity.messages()[0], Message::Definition(_)));
}

#[test]
fn invalid_header_returns_its_error() {
    let mut bytes = ACTIVITY;
    bytes[9] = 0;
    let activity = Fit::read(&bytes);
    let expected = decoder::Error::Header(header::Error::FitTextMissing);

    assert_eq!(activity.unwrap_err(), expected);
}

#[test]
fn header_checksum_returns_its_error() {
    let mut bytes = ACTIVITY;
    bytes[12] ^= 1;
    let activity = Fit::read(&bytes);
    let expected = decoder::Error::Header(header::Error::ChecksumFailed);

    assert_eq!(activity.unwrap_err(), expected);
}

#[test]
fn header_is_judged_before_the_file_checksum() {
    let mut bytes = ACTIVITY;
    bytes[9] = 0;
    bytes[31] ^= 1;
    let expected = decoder::Error::Header(header::Error::FitTextMissing);
    assert_eq!(Fit::read(&bytes).unwrap_err(), expected);

    let expected = decoder::Error::Header(header::Error::WrongLength);
    assert_eq!(Fit::read(&bytes[..10]).unwrap_err(), expected);
}

#[test]
fn invalid_data_returns_the_checksum_error() {
    let mut bytes = ACTIVITY;
    bytes[20] ^= 1;
    let activity = Fit::read(&bytes);
    let expected = decoder::Error::ChecksumFailed;

    assert_eq!(activity.unwrap_err(), expected);
}

#[test]
fn file_checksum_is_judged_before_the_records() {
    let mut bytes = UNDEFINED;
    bytes[19] ^= 1;

    assert_eq!(Fit::read(&bytes).unwrap_err(), decoder::Error::ChecksumFailed);
}

#[test]
fn zero_file_checksum_returns_the_checksum_error() {
    let mut bytes = ACTIVITY;
    bytes[30] = 0;
    bytes[31] = 0;

    assert_eq!(Fit::read(&bytes).unwrap_err(), decoder::Error::ChecksumFailed);
}

#[test]
fn data_without_definition_returns_its_error() {
    let activity = Fit::read(&UNDEFINED);
    let expected = decoder::Error::Record(record::Error::UndefinedLocalMessageType);

    assert_eq!(activity.unwrap_err(), expected);
}

#[test]
fn record_cut_short_returns_its_error() {
    let bytes = [
        14, 16, 100, 0, 8, 0, 0, 0, 46, 70, 73, 84, 32, 72, 64, 0, 0, 20, 0, 2, 253, 4, 212, 160,
    ];
    let expected = decoder::Error::Record(record::Error::UnexpectedEof);

    assert_eq!(Fit::read(&bytes).unwrap_err(), expected);
}

#[test]
fn no_bytes_are_no_file() {
    let expected = decoder::Error::Header(header::Error::WrongLength);

    assert_eq!(Fit::read(&[]).unwrap_err(), expected);
}

#[test]
fn every_error_of_the_decoder_is_a_file_that_is_not_valid() {
    let errors = [
        decoder::Error::Header(header::Error::WrongLength),
        decoder::Error::Header(header::Error::FitTextMissing),
        decoder::Error::Header(header::Error::ChecksumFailed),
        decoder::Error::ChecksumFailed,
        decoder::Error::Record(record::Error::UnexpectedEof),
        decoder::Error::Record(record::Error::UndefinedLocalMessageType),
    ];
    for error in errors {
        assert_eq!(Error::from(error), Error::FileNotValid);
    }
    assert_ne!(Error::FileNotFound, Error::FileNotValid);
}
