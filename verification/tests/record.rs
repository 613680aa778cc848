use intel_hex::record::DecodeError;
use intel_hex::record::HexField;
use intel_hex::record::IntelHexRecord;
use intel_hex::record::IntelHexRecordType;

#[test]
fn end_of_file_record() {
    let record = IntelHexRecord::parse(":00000001FF").unwrap();
    assert_eq!(record.byte_count, 0);
    assert_eq!(record.address, 0);
    assert_eq!(record.record_type, IntelHexRecordType::EndOfFile);
    assert_eq!(record.data, Vec::<u8>::new());
    assert_eq!(record.checksum, 0xFF);
}

#[test]
fn data_record_payload() {
    let record = IntelHexRecord::parse(":03000000010203F5").unwrap();
    assert_eq!(record.byte_count, 3);
    assert_eq!(record.address, 0);
    assert_eq!(record.record_type, IntelHexRecordType::Data);
    assert_eq!(record.data, vec![0x01, 0x02, 0x03]);
    assert_eq!(record.checksum, 0xF5);
}

#[test]
fn data_record_full_payload_length() {
    let record = IntelHexRecord::parse(":102462000102030405060708090A0B0C0D0E0F10AA").unwrap();
    assert_eq!(record.byte_count, 0x10);
    assert_eq!(record.address, 0x2462);
    assert_eq!(record.record_type, IntelHexRecordType::Data);
    assert_eq!(record.data.len(), 16);
    let expected: Vec<u8> = (1..=16).collect();
    assert_eq!(record.data, expected);
    assert_eq!(record.checksum, 0xAA);
}

#[test]
fn lower_case_hex_digits() {
    let record = IntelHexRecord::parse(":02ffff00abcd88").unwrap();
    assert_eq!(record.byte_count, 2);
    assert_eq!(record.address, 0xFFFF);
    assert_eq!(record.record_type, IntelHexRecordType::Data);
    assert_eq!(record.data, vec![0xAB, 0xCD]);
    assert_eq!(record.checksum, 0x88);
}

#[test]
fn end_of_file_type_wins_over_payload() {
    let record = IntelHexRecord::parse(":02000001AABBCC").unwrap();
    assert_eq!(record.record_type, IntelHexRecordType::EndOfFile);
    assert_eq!(record.byte_count, 2);
    assert_eq!(record.data, vec![0xAA, 0xBB]);
}

#[test]
fn checksum_is_read_but_not_verified() {
    // The correct checksum of a one-zero-byte data record at address 0 would
    // be 0xFF; the decoder hands back whatever the trailing field holds.
    let record = IntelHexRecord::parse(":010000000012").unwrap();
    assert_eq!(record.data, vec![0x00]);
    assert_eq!(record.checksum, 0x12);
}

#[test]
fn unknown_record_type_code_two() {
    assert_eq!(IntelHexRecord::parse(":020000021234EA").unwrap_err(), DecodeError::UnknownRecordType(0x02));
}

#[test]
fn unknown_record_type_code_ff() {
    assert_eq!(IntelHexRecord::parse(":000000FFAA").unwrap_err(), DecodeError::UnknownRecordType(0xFF));
}

#[test]
fn unknown_type_reported_before_truncation() {
    assert_eq!(IntelHexRecord::parse(":0A00000212").unwrap_err(), DecodeError::UnknownRecordType(0x02));
}

#[test]
fn missing_start_marker() {
    assert_eq!(IntelHexRecord::parse("00000001FF").unwrap_err(), DecodeError::MalformedRecord);
}

#[test]
fn empty_line_is_malformed() {
    assert_eq!(IntelHexRecord::parse("").unwrap_err(), DecodeError::MalformedRecord);
}

#[test]
fn bare_marker_is_malformed() {
    assert_eq!(IntelHexRecord::parse(":").unwrap_err(), DecodeError::MalformedRecord);
}

#[test]
fn truncated_before_checksum() {
    assert_eq!(IntelHexRecord::parse(":10246200FF").unwrap_err(), DecodeError::MalformedRecord);
}

#[test]
fn truncated_header() {
    assert_eq!(IntelHexRecord::parse(":0000000").unwrap_err(), DecodeError::MalformedRecord);
}

#[test]
fn truncated_one_data_byte() {
    // One declared data byte makes the line 13 characters; 11 is too short.
    assert_eq!(IntelHexRecord::parse(":01000000FF").unwrap_err(), DecodeError::MalformedRecord);
}

#[test]
fn bad_digit_in_byte_count() {
    assert_eq!(IntelHexRecord::parse(":G0000001FF").unwrap_err(), DecodeError::InvalidHexDigit(HexField::ByteCount));
}

#[test]
fn bad_digit_in_address() {
    assert_eq!(IntelHexRecord::parse(":00ZZZZ01FF").unwrap_err(), DecodeError::InvalidHexDigit(HexField::Address));
}

#[test]
fn bad_digit_in_record_type() {
    assert_eq!(IntelHexRecord::parse(":000000ZZFF").unwrap_err(), DecodeError::InvalidHexDigit(HexField::RecordType));
}

#[test]
fn bad_digit_in_checksum() {
    assert_eq!(IntelHexRecord::parse(":00000001ZZ").unwrap_err(), DecodeError::InvalidHexDigit(HexField::Checksum));
}

#[test]
fn bad_digit_in_data() {
    assert_eq!(IntelHexRecord::parse(":02000000ZZBBF1").unwrap_err(), DecodeError::InvalidHexDigit(HexField::Data));
}

#[test]
fn record_type_parse_data() {
    assert_eq!(
        IntelHexRecordType::parse("00"),
        Ok(IntelHexRecordType::Data)
    );
}

#[test]
fn record_type_parse_end_of_file() {
    assert_eq!(
        IntelHexRecordType::parse("01"),
        Ok(IntelHexRecordType::EndOfFile)
    );
}

#[test]
fn record_type_parse_unknown_code() {
    assert_eq!(
        IntelHexRecordType::parse("02"),
        Err(DecodeError::UnknownRecordType(0x02))
    );
    assert_eq!(
        IntelHexRecordType::parse("FF"),
        Err(DecodeError::UnknownRecordType(0xFF))
    );
}

#[test]
fn record_type_parse_bad_digit() {
    assert_eq!(
        IntelHexRecordType::parse("0G"),
        Err(DecodeError::InvalidHexDigit(HexField::RecordType))
    );
}

#[test]
fn record_type_parse_wrong_length() {
    assert_eq!(
        IntelHexRecordType::parse("0"),
        Err(DecodeError::MalformedRecord)
    );
    assert_eq!(
        IntelHexRecordType::parse("000"),
        Err(DecodeError::MalformedRecord)
    );
}
