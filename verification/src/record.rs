//! Decoding of one Intel HEX text line into a typed record.
//!
//! A well-formed line has the shape `:BBAAAATTDD...DDCC`: a literal `:`
//! start marker, a two-digit byte count `BB`, a four-digit load address
//! `AAAA`, a two-digit record type code `TT`, `BB` payload bytes of two
//! digits each, and a two-digit checksum `CC`. The checksum field is read
//! but not verified against the sum of the preceding bytes: the decoder is
//! parse-only, and the trailing field is handed to the caller as data.

use vstd::prelude::*;

use crate::hex::hex_field_ok;
use crate::hex::hex_field_value;
use crate::hex::is_hex_digit;
use crate::hex::lemma_hex_field_value_agree;
use crate::hex::lemma_hex_field_value_bound;
use crate::hex::parse_hex_field;
use crate::hex::pow16;

verus! {

/// Which fixed-width field of a line a bad hexadecimal digit was found in.
#[derive(Debug, Clone, Copy, PartialEq, Eq, Structural)]
pub enum HexField {
    /// The two-digit byte count at offsets 1 and 2.
    ByteCount,
    /// The four-digit load address at offsets 3 through 6.
    Address,
    /// The two-digit record type code at offsets 7 and 8.
    RecordType,
    /// One of the two-digit payload bytes starting at offset 9.
    Data,
    /// The two-digit checksum that ends the line.
    Checksum,
}

/// Why a line could not be decoded.
#[derive(Debug, Clone, Copy, PartialEq, Eq, Structural)]
pub enum DecodeError {
    /// The line does not start with `:`, or it ends before the checksum
    /// field that its declared byte count places.
    MalformedRecord,
    /// A fixed-width field holds a character that is not a hexadecimal
    /// digit.
    InvalidHexDigit(HexField),
    /// The record type code is neither 0 (data) nor 1 (end of file).
    UnknownRecordType(u8),
}

/// The closed set of record types this decoder accepts.
#[derive(Debug, Clone, Copy, PartialEq, Eq, Structural)]
pub enum IntelHexRecordType {
    /// Code 0: the payload is data to load at the record's address.
    Data,
    /// Code 1: the terminator record; its payload carries no meaning.
    EndOfFile,
}

/// What a two-character record type field decodes to: the code 0 gives
/// [`IntelHexRecordType::Data`], the code 1 gives
/// [`IntelHexRecordType::EndOfFile`], any other code is rejected as
/// unknown. Input of any other length is malformed.
pub open spec fn spec_parse_record_type(s: Seq<char>) -> Result<IntelHexRecordType, DecodeError> {
    if s.len() != 2 {
        Err(DecodeError::MalformedRecord)
    } else if !hex_field_ok(s, 0, 2) {
        Err(DecodeError::InvalidHexDigit(HexField::RecordType))
    } else if hex_field_value(s, 0, 2) == 0 {
        Ok(IntelHexRecordType::Data)
    } else if hex_field_value(s, 0, 2) == 1 {
        Ok(IntelHexRecordType::EndOfFile)
    } else {
        Err(DecodeError::UnknownRecordType(hex_field_value(s, 0, 2) as u8))
    }
}

impl IntelHexRecordType {
    /// Decodes a two-digit record type field, accepting exactly the codes 0
    /// and 1.
    pub fn parse(src: &str) -> (result: Result<IntelHexRecordType, DecodeError>)
        ensures
            result == spec_parse_record_type(src@),
    {
        let len = src.unicode_len();
        if len != 2 {
            return Err(DecodeError::MalformedRecord);
        }
        match parse_hex_field(src, 0, 2) {
            None => Err(DecodeError::InvalidHexDigit(HexField::RecordType)),
            Some(code) => {
                proof {
                    lemma_hex_field_value_bound(src@, 0, 2);
                    assert(pow16(0) == 1);
                    assert(pow16(1) == 16);
                    assert(pow16(2) == 256);
                }
                if code == 0 {
                    Ok(IntelHexRecordType::Data)
                } else if code == 1 {
                    Ok(IntelHexRecordType::EndOfFile)
                } else {
                    Err(DecodeError::UnknownRecordType(code as u8))
                }
            },
        }
    }
}

/// The mathematical shape of a decoded record.
#[verifier::ext_equal]
pub ghost struct RecordView {
    pub byte_count: u8,
    pub address: u16,
    pub record_type: IntelHexRecordType,
    pub data: Seq<u8>,
    pub checksum: u8,
}

/// One decoded line: the declared payload length, the 16-bit load address,
/// the record type, the payload itself (exactly `byte_count` bytes), and
/// the trailing checksum field as it was read.
#[derive(Debug)]
pub struct IntelHexRecord {
    pub byte_count: u8,
    pub address: u16,
    pub record_type: IntelHexRecordType,
    pub data: Vec<u8>,
    pub checksum: u8,
}

impl View for IntelHexRecord {
    type V = RecordView;

    open spec fn view(&self) -> RecordView {
        RecordView {
            byte_count: self.byte_count,
            address: self.address,
            record_type: self.record_type,
            data: self.data@,
            checksum: self.checksum,
        }
    }
}

/// What decoding one line yields, field by field.
///
/// The branches are ordered as the fields are read: the start marker first,
/// then — only on lines long enough to hold the smallest record — the byte
/// count, address and record type fields, then the line length against the
/// declared byte count, then the checksum field, then the payload bytes.
/// The first failure is the one reported.
pub open spec fn spec_decode(s: Seq<char>) -> Result<RecordView, DecodeError> {
    if s.len() == 0 || s[0] != ':' {
        Err(DecodeError::MalformedRecord)
    } else if s.len() < 11 {
        Err(DecodeError::MalformedRecord)
    } else if !hex_field_ok(s, 1, 2) {
        Err(DecodeError::InvalidHexDigit(HexField::ByteCount))
    } else if !hex_field_ok(s, 3, 4) {
        Err(DecodeError::InvalidHexDigit(HexField::Address))
    } else if !hex_field_ok(s, 7, 2) {
        Err(DecodeError::InvalidHexDigit(HexField::RecordType))
    } else if hex_field_value(s, 7, 2) != 0 && hex_field_value(s, 7, 2) != 1 {
        Err(DecodeError::UnknownRecordType(hex_field_value(s, 7, 2) as u8))
    } else if 11 + 2 * hex_field_value(s, 1, 2) > s.len() {
        Err(DecodeError::MalformedRecord)
    } else if !hex_field_ok(s, 9 + 2 * hex_field_value(s, 1, 2) as int, 2) {
        Err(DecodeError::InvalidHexDigit(HexField::Checksum))
    } else if !(forall|i: int|
        0 <= i < hex_field_value(s, 1, 2) ==> #[trigger] hex_field_ok(s, 9 + 2 * i, 2)) {
        Err(DecodeError::InvalidHexDigit(HexField::Data))
    } else {
        Ok(
            RecordView {
                byte_count: hex_field_value(s, 1, 2) as u8,
                address: hex_field_value(s, 3, 4) as u16,
                record_type: if hex_field_value(s, 7, 2) == 0 {
                    IntelHexRecordType::Data
                } else {
                    IntelHexRecordType::EndOfFile
                },
                data: Seq::new(
                    hex_field_value(s, 1, 2),
                    |i: int| hex_field_value(s, 9 + 2 * i, 2) as u8,
                ),
                checksum: hex_field_value(s, 9 + 2 * hex_field_value(s, 1, 2) as int, 2) as u8,
            },
        )
    }
}

impl IntelHexRecord {
    /// Decodes one line of Intel HEX text into a record, or classifies why
    /// it cannot be: [`spec_decode`] says exactly which outcome each input
    /// yields.
    #[verifier::loop_isolation(false)]
    pub fn parse(src: &str) -> (result: Result<IntelHexRecord, DecodeError>)
        ensures
            match result {
                Ok(r) => spec_decode(src@) == Ok::<RecordView, DecodeError>(r@),
                Err(e) => spec_decode(src@) == Err::<RecordView, DecodeError>(e),
            },
    {
        let len = src.unicode_len();
        if len == 0 {
            return Err(DecodeError::MalformedRecord);
        }
        if src.get_char(0) != ':' {
            return Err(DecodeError::MalformedRecord);
        }
        if len < 11 {
            return Err(DecodeError::MalformedRecord);
        }
        let byte_count_raw = match parse_hex_field(src, 1, 2) {
            None => {
                return Err(DecodeError::InvalidHexDigit(HexField::ByteCount));
            },
            Some(v) => v,
        };
        let address_raw = match parse_hex_field(src, 3, 4) {
            None => {
                return Err(DecodeError::InvalidHexDigit(HexField::Address));
            },
            Some(v) => v,
        };
        proof {
            lemma_hex_field_value_bound(src@, 1, 2);
            lemma_hex_field_value_bound(src@, 3, 4);
            assert(pow16(0) == 1);
            assert(pow16(1) == 16);
            assert(pow16(2) == 256);
            assert(pow16(3) == 4096);
            assert(pow16(4) == 65536);
        }
        let byte_count = byte_count_raw as u8;
        let address = address_raw as u16;
        let type_field = src.substring_char(7, 9);
        proof {
            assert forall|i: int| 0 <= i < 2 implies #[trigger] type_field@[i] == src@[7 + i] by {
            }
            lemma_hex_field_value_agree(type_field@, 0, src@, 7, 2);
            assert(hex_field_ok(type_field@, 0, 2) == hex_field_ok(src@, 7, 2)) by {
                if hex_field_ok(type_field@, 0, 2) {
                    assert forall|i: int| 7 <= i < 9 implies is_hex_digit(#[trigger] src@[i]) by {
                        assert(is_hex_digit(type_field@[i - 7]));
                    }
                }
                if hex_field_ok(src@, 7, 2) {
                    assert forall|i: int| 0 <= i < 2 implies is_hex_digit(
                        #[trigger] type_field@[i],
                    ) by {
                        assert(is_hex_digit(src@[7 + i]));
                    }
                }
            }
        }
        let record_type = match IntelHexRecordType::parse(type_field) {
            Err(e) => {
                return Err(e);
            },
            Ok(t) => t,
        };
        let data_end: usize = 9 + 2 * (byte_count as usize);
        if data_end + 2 > len {
            return Err(DecodeError::MalformedRecord);
        }
        let checksum_raw = match parse_hex_field(src, data_end, 2) {
            None => {
                return Err(DecodeError::InvalidHexDigit(HexField::Checksum));
            },
            Some(v) => v,
        };
        proof {
            lemma_hex_field_value_bound(src@, data_end as int, 2);
        }
        let checksum = checksum_raw as u8;
        let mut data: Vec<u8> = Vec::new();
        let mut i: usize = 0;
        while i < byte_count as usize
            invariant
                i <= byte_count as usize,
                data@.len() == i,
                forall|j: int|
                    0 <= j < i ==> #[trigger] hex_field_ok(src@, 9 + 2 * j, 2) && data@[j]
                        == hex_field_value(src@, 9 + 2 * j, 2) as u8,
            decreases byte_count as usize - i,
        {
            let ghost pre = data@;
            match parse_hex_field(src, 9 + 2 * i, 2) {
                None => {
                    proof {
                        assert(!hex_field_ok(src@, 9 + 2 * (i as int), 2));
                    }
                    return Err(DecodeError::InvalidHexDigit(HexField::Data));
                },
                Some(v) => {
                    proof {
                        lemma_hex_field_value_bound(src@, 9 + 2 * (i as int), 2);
                        assert(pow16(0) == 1);
                        assert(pow16(1) == 16);
                        assert(pow16(2) == 256);
                        assert(hex_field_value(src@, 9 + 2 * (i as int), 2) < 256);
                    }
                    data.push(v as u8);
                },
            }
            proof {
                assert forall|j: int|
                    0 <= j < i + 1 implies #[trigger] hex_field_ok(src@, 9 + 2 * j, 2) && data@[j]
                        == hex_field_value(src@, 9 + 2 * j, 2) as u8 by {
                    if j < i {
                        assert(hex_field_ok(src@, 9 + 2 * j, 2) && pre[j] == hex_field_value(
                            src@,
                            9 + 2 * j,
                            2,
                        ) as u8);
                        assert(data@[j] == pre[j]);
                    }
                }
            }
            i = i + 1;
        }
        let record = IntelHexRecord { byte_count, address, record_type, data, checksum };
        proof {
            let s = src@;
            assert(byte_count == hex_field_value(s, 1, 2));
            assert(spec_decode(s) is Ok);
            let expected = spec_decode(s)->Ok_0;
            assert forall|j: int| 0 <= j < expected.data.len() implies record@.data[j]
                == expected.data[j] by {
                assert(hex_field_ok(s, 9 + 2 * j, 2));
                assert(data@[j] == hex_field_value(s, 9 + 2 * j, 2) as u8);
            }
            assert(record@.data =~= expected.data);
            assert(record@ =~= expected);
        }
        Ok(record)
    }
}

/// A line that matches the record grammar: the `:` marker, hexadecimal
/// byte count, address and record type fields, a type code in the closed
/// set, and enough hexadecimal characters for the declared payload and the
/// checksum. Characters beyond the checksum field are not read and not
/// constrained.
pub open spec fn spec_line_well_formed(s: Seq<char>) -> bool {
    &&& s.len() >= 11
    &&& s[0] == ':'
    &&& hex_field_ok(s, 1, 2)
    &&& hex_field_ok(s, 3, 4)
    &&& hex_field_ok(s, 7, 2)
    &&& (hex_field_value(s, 7, 2) == 0 || hex_field_value(s, 7, 2) == 1)
    &&& s.len() >= 11 + 2 * hex_field_value(s, 1, 2)
    &&& hex_field_ok(s, 9 + 2 * hex_field_value(s, 1, 2) as int, 2)
    &&& forall|i: int|
        0 <= i < hex_field_value(s, 1, 2) ==> #[trigger] hex_field_ok(s, 9 + 2 * i, 2)
}

/// Law: decoding succeeds on exactly the well-formed lines; every other
/// line gets one of the classified errors.
pub proof fn lemma_decode_ok_iff_well_formed(s: Seq<char>)
    ensures
        spec_decode(s) is Ok <==> spec_line_well_formed(s),
{
}

/// Law: a record decoded from a well-formed line carries a payload of
/// exactly the length its byte count field declares, both as the record
/// states it and as the line's byte count field does.
pub proof fn lemma_decoded_data_length(s: Seq<char>)
    requires
        spec_decode(s) is Ok,
    ensures
        spec_decode(s)->Ok_0.data.len() == spec_decode(s)->Ok_0.byte_count,
        spec_decode(s)->Ok_0.data.len() == hex_field_value(s, 1, 2),
{
    lemma_hex_field_value_bound(s, 1, 2);
    assert(pow16(0) == 1);
    assert(pow16(1) == 16);
    assert(pow16(2) == 256);
}

/// Law: on every line that decodes at all, the record type is settled by the
/// type code field alone, whatever the byte count and payload hold: code 0
/// gives [`IntelHexRecordType::Data`] and code 1 gives
/// [`IntelHexRecordType::EndOfFile`].
pub proof fn lemma_record_type_dispatch(s: Seq<char>)
    requires
        spec_decode(s) is Ok,
    ensures
        spec_decode(s)->Ok_0.record_type == IntelHexRecordType::Data <==> hex_field_value(s, 7, 2)
            == 0,
        spec_decode(s)->Ok_0.record_type == IntelHexRecordType::EndOfFile <==> hex_field_value(
            s,
            7,
            2,
        ) == 1,
{
}

/// Law: a line whose record type code is neither 0 nor 1 is rejected as an
/// unknown record type, and the rejection names the code.
pub proof fn lemma_unknown_record_type(s: Seq<char>)
    requires
        s.len() >= 11,
        s[0] == ':',
        hex_field_ok(s, 1, 2),
        hex_field_ok(s, 3, 4),
        hex_field_ok(s, 7, 2),
        hex_field_value(s, 7, 2) != 0,
        hex_field_value(s, 7, 2) != 1,
    ensures
        spec_decode(s) == Err::<RecordView, DecodeError>(
            DecodeError::UnknownRecordType(hex_field_value(s, 7, 2) as u8),
        ),
{
}

/// Law: a line that does not start with the `:` marker is malformed, whatever
/// follows.
pub proof fn lemma_missing_start_marker(s: Seq<char>)
    requires
        s.len() == 0 || s[0] != ':',
    ensures
        spec_decode(s) == Err::<RecordView, DecodeError>(DecodeError::MalformedRecord),
{
}

/// Law: a line that ends before the checksum field placed by its declared
/// byte count — shorter than `9 + byte_count * 2 + 2` characters — is
/// malformed. The decoder never reads past the end of such a line: its
/// result is a function of the characters the line holds.
pub proof fn lemma_truncated_line(s: Seq<char>)
    requires
        1 <= s.len(),
        s[0] == ':',
        11 <= s.len() ==> hex_field_ok(s, 1, 2) && hex_field_ok(s, 3, 4) && hex_field_ok(s, 7, 2)
            && (hex_field_value(s, 7, 2) == 0 || hex_field_value(s, 7, 2) == 1),
        s.len() < 11 + 2 * hex_field_value(s, 1, 2),
    ensures
        spec_decode(s) == Err::<RecordView, DecodeError>(DecodeError::MalformedRecord),
{
}

} // verus!
