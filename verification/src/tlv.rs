//! Tag-length-value records: the binary form in which values are stored.
//!
//! A record is one tag byte, the payload's length as eight bytes with the
//! most significant first, and then the payload itself.

use vstd::prelude::*;

verus! {

/// The number of bytes that hold the payload's length.
pub const TLV_LENGTH_SIZE: usize = 8;

/// The number of bytes that stand before the payload: the tag and the
/// length.
pub const TLV_HEADER_SIZE: usize = TLV_LENGTH_SIZE + 1;

/// The tag of a record.
#[derive(Debug, PartialEq, Eq, Clone, Copy, Structural)]
pub enum TLVType {
    String,
    Int,
}

impl TLVType {
    /// The tag byte that stands for this type in a record.
    pub open spec fn spec_tag(self) -> u8 {
        match self {
            TLVType::String => 1u8,
            TLVType::Int => 2u8,
        }
    }

    /// The type that a tag byte stands for, if any.
    pub open spec fn spec_from_u8(value: u8) -> Option<TLVType> {
        if value == 1 {
            Some(TLVType::String)
        } else if value == 2 {
            Some(TLVType::Int)
        } else {
            None
        }
    }

    #[verifier::when_used_as_spec(spec_tag)]
    pub fn tag(self) -> (byte: u8)
        ensures
            byte == self.spec_tag(),
    {
        match self {
            TLVType::String => 1u8,
            TLVType::Int => 2u8,
        }
    }

    #[verifier::when_used_as_spec(spec_from_u8)]
    pub fn from_u8(value: u8) -> (tlv_type: Option<TLVType>)
        ensures
            tlv_type == TLVType::spec_from_u8(value),
    {
        match value {
            1 => Some(TLVType::String),
            2 => Some(TLVType::Int),
            _ => None,
        }
    }
}

/// The eight bytes that spell `n`, most significant first.
pub open spec fn be_bytes(n: u64) -> Seq<u8> {
    seq![
        ((n / 0x100_0000_0000_0000) % 256) as u8,
        ((n / 0x1_0000_0000_0000) % 256) as u8,
        ((n / 0x100_0000_0000) % 256) as u8,
        ((n / 0x1_0000_0000) % 256) as u8,
        ((n / 0x100_0000) % 256) as u8,
        ((n / 0x1_0000) % 256) as u8,
        ((n / 0x100) % 256) as u8,
        (n % 256) as u8,
    ]
}

/// The number that the first eight bytes of `bytes` spell, most significant
/// first.
pub open spec fn be_value(bytes: Seq<u8>) -> nat
    recommends
        bytes.len() >= 8,
{
    (bytes[0] as nat) * 0x100_0000_0000_0000 + (bytes[1] as nat) * 0x1_0000_0000_0000 + (
    bytes[2] as nat) * 0x100_0000_0000 + (bytes[3] as nat) * 0x1_0000_0000 + (bytes[4] as nat)
        * 0x100_0000 + (bytes[5] as nat) * 0x1_0000 + (bytes[6] as nat) * 0x100 + (
    bytes[7] as nat)
}

/// The record that holds `value` under the tag byte `tag`.
pub open spec fn spec_form_tlv(tag: u8, value: Seq<u8>) -> Seq<u8> {
    seq![tag] + be_bytes(value.len() as u64) + value
}

/// The record that holds `value` under the tag of `tlv_type`.
pub open spec fn spec_to_tlv(value: Seq<u8>, tlv_type: TLVType) -> Seq<u8> {
    spec_form_tlv(tlv_type.spec_tag(), value)
}

/// The payload length that the header of `record` declares.
pub open spec fn declared_length(record: Seq<u8>) -> nat
    recommends
        record.len() >= TLV_HEADER_SIZE,
{
    be_value(record.subrange(1, TLV_HEADER_SIZE as int))
}

/// Whether `record` can be decoded: it has a tag byte, and where that tag is
/// a known one, a whole header and as many payload bytes as the header
/// declares.
pub open spec fn is_record(record: Seq<u8>) -> bool {
    &&& record.len() >= 1
    &&& TLVType::spec_from_u8(record[0]) is Some ==> {
        &&& record.len() >= TLV_HEADER_SIZE
        &&& TLV_HEADER_SIZE + declared_length(record) <= record.len()
    }
}

/// The payload of `record`: nothing under an unknown tag, else the declared
/// number of bytes that follow the header.
pub open spec fn spec_from_tlv(record: Seq<u8>) -> Seq<u8>
    recommends
        is_record(record),
{
    if TLVType::spec_from_u8(record[0]) is None {
        Seq::<u8>::empty()
    } else {
        record.subrange(TLV_HEADER_SIZE as int, TLV_HEADER_SIZE + declared_length(record))
    }
}

/// Eight bytes that were made from a number spell that number.
pub proof fn lemma_be_value_of_be_bytes(n: u64)
    ensures
        be_bytes(n).len() == 8,
        be_value(be_bytes(n)) == n,
{
    let r1: u64 = n / 0x100;
    let r2: u64 = r1 / 0x100;
    let r3: u64 = r2 / 0x100;
    let r4: u64 = r3 / 0x100;
    let r5: u64 = r4 / 0x100;
    let r6: u64 = r5 / 0x100;
    let r7: u64 = r6 / 0x100;
    assert(n / 0x1_0000 == (n / 0x100) / 0x100) by (bit_vector);
    assert(n / 0x100_0000 == ((n / 0x100) / 0x100) / 0x100) by (bit_vector);
    assert(n / 0x1_0000_0000 == (n / 0x100_0000) / 0x100) by (bit_vector);
    assert(n / 0x100_0000_0000 == (n / 0x1_0000_0000) / 0x100) by (bit_vector);
    assert(n / 0x1_0000_0000_0000 == (n / 0x100_0000_0000) / 0x100) by (bit_vector);
    assert(n / 0x100_0000_0000_0000 == (n / 0x1_0000_0000_0000) / 0x100) by (bit_vector);
    assert(n / 0x100_0000_0000_0000 < 0x100) by (bit_vector);
    let b = be_bytes(n);
    assert(b[7] == n % 256 && n == r1 * 256 + b[7]);
    assert(b[6] == r1 % 256 && r1 == r2 * 256 + b[6]);
    assert(b[5] == r2 % 256 && r2 == r3 * 256 + b[5]);
    assert(b[4] == r3 % 256 && r3 == r4 * 256 + b[4]);
    assert(b[3] == r4 % 256 && r4 == r5 * 256 + b[3]);
    assert(b[2] == r5 % 256 && r5 == r6 * 256 + b[2]);
    assert(b[1] == r6 % 256 && r6 == r7 * 256 + b[1]);
    assert(b[0] == r7);
}

/// Every record that encoding makes can be decoded.
pub proof fn lemma_encoded_is_record(value: Seq<u8>, tlv_type: TLVType)
    requires
        value.len() <= u64::MAX,
    ensures
        is_record(spec_to_tlv(value, tlv_type)),
        spec_to_tlv(value, tlv_type).len() == TLV_HEADER_SIZE + value.len(),
        declared_length(spec_to_tlv(value, tlv_type)) == value.len(),
{
    let n = value.len() as u64;
    let record = spec_to_tlv(value, tlv_type);
    lemma_be_value_of_be_bytes(n);
    assert(record.subrange(1, TLV_HEADER_SIZE as int) =~= be_bytes(n));
    assert(record[0] == tlv_type.spec_tag());
}

/// Decoding a record that was encoded from `value`, under either tag, gives
/// `value` back.
pub proof fn lemma_round_trip(value: Seq<u8>, tlv_type: TLVType)
    requires
        value.len() <= u64::MAX,
    ensures
        spec_from_tlv(spec_to_tlv(value, tlv_type)) == value,
{
    let record = spec_to_tlv(value, tlv_type);
    lemma_encoded_is_record(value, tlv_type);
    assert(record[0] == tlv_type.spec_tag());
    assert(record.subrange(TLV_HEADER_SIZE as int, TLV_HEADER_SIZE + value.len()) =~= value);
}

/// Appends to `tlv` the eight bytes that spell `n`, most significant first.
fn push_be_bytes(tlv: &mut Vec<u8>, n: u64)
    ensures
        final(tlv)@ == old(tlv)@ + be_bytes(n),
{
    assert((n >> 56) & 0xff == (n / 0x100_0000_0000_0000) % 256) by (bit_vector);
    assert((n >> 48) & 0xff == (n / 0x1_0000_0000_0000) % 256) by (bit_vector);
    assert((n >> 40) & 0xff == (n / 0x100_0000_0000) % 256) by (bit_vector);
    assert((n >> 32) & 0xff == (n / 0x1_0000_0000) % 256) by (bit_vector);
    assert((n >> 24) & 0xff == (n / 0x100_0000) % 256) by (bit_vector);
    assert((n >> 16) & 0xff == (n / 0x1_0000) % 256) by (bit_vector);
    assert((n >> 8) & 0xff == (n / 0x100) % 256) by (bit_vector);
    assert(n & 0xff == n % 256) by (bit_vector);
    tlv.push(((n >> 56) & 0xff) as u8);
    tlv.push(((n >> 48) & 0xff) as u8);
    tlv.push(((n >> 40) & 0xff) as u8);
    tlv.push(((n >> 32) & 0xff) as u8);
    tlv.push(((n >> 24) & 0xff) as u8);
    tlv.push(((n >> 16) & 0xff) as u8);
    tlv.push(((n >> 8) & 0xff) as u8);
    tlv.push((n & 0xff) as u8);
    assert(tlv@ =~= old(tlv)@ + be_bytes(n));
}

/// Builds the record of `tlv_value` under the tag byte in `tlv_type`.
pub fn form_tlv(tlv_type: [u8; 1], tlv_value: Vec<u8>) -> (tlv: Vec<u8>)
    ensures
        tlv@ == spec_form_tlv(tlv_type@[0], tlv_value@),
{
    let ghost value = tlv_value@;
    let mut tlv: Vec<u8> = Vec::new();
    tlv.push(tlv_type[0]);
    push_be_bytes(&mut tlv, tlv_value.len() as u64);
    let mut tlv_value = tlv_value;
    tlv.append(&mut tlv_value);
    assert(tlv@ =~= spec_form_tlv(tlv_type@[0], value));
    tlv
}

/// Encodes `value` as a record under the tag of `tlv_type`. Every value has
/// a record.
pub fn to_tlv(value: Vec<u8>, tlv_type: TLVType) -> (tlv: Vec<u8>)
    ensures
        tlv@ == spec_to_tlv(value@, tlv_type),
        is_record(tlv@),
        spec_from_tlv(tlv@) == value@,
{
    let ghost payload = value@;
    let length: usize = value.len();
    let tlv = match tlv_type {
        TLVType::String => {
            let tag: [u8; 1] = [TLVType::String.tag()];
            assert(tag@[0] == tlv_type.spec_tag());
            form_tlv(tag, value)
        },
        TLVType::Int => {
            let tag: [u8; 1] = [TLVType::Int.tag()];
            assert(tag@[0] == tlv_type.spec_tag());
            form_tlv(tag, value)
        },
    };
    proof {
        assert(payload.len() == length);
        lemma_encoded_is_record(payload, tlv_type);
        lemma_round_trip(payload, tlv_type);
    }
    tlv
}

/// The payload length that the header of `record` declares.
fn read_declared_length(record: &Vec<u8>) -> (length: u64)
    requires
        record@.len() >= TLV_HEADER_SIZE,
    ensures
        length == declared_length(record@),
{
    let b0: u64 = record[1] as u64;
    let b1: u64 = record[2] as u64;
    let b2: u64 = record[3] as u64;
    let b3: u64 = record[4] as u64;
    let b4: u64 = record[5] as u64;
    let b5: u64 = record[6] as u64;
    let b6: u64 = record[7] as u64;
    let b7: u64 = record[8] as u64;
    b0 * 0x100_0000_0000_0000 + b1 * 0x1_0000_0000_0000 + b2 * 0x100_0000_0000 + b3
        * 0x1_0000_0000 + b4 * 0x100_0000 + b5 * 0x1_0000 + b6 * 0x100 + b7
}

/// Whether `record` can be decoded. Use it on bytes of unknown origin before
/// `from_tlv`.
pub fn is_tlv(record: &Vec<u8>) -> (decodable: bool)
    ensures
        decodable == is_record(record@),
{
    if record.len() < 1 {
        return false;
    }
    if TLVType::from_u8(record[0]).is_none() {
        return true;
    }
    if record.len() < TLV_HEADER_SIZE {
        return false;
    }
    let length: u64 = read_declared_length(record);
    let room: u64 = (record.len() - TLV_HEADER_SIZE) as u64;
    length <= room
}

/// Decodes a record to its payload: nothing under an unknown tag, else the
/// declared number of bytes that follow the header.
pub fn from_tlv(value: Vec<u8>) -> (payload: Vec<u8>)
    requires
        is_record(value@),
    ensures
        payload@ == spec_from_tlv(value@),
{
    match TLVType::from_u8(value[0]) {
        None => Vec::new(),
        Some(_) => {
            let total: usize = value.len();
            let declared: u64 = read_declared_length(&value);
            assert(TLV_HEADER_SIZE + declared <= total);
            let value_length: usize = declared as usize;
            let mut payload: Vec<u8> = Vec::new();
            let mut i: usize = 0;
            while i < value_length
                invariant
                    i <= value_length,
                    TLV_HEADER_SIZE + value_length <= value@.len() <= usize::MAX,
                    payload@ == value@.subrange(TLV_HEADER_SIZE as int, TLV_HEADER_SIZE + i),
                decreases value_length - i,
            {
                payload.push(value[TLV_HEADER_SIZE + i]);
                i = i + 1;
                assert(payload@ =~= value@.subrange(
                    TLV_HEADER_SIZE as int,
                    TLV_HEADER_SIZE + i,
                ));
            }
            payload
        },
    }
}

} // verus!
