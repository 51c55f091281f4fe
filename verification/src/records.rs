//! The two payloads that a prover sends: the proof, carried as opaque bytes,
//! and the result record, whose binary layout `bincode` produces and reads.

use vstd::prelude::*;

verus! {

/// Number of bytes of an encoded [`ResultRecord`].
pub const RESULT_RECORD_LEN: usize = 28;

/// A produced proof opening in its serialized form. The transport layer
/// moves it and never looks inside.
#[derive(Clone, Debug, PartialEq, Eq)]
pub struct ProofRecord {
    pub bytes: Vec<u8>,
}

/// The benchmarking payload that accompanies a proof.
#[derive(Clone, Copy, Debug, PartialEq, Eq, Structural)]
pub struct ResultRecord {
    /// The derived public scalar.
    pub public_output: u128,
    /// How often the measured routine was called.
    pub call_count: u64,
    /// The accumulated seconds, as the bit pattern of a single-precision
    /// float.
    pub accumulated_time_bits: u32,
}

/// Why a payload could not be turned into a record.
#[derive(Clone, Copy, Debug, PartialEq, Eq, Structural)]
pub enum SerializationError {
    /// The payload does not have the shape of the expected record.
    Malformed,
}

/// `bincode::ErrorKind`, passed through unopened.
#[verifier::external_type_specification]
#[verifier::external_body]
pub struct ExBincodeErrorKind(bincode::ErrorKind);

/// 256 to the power `width`.
pub open spec fn byte_range(width: nat) -> nat
    decreases width,
{
    if width == 0 {
        1
    } else {
        256 * byte_range((width - 1) as nat)
    }
}

/// The `width` little-endian bytes of `value`.
pub open spec fn le_bytes(value: nat, width: nat) -> Seq<u8>
    decreases width,
{
    if width == 0 {
        Seq::empty()
    } else {
        seq![(value % 256) as u8] + le_bytes(value / 256, (width - 1) as nat)
    }
}

/// The unsigned integer that little-endian bytes denote.
pub open spec fn le_value(bytes: Seq<u8>) -> nat
    decreases bytes.len(),
{
    if bytes.len() == 0 {
        0
    } else {
        (bytes[0] as nat) + 256 * le_value(bytes.drop_first())
    }
}

/// The encoding of a record: its three fields in order, each as fixed-width
/// little-endian bytes.
pub open spec fn record_bytes(record: ResultRecord) -> Seq<u8> {
    le_bytes(record.public_output as nat, 16) + le_bytes(record.call_count as nat, 8) + le_bytes(
        record.accumulated_time_bits as nat,
        4,
    )
}

/// The record at the front of a payload, if the payload is long enough to
/// hold one. Bytes past the record are ignored.
pub open spec fn parse_record(bytes: Seq<u8>) -> Option<ResultRecord> {
    if bytes.len() < RESULT_RECORD_LEN {
        None
    } else {
        Some(
            ResultRecord {
                public_output: le_value(bytes.subrange(0, 16)) as u128,
                call_count: le_value(bytes.subrange(16, 24)) as u64,
                accumulated_time_bits: le_value(bytes.subrange(24, 28)) as u32,
            },
        )
    }
}

/// Little-endian bytes have the requested width and denote the value they
/// were made from.
pub proof fn lemma_le_round_trip(value: nat, width: nat)
    requires
        value < byte_range(width),
    ensures
        le_bytes(value, width).len() == width,
        le_value(le_bytes(value, width)) == value,
    decreases width,
{
    if width > 0 {
        lemma_le_round_trip(value / 256, (width - 1) as nat);
        let bytes = le_bytes(value, width);
        assert(bytes.drop_first() =~= le_bytes(value / 256, (width - 1) as nat));
    }
}

/// The ranges of 4, 8 and 16 bytes are those of `u32`, `u64` and `u128`.
pub proof fn lemma_byte_ranges()
    ensures
        byte_range(4) == 0x1_0000_0000,
        byte_range(8) == 0x1_0000_0000_0000_0000,
        byte_range(16) == 0x1_0000_0000_0000_0000_0000_0000_0000_0000,
{
    reveal_with_fuel(byte_range, 17);
}

/// Serialization round trip of the result record: parsing the encoding of a
/// record, followed by anything, gives the record back.
pub proof fn lemma_record_round_trip(record: ResultRecord, rest: Seq<u8>)
    ensures
        record_bytes(record).len() == RESULT_RECORD_LEN,
        parse_record(record_bytes(record) + rest) == Some(record),
{
    lemma_byte_ranges();
    lemma_le_round_trip(record.public_output as nat, 16);
    lemma_le_round_trip(record.call_count as nat, 8);
    lemma_le_round_trip(record.accumulated_time_bits as nat, 4);
    let bytes = record_bytes(record) + rest;
    assert(bytes.subrange(0, 16) =~= le_bytes(record.public_output as nat, 16));
    assert(bytes.subrange(16, 24) =~= le_bytes(record.call_count as nat, 8));
    assert(bytes.subrange(24, 28) =~= le_bytes(record.accumulated_time_bits as nat, 4));
}

/// `bincode::serialize` on the triple of a record's fields. With its default
/// options it writes each integer at its fixed width, little-endian, in field
/// order, and writing integers into a vector cannot fail.
#[verifier::external_body]
fn bincode_serialize(record: &ResultRecord) -> (r: Result<Vec<u8>, Box<bincode::ErrorKind>>)
    ensures
        r is Ok,
        r matches Ok(bytes) ==> bytes@ == record_bytes(*record),
{
    bincode::serialize(&(record.public_output, record.call_count, record.accumulated_time_bits))
}

/// `bincode::deserialize` into a triple of `u128`, `u64` and `u32`. With its
/// default options it reads each integer at its fixed width, little-endian,
/// fails when the input ends early and ignores trailing bytes.
#[verifier::external_body]
fn bincode_deserialize(bytes: &[u8]) -> (r: Result<(u128, u64, u32), Box<bincode::ErrorKind>>)
    ensures
        r is Ok <==> bytes@.len() >= RESULT_RECORD_LEN,
        r matches Ok(fields) ==> parse_record(bytes@) == Some(
            ResultRecord {
                public_output: fields.0,
                call_count: fields.1,
                accumulated_time_bits: fields.2,
            },
        ),
{
    bincode::deserialize::<(u128, u64, u32)>(bytes)
}

impl ResultRecord {
    /// The payload that carries this record.
    pub fn encode(&self) -> (bytes: Vec<u8>)
        ensures
            bytes@ == record_bytes(*self),
            bytes@.len() == RESULT_RECORD_LEN,
    {
        proof {
            lemma_record_round_trip(*self, Seq::empty());
        }
        bincode_serialize(self).unwrap()
    }

    /// Structural decoding of a result payload.
    ///
    /// Succeeds exactly on payloads of at least [`RESULT_RECORD_LEN`] bytes;
    /// anything shorter is [`SerializationError::Malformed`].
    pub fn decode(bytes: &[u8]) -> (r: Result<ResultRecord, SerializationError>)
        ensures
            match r {
                Ok(record) => parse_record(bytes@) == Some(record),
                Err(e) => parse_record(bytes@) is None && e == SerializationError::Malformed,
            },
    {
        match bincode_deserialize(bytes) {
            Ok(fields) => Ok(
                ResultRecord {
                    public_output: fields.0,
                    call_count: fields.1,
                    accumulated_time_bits: fields.2,
                },
            ),
            Err(_) => Err(SerializationError::Malformed),
        }
    }
}

impl ProofRecord {
    /// Structural decoding of a proof payload: the bytes are taken as they
    /// are. Whether they hold a valid proof is not this layer's concern.
    pub fn decode(bytes: &[u8]) -> (record: ProofRecord)
        ensures
            record.bytes@ == bytes@,
    {
        ProofRecord { bytes: vstd::slice::slice_to_vec(bytes) }
    }
}

} // verus!
