//! One emitted event.
use crate::codec::{DecodeError, DecodePayload, EncodePayload};
use vstd::prelude::*;
use vstd::slice::slice_subrange;

verus! {

/// An event as it leaves the program that emitted it.
///
/// `discriminant` tells the program's event types apart and means nothing to
/// anyone else. `sequence` gives the order of emission. `payload` is the Borsh
/// encoding of the event's data.
#[derive(Debug, Clone, PartialEq, Eq)]
pub struct EventRecord {
    pub discriminant: u32,
    pub sequence: u32,
    pub payload: Vec<u8>,
}

/// The contents of an [`EventRecord`].
#[verifier::ext_equal]
pub struct RecordModel {
    pub discriminant: u32,
    pub sequence: u32,
    pub payload: Seq<u8>,
}

impl View for EventRecord {
    type V = RecordModel;

    open spec fn view(&self) -> RecordModel {
        RecordModel {
            discriminant: self.discriminant,
            sequence: self.sequence,
            payload: self.payload@,
        }
    }
}

impl RecordModel {
    /// The wire format: discriminant, sequence and payload length as four
    /// little-endian bytes each, then the payload.
    pub open spec fn wire(self) -> Seq<u8> {
        crate::codec::le_bytes(self.discriminant as nat, 4) + crate::codec::le_bytes(
            self.sequence as nat,
            4,
        ) + crate::codec::bytes_encoding(self.payload)
    }
}

impl EventRecord {
    /// Reads the event's data back from the payload. If the payload was made
    /// from a value of the wanted type, that value's data comes back.
    pub fn decode_payload<T: DecodePayload>(&self) -> (res: Result<T, DecodeError>)
        ensures
            crate::codec::decodes_to(self.payload@, res),
            forall|value: T|
                value.encodable() && #[trigger] value.encoding() == self.payload@ ==> res is Ok
                    && res->Ok_0@ == value@,
            res matches Err(e) ==> e.message@ == T::refusal(self.payload@),
    {
        let res = T::from_borsh(self.payload.as_slice());
        proof {
            assert forall|value: T|
                value.encodable() && #[trigger] value.encoding() == self.payload@ implies res is Ok
                && res->Ok_0@ == value@ by {
                crate::codec::decoding_an_encoding_succeeds(value, res);
            }
        }
        res
    }
}

impl EncodePayload for EventRecord {
    open spec fn encodable(&self) -> bool {
        self.payload@.len() <= u32::MAX
    }

    open spec fn encoding(&self) -> Seq<u8> {
        self@.wire()
    }

    fn to_borsh(&self) -> (bytes: Vec<u8>) {
        let mut bytes = self.discriminant.to_borsh();
        let mut sequence = self.sequence.to_borsh();
        let mut payload = self.payload.to_borsh();
        bytes.append(&mut sequence);
        bytes.append(&mut payload);
        bytes
    }
}

/// The three parts of a record's wire format lie at fixed places: four bytes of
/// discriminant, four of sequence number, and then the payload with its length.
pub proof fn wire_parts(record: RecordModel)
    ensures
        record.wire().len() == 12 + record.payload.len(),
        record.wire().subrange(0, 4) == crate::codec::le_bytes(record.discriminant as nat, 4),
        record.wire().subrange(4, 8) == crate::codec::le_bytes(record.sequence as nat, 4),
        record.wire().subrange(8, record.wire().len() as int) == crate::codec::bytes_encoding(
            record.payload,
        ),
{
    crate::codec::le_bytes_len(record.discriminant as nat, 4);
    crate::codec::le_bytes_len(record.sequence as nat, 4);
    crate::codec::le_bytes_len(record.payload.len(), 4);
    let wire = record.wire();
    assert(wire.subrange(0, 4) =~= crate::codec::le_bytes(record.discriminant as nat, 4));
    assert(wire.subrange(4, 8) =~= crate::codec::le_bytes(record.sequence as nat, 4));
    assert(wire.subrange(8, wire.len() as int) =~= crate::codec::bytes_encoding(record.payload));
}

impl DecodePayload for EventRecord {
    /// What is said of the first field that cannot be read.
    open spec fn refusal(bytes: Seq<u8>) -> Seq<char> {
        if bytes.len() < 4 {
            u32::refusal(bytes)
        } else if bytes.len() < 8 {
            u32::refusal(bytes.skip(4))
        } else {
            <Vec<u8>>::refusal(bytes.skip(8))
        }
    }

    fn from_borsh(bytes: &[u8]) -> (res: Result<Self, DecodeError>) {
        proof {
            assert forall|record: EventRecord|
                record.encodable() && #[trigger] record.encoding() == bytes@ implies {
                &&& bytes@.len() >= 12
                &&& record.discriminant.encoding() == bytes@.subrange(0, 4)
                &&& record.sequence.encoding() == bytes@.subrange(4, 8)
                &&& record.payload.encoding() == bytes@.subrange(8, bytes@.len() as int)
            } by {
                wire_parts(record@);
            }
        }
        let len: usize = bytes.len();
        proof {
            assert(bytes@.subrange(0, len as int) =~= bytes@);
            if len >= 4 {
                assert(bytes@.subrange(4, len as int) =~= bytes@.skip(4));
            }
            if len >= 8 {
                assert(bytes@.subrange(8, len as int) =~= bytes@.skip(8));
            }
        }
        let first_end: usize = if len < 4 {
            len
        } else {
            4
        };
        let second_end: usize = if len < 8 {
            len
        } else {
            8
        };
        let discriminant: u32 = match u32::from_borsh(slice_subrange(bytes, 0, first_end)) {
            Ok(value) => value,
            Err(e) => return Err(e),
        };
        proof {
            crate::codec::le_bytes_len(discriminant as nat, 4);
        }
        let sequence: u32 = match u32::from_borsh(slice_subrange(bytes, 4, second_end)) {
            Ok(value) => value,
            Err(e) => return Err(e),
        };
        proof {
            crate::codec::le_bytes_len(sequence as nat, 4);
        }
        let payload: Vec<u8> = match <Vec<u8>>::from_borsh(slice_subrange(bytes, 8, len)) {
            Ok(value) => value,
            Err(e) => return Err(e),
        };
        let record = EventRecord { discriminant, sequence, payload };
        assert(record@.wire() =~= bytes@);
        Ok(record)
    }

    proof fn encoding_injective(a: Self, b: Self) {
        wire_injective(a@, b@);
    }
}

/// Two records with the same wire format have the same contents.
pub proof fn wire_injective(a: RecordModel, b: RecordModel)
    requires
        a.wire() == b.wire(),
    ensures
        a == b,
{
    wire_parts(a);
    wire_parts(b);
    reveal_with_fuel(crate::codec::le_bound, 5);
    crate::codec::le_bytes_injective(a.discriminant as nat, b.discriminant as nat, 4);
    crate::codec::le_bytes_injective(a.sequence as nat, b.sequence as nat, 4);
    crate::codec::bytes_encoding_injective(a.payload, b.payload);
}

/// A record is read back as it was written.
pub proof fn record_roundtrip(record: EventRecord, res: Result<EventRecord, DecodeError>)
    requires
        record.encodable(),
        crate::codec::decodes_to(record.encoding(), res),
    ensures
        res is Ok,
        res->Ok_0@ == record@,
{
    crate::codec::decoding_an_encoding_succeeds(record, res);
}

/// The data of an event is read back from any record that carries it, whatever
/// its discriminant and its sequence number.
pub proof fn event_data_roundtrip<T: DecodePayload>(
    record: EventRecord,
    event: T,
    res: Result<T, DecodeError>,
)
    requires
        event.encodable(),
        record.payload@ == event.encoding(),
        crate::codec::decodes_to(record.payload@, res),
    ensures
        res is Ok,
        res->Ok_0@ == event@,
{
    crate::codec::decoding_an_encoding_succeeds(event, res);
}

/// What is said of bytes that are no record is what is said of the first of its
/// fields that cannot be read: the discriminant, the sequence number, or the
/// payload.
pub proof fn first_unreadable_field_is_named(bytes: Seq<u8>)
    ensures
        bytes.len() < 4 ==> EventRecord::refusal(bytes) == crate::codec::decoding_error(
            "u32"@,
            bytes,
        ),
        4 <= bytes.len() < 8 ==> EventRecord::refusal(bytes) == crate::codec::decoding_error(
            "u32"@,
            bytes.subrange(4, bytes.len() as int),
        ),
        bytes.len() >= 8 ==> EventRecord::refusal(bytes) == crate::codec::decoding_error(
            "Vec<u8>"@,
            bytes.subrange(8, bytes.len() as int),
        ),
{
    if bytes.len() >= 4 {
        assert(bytes.skip(4) =~= bytes.subrange(4, bytes.len() as int));
    }
    if bytes.len() >= 8 {
        assert(bytes.skip(8) =~= bytes.subrange(8, bytes.len() as int));
    }
}

} // verus!
