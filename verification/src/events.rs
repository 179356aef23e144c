//! Emitting events within the size limits.
use crate::buffer::{drain, emit_raw, total_payload_bytes, EventBuffer, SequenceCounter};
use crate::codec::{DecodeError, DecodePayload, EncodePayload};
use crate::record::EventRecord;
use crate::text::push_decimal;
use vstd::prelude::*;
use vstd::string::StringExecFns;

verus! {

/// Maximum payload size per event in bytes.
pub const MAX_EVENT_PAYLOAD_BYTES: usize = 4096;

/// Maximum total event buffer size per transaction in bytes.
pub const MAX_TOTAL_EVENT_BYTES: usize = 64 * 1024;

/// Why [`emit_event`] refused an event.
#[derive(Debug, PartialEq, Eq, Structural)]
pub enum EventError {
    /// Single event payload exceeds MAX_EVENT_PAYLOAD_BYTES.
    PayloadTooLarge { size: usize, max: usize },
    /// Total accumulated event buffer exceeds MAX_TOTAL_EVENT_BYTES.
    TotalBufferTooLarge { size: usize, max: usize },
}

impl EventError {
    /// The words in which the refusal is reported.
    pub open spec fn message_text(self) -> Seq<char> {
        match self {
            EventError::PayloadTooLarge { size, max } => "event payload too large: "@
                + crate::text::decimal(size as nat)
                + " bytes exceeds MAX_EVENT_PAYLOAD_BYTES ("@ + crate::text::decimal(max as nat)
                + ")"@,
            EventError::TotalBufferTooLarge { size, max } => "total event buffer too large: "@
                + crate::text::decimal(size as nat) + " bytes exceeds MAX_TOTAL_EVENT_BYTES ("@
                + crate::text::decimal(max as nat) + ")"@,
        }
    }

    /// Reports the refusal in words.
    pub fn message(&self) -> (text: String)
        ensures
            text@ == self.message_text(),
    {
        match self {
            EventError::PayloadTooLarge { size, max } => {
                let mut text = "event payload too large: ".to_owned();
                push_decimal(&mut text, *size as u128);
                text.append(" bytes exceeds MAX_EVENT_PAYLOAD_BYTES (");
                push_decimal(&mut text, *max as u128);
                text.append(")");
                text
            },
            EventError::TotalBufferTooLarge { size, max } => {
                let mut text = "total event buffer too large: ".to_owned();
                push_decimal(&mut text, *size as u128);
                text.append(" bytes exceeds MAX_TOTAL_EVENT_BYTES (");
                push_decimal(&mut text, *max as u128);
                text.append(")");
                text
            },
        }
    }
}

/// Encodes the data of an event.
pub fn encode_payload<T: EncodePayload>(event: &T) -> (payload: Vec<u8>)
    requires
        event.encodable(),
    ensures
        payload@ == event.encoding(),
{
    event.to_borsh()
}

/// What becomes of an event of `size` bytes when `total` bytes are waiting.
pub open spec fn emit_verdict(total: nat, size: nat) -> Result<(), EventError> {
    if size > MAX_EVENT_PAYLOAD_BYTES {
        Err(
            EventError::PayloadTooLarge {
                size: size as usize,
                max: MAX_EVENT_PAYLOAD_BYTES,
            },
        )
    } else if total + size > MAX_TOTAL_EVENT_BYTES {
        Err(
            EventError::TotalBufferTooLarge {
                size: (total + size) as usize,
                max: MAX_TOTAL_EVENT_BYTES,
            },
        )
    } else {
        Ok(())
    }
}

/// Emits a structured event.
///
/// An event that is too large for one event, or for what the buffer already
/// holds, is refused and leaves everything as it was.
pub fn emit_event<T: EncodePayload>(
    counter: &mut SequenceCounter,
    buffer: &mut EventBuffer,
    discriminant: u32,
    event: &T,
) -> (res: Result<(), EventError>)
    requires
        event.encodable(),
        event.encoding().len() <= MAX_EVENT_PAYLOAD_BYTES ==> crate::buffer::total_bytes(
            old(buffer)@,
        ) + event.encoding().len() <= usize::MAX,
    ensures
        res == emit_verdict(crate::buffer::total_bytes(old(buffer)@), event.encoding().len()),
        res is Ok ==> final(buffer)@ == crate::buffer::with_event(
            old(buffer)@,
            discriminant,
            old(counter)@,
            event.encoding(),
        ) && final(counter)@ == crate::buffer::next_sequence(old(counter)@),
        res is Err ==> *final(buffer) == *old(buffer) && *final(counter) == *old(counter),
{
    let payload = encode_payload(event);
    if payload.len() > MAX_EVENT_PAYLOAD_BYTES {
        return Err(
            EventError::PayloadTooLarge { size: payload.len(), max: MAX_EVENT_PAYLOAD_BYTES },
        );
    }
    let total: usize = total_payload_bytes(buffer) + payload.len();
    if total > MAX_TOTAL_EVENT_BYTES {
        return Err(EventError::TotalBufferTooLarge { size: total, max: MAX_TOTAL_EVENT_BYTES });
    }
    emit_raw(counter, buffer, discriminant, payload);
    Ok(())
}

/// Collects the emitted events and leaves the buffer empty.
pub fn drain_events(buffer: &mut EventBuffer) -> (events: Vec<EventRecord>)
    ensures
        crate::buffer::records_view(events@) == old(buffer)@,
        final(buffer)@ == Seq::<crate::record::RecordModel>::empty(),
{
    drain(buffer)
}

/// Whether the waiting events respect both size limits.
pub open spec fn within_limits(records: Seq<crate::record::RecordModel>) -> bool {
    &&& crate::buffer::total_bytes(records) <= MAX_TOTAL_EVENT_BYTES
    &&& forall|i: int|
        0 <= i < records.len() ==> (#[trigger] records[i]).payload.len() <= MAX_EVENT_PAYLOAD_BYTES
}

/// Accepted events never take a buffer past the limits.
pub proof fn accepted_events_stay_within_limits(
    records: Seq<crate::record::RecordModel>,
    discriminant: u32,
    sequence: u32,
    payload: Seq<u8>,
)
    requires
        within_limits(records),
        emit_verdict(crate::buffer::total_bytes(records), payload.len()) is Ok,
    ensures
        within_limits(crate::buffer::with_event(records, discriminant, sequence, payload)),
{
    crate::buffer::emitting_adds_payload_size(records, discriminant, sequence, payload);
}

/// An empty buffer is within the limits, and so it takes every event that does
/// not exceed the limit for one event.
pub proof fn empty_buffer_accepts_any_event_within_limit(size: nat)
    ensures
        within_limits(Seq::empty()),
        emit_verdict(
            crate::buffer::total_bytes(Seq::<crate::record::RecordModel>::empty()),
            size,
        ) is Ok <==> size <= MAX_EVENT_PAYLOAD_BYTES,
{
}

/// Each refusal names the limit that is exceeded and the size that exceeds it,
/// and an event is accepted exactly if it exceeds neither limit.
pub proof fn refusals_name_the_exceeded_limit(total: nat, size: nat)
    requires
        total + size <= usize::MAX,
    ensures
        emit_verdict(total, size) is Ok <==> size <= MAX_EVENT_PAYLOAD_BYTES && total + size
            <= MAX_TOTAL_EVENT_BYTES,
        emit_verdict(total, size) matches Err(EventError::PayloadTooLarge { size: s, max }) ==> s
            == size && max == MAX_EVENT_PAYLOAD_BYTES && s > max,
        emit_verdict(total, size) matches Err(EventError::TotalBufferTooLarge { size: s, max })
            ==> s == total + size && max == MAX_TOTAL_EVENT_BYTES && s > max,
{
}

/// What [`drain_events`] hands out after an accepted event ends with that
/// event, and its payload decodes to the event's data again.
pub proof fn drained_event_decodes<T: DecodePayload>(
    before: Seq<crate::record::RecordModel>,
    drained: Seq<crate::record::RecordModel>,
    discriminant: u32,
    sequence: u32,
    event: T,
    res: Result<T, DecodeError>,
)
    requires
        event.encodable(),
        drained == crate::buffer::with_event(before, discriminant, sequence, event.encoding()),
        crate::codec::decodes_to(drained.last().payload, res),
    ensures
        drained.drop_last() == before,
        drained.last().discriminant == discriminant,
        drained.last().sequence == sequence,
        res is Ok,
        res->Ok_0@ == event@,
{
    assert(drained.drop_last() =~= before);
    crate::codec::decoding_an_encoding_succeeds(event, res);
}

/// An event that exceeds the limit for one event is refused for that, even if the
/// buffer is full too. One that does not is refused exactly if it does not fit
/// behind the waiting events. The limits are 4 KiB and 64 KiB.
pub proof fn each_limit_is_enforced(total: nat, size: nat)
    requires
        total + size <= usize::MAX,
    ensures
        size > 4096 ==> emit_verdict(total, size) == Err::<(), EventError>(
            EventError::PayloadTooLarge { size: size as usize, max: 4096 },
        ),
        size <= 4096 && total + size > 65536 ==> emit_verdict(total, size) == Err::<
            (),
            EventError,
        >(EventError::TotalBufferTooLarge { size: (total + size) as usize, max: 65536 }),
        size <= 4096 && total + size <= 65536 ==> emit_verdict(total, size) == Ok::<
            (),
            EventError,
        >(()),
{
}

/// The report of a refusal names the size that is too large and the limit that
/// it exceeds, and says which limit that is.
pub proof fn refusals_are_told_in_words(size: usize, max: usize)
    ensures
        (EventError::PayloadTooLarge { size, max }).message_text() == "event payload too large: "@
            + crate::text::decimal(size as nat) + " bytes exceeds MAX_EVENT_PAYLOAD_BYTES ("@
            + crate::text::decimal(max as nat) + ")"@,
        (EventError::TotalBufferTooLarge { size, max }).message_text()
            == "total event buffer too large: "@ + crate::text::decimal(size as nat)
            + " bytes exceeds MAX_TOTAL_EVENT_BYTES ("@ + crate::text::decimal(max as nat) + ")"@,
{
}

/// An accepted event comes last, with its discriminant, its sequence number and
/// its payload, and leaves the events before it as they were.
pub proof fn accepted_event_comes_last(
    before: Seq<crate::record::RecordModel>,
    discriminant: u32,
    sequence: u32,
    payload: Seq<u8>,
)
    ensures
        ({
            let after = crate::buffer::with_event(before, discriminant, sequence, payload);
            &&& after.len() == before.len() + 1
            &&& after.drop_last() == before
            &&& after.last().discriminant == discriminant
            &&& after.last().sequence == sequence
            &&& after.last().payload == payload
        }),
{
    let after = crate::buffer::with_event(before, discriminant, sequence, payload);
    assert(after.drop_last() =~= before);
}

} // verus!
