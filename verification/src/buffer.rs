//! The events that a program has emitted and nobody has collected yet.
//!
//! A program's events wait in an [`EventBuffer`]. Their sequence numbers come
//! from a [`SequenceCounter`], which outlives any one buffer: it goes on
//! counting across chained calls and is not touched when a buffer is drained.
use crate::codec::EncodePayload;
use crate::events::encode_payload;
use crate::record::EventRecord;
use vstd::prelude::*;

verus! {

/// Hands out sequence numbers in ascending order, starting over at zero after
/// the largest one.
pub struct SequenceCounter {
    next: u32,
}

impl View for SequenceCounter {
    type V = u32;

    closed spec fn view(&self) -> u32 {
        self.next
    }
}

/// The sequence number that follows `n`.
pub open spec fn next_sequence(n: u32) -> u32 {
    if n == u32::MAX {
        0
    } else {
        (n + 1) as u32
    }
}

impl SequenceCounter {
    /// A counter whose first number is zero.
    pub fn new() -> (counter: Self)
        ensures
            counter@ == 0,
    {
        SequenceCounter { next: 0 }
    }

    /// Hands out the next number.
    fn take(&mut self) -> (sequence: u32)
        ensures
            sequence == old(self)@,
            final(self)@ == next_sequence(old(self)@),
    {
        let sequence: u32 = self.next;
        self.next = if sequence == u32::MAX {
            0
        } else {
            sequence + 1
        };
        sequence
    }
}

/// Emitted events in the order of their emission.
pub struct EventBuffer {
    records: Vec<EventRecord>,
}

impl View for EventBuffer {
    type V = Seq<crate::record::RecordModel>;

    closed spec fn view(&self) -> Seq<crate::record::RecordModel> {
        records_view(self.records@)
    }
}

/// The contents of several records.
pub open spec fn records_view(records: Seq<EventRecord>) -> Seq<crate::record::RecordModel> {
    records.map_values(|r: EventRecord| r@)
}

/// The payload bytes of all `records` together.
pub open spec fn total_bytes(records: Seq<crate::record::RecordModel>) -> nat
    decreases records.len(),
{
    if records.len() == 0 {
        0
    } else {
        total_bytes(records.drop_last()) + records.last().payload.len()
    }
}

/// `records` with one more event at the end.
pub open spec fn with_event(
    records: Seq<crate::record::RecordModel>,
    discriminant: u32,
    sequence: u32,
    payload: Seq<u8>,
) -> Seq<crate::record::RecordModel> {
    records.push(crate::record::RecordModel { discriminant, sequence, payload })
}

impl EventBuffer {
    /// A buffer without events.
    pub fn new() -> (buffer: Self)
        ensures
            buffer@ == Seq::<crate::record::RecordModel>::empty(),
    {
        let buffer = EventBuffer { records: Vec::new() };
        assert(buffer@ =~= Seq::empty());
        buffer
    }
}

/// Encodes `event` and appends it, whatever its size.
pub fn emit<T: EncodePayload>(
    counter: &mut SequenceCounter,
    buffer: &mut EventBuffer,
    discriminant: u32,
    event: &T,
)
    requires
        event.encodable(),
    ensures
        final(buffer)@ == with_event(old(buffer)@, discriminant, old(counter)@, event.encoding()),
        final(counter)@ == next_sequence(old(counter)@),
{
    let payload = encode_payload(event);
    emit_raw(counter, buffer, discriminant, payload);
}

/// Appends an event with an encoded payload, whatever its size.
pub fn emit_raw(
    counter: &mut SequenceCounter,
    buffer: &mut EventBuffer,
    discriminant: u32,
    payload: Vec<u8>,
)
    ensures
        final(buffer)@ == with_event(old(buffer)@, discriminant, old(counter)@, payload@),
        final(counter)@ == next_sequence(old(counter)@),
{
    let sequence: u32 = counter.take();
    buffer.records.push(EventRecord { discriminant, sequence, payload });
    assert(buffer@ =~= with_event(old(buffer)@, discriminant, old(counter)@, payload@));
}

/// Adds up the payload bytes of the waiting events, if the sum can be
/// represented.
pub fn checked_payload_bytes(buffer: &EventBuffer) -> (total: Option<usize>)
    ensures
        match total {
            Some(n) => n == total_bytes(buffer@),
            None => total_bytes(buffer@) > usize::MAX,
        },
{
    let mut total: usize = 0;
    let mut i: usize = 0;
    assert(buffer@.take(0) =~= Seq::empty());
    while i < buffer.records.len()
        invariant
            i <= buffer.records@.len(),
            total == total_bytes(buffer@.take(i as int)),
        decreases buffer.records@.len() - i,
    {
        proof {
            let upto = buffer@.take(i + 1);
            assert(upto.drop_last() =~= buffer@.take(i as int));
            assert(upto.last() == buffer.records@[i as int]@);
            total_bytes_of_prefix(buffer@, i + 1);
        }
        match total.checked_add(buffer.records[i].payload.len()) {
            Some(more) => {
                total = more;
            },
            None => {
                return None;
            },
        }
        i = i + 1;
    }
    assert(buffer@.take(i as int) =~= buffer@);
    Some(total)
}

/// Adds up the payload bytes of the waiting events.
pub fn total_payload_bytes(buffer: &EventBuffer) -> (total: usize)
    requires
        total_bytes(buffer@) <= usize::MAX,
    ensures
        total == total_bytes(buffer@),
{
    checked_payload_bytes(buffer).unwrap_or(0)
}

/// A prefix of the records holds no more bytes than all of them.
proof fn total_bytes_of_prefix(records: Seq<crate::record::RecordModel>, n: int)
    requires
        0 <= n <= records.len(),
    ensures
        total_bytes(records.take(n)) <= total_bytes(records),
    decreases records.len(),
{
    if n == records.len() {
        assert(records.take(n) =~= records);
    } else {
        total_bytes_of_prefix(records.drop_last(), n);
        assert(records.drop_last().take(n) =~= records.take(n));
    }
}

/// Takes all waiting events out of the buffer, the first emitted first.
pub fn drain(buffer: &mut EventBuffer) -> (events: Vec<EventRecord>)
    ensures
        records_view(events@) == old(buffer)@,
        final(buffer)@ == Seq::<crate::record::RecordModel>::empty(),
{
    let mut events: Vec<EventRecord> = Vec::new();
    events.append(&mut buffer.records);
    assert(events@ =~= old(buffer).records@);
    assert(buffer@ =~= Seq::empty());
    events
}

/// Forgets all waiting events and starts counting from zero again.
pub fn reset(counter: &mut SequenceCounter, buffer: &mut EventBuffer)
    ensures
        final(buffer)@ == Seq::<crate::record::RecordModel>::empty(),
        final(counter)@ == 0,
{
    counter.next = 0;
    buffer.records.clear();
    assert(buffer@ =~= Seq::empty());
}

/// Whether the sequence numbers rise from record to record and stay below the
/// next number to be handed out.
pub open spec fn in_order(records: Seq<crate::record::RecordModel>, next: u32) -> bool {
    &&& forall|i: int, j: int|
        0 <= i < j < records.len() ==> records[i].sequence < records[j].sequence
    &&& forall|i: int| 0 <= i < records.len() ==> (#[trigger] records[i]).sequence < next
}

/// Emitting keeps the waiting events in order, until the counter starts over.
/// Numbers handed out for other buffers in the meantime do not disturb it.
pub proof fn emitting_keeps_order(
    records: Seq<crate::record::RecordModel>,
    seen: u32,
    next: u32,
    discriminant: u32,
    payload: Seq<u8>,
)
    requires
        in_order(records, seen),
        seen <= next < u32::MAX,
    ensures
        in_order(with_event(records, discriminant, next, payload), next_sequence(next)),
{
}

/// A drained buffer is in order whatever the counter stands at.
pub proof fn empty_is_in_order(next: u32)
    ensures
        in_order(Seq::empty(), next),
{
}

/// The `i`-th sequence number handed out, counted from the one that is next.
pub open spec fn sequence_after(next: u32, i: nat) -> u32 {
    ((next + i) % 0x1_0000_0000) as u32
}

/// The records after emitting several events one after the other, each given
/// by its discriminant and payload.
pub open spec fn with_events(
    records: Seq<crate::record::RecordModel>,
    next: u32,
    events: Seq<(u32, Seq<u8>)>,
) -> Seq<crate::record::RecordModel>
    decreases events.len(),
{
    if events.len() == 0 {
        records
    } else {
        with_events(
            with_event(records, events[0].0, next, events[0].1),
            next_sequence(next),
            events.drop_first(),
        )
    }
}

/// Events are collected in the order of their emission, behind those that were
/// waiting already, and with consecutive sequence numbers.
pub proof fn emission_order_is_kept(
    records: Seq<crate::record::RecordModel>,
    next: u32,
    events: Seq<(u32, Seq<u8>)>,
)
    ensures
        with_events(records, next, events) == records + Seq::new(
            events.len(),
            |i: int|
                crate::record::RecordModel {
                    discriminant: events[i].0,
                    sequence: sequence_after(next, i as nat),
                    payload: events[i].1,
                },
        ),
    decreases events.len(),
{
    let numbered = |n: u32, es: Seq<(u32, Seq<u8>)>| Seq::new(
        es.len(),
        |i: int|
            crate::record::RecordModel {
                discriminant: es[i].0,
                sequence: sequence_after(n, i as nat),
                payload: es[i].1,
            },
    );
    if events.len() == 0 {
        assert(records + numbered(next, events) =~= records);
    } else {
        let more = with_event(records, events[0].0, next, events[0].1);
        let rest = events.drop_first();
        emission_order_is_kept(more, next_sequence(next), rest);
        assert forall|i: nat| #[trigger] sequence_after(next_sequence(next), i) == sequence_after(
            next,
            i + 1,
        ) by {}
        assert(more + numbered(next_sequence(next), rest) =~= records + numbered(next, events));
    }
}

/// An event adds the size of its payload to the total, and nothing else.
pub proof fn emitting_adds_payload_size(
    records: Seq<crate::record::RecordModel>,
    discriminant: u32,
    sequence: u32,
    payload: Seq<u8>,
)
    ensures
        total_bytes(with_event(records, discriminant, sequence, payload)) == total_bytes(records)
            + payload.len(),
{
    assert(with_event(records, discriminant, sequence, payload).drop_last() =~= records);
}

/// Sequence numbers are handed out one after the other: each is one more than the
/// one before, and zero comes after the largest.
pub proof fn sequence_numbers_follow_one_another(n: u32)
    ensures
        n < u32::MAX ==> next_sequence(n) == n + 1,
        next_sequence(u32::MAX) == 0,
{
}

/// The payload bytes of two groups of events add up, and an empty buffer has
/// none.
pub proof fn payload_bytes_add_up(
    first: Seq<crate::record::RecordModel>,
    second: Seq<crate::record::RecordModel>,
)
    ensures
        total_bytes(first + second) == total_bytes(first) + total_bytes(second),
        total_bytes(Seq::empty()) == 0,
        first.len() == 1 ==> total_bytes(first) == first[0].payload.len(),
    decreases second.len(),
{
    if first.len() == 1 {
        assert(first.drop_last() =~= Seq::empty());
        reveal_with_fuel(total_bytes, 2);
    }
    if second.len() == 0 {
        assert(first + second =~= first);
    } else {
        payload_bytes_add_up(first, second.drop_last());
        assert((first + second).drop_last() =~= first + second.drop_last());
    }
}

} // verus!
