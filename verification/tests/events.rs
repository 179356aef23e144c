use lez_events::buffer::{self, EventBuffer, SequenceCounter};
use lez_events::codec::{
    DecodeError, DecodePayload, EncodePayload, EncodedBytes, MessageText, View,
};
use lez_events::withdraw::{
    withdraw, InsufficientFunds, WithdrawSuccess, INSUFFICIENT_FUNDS, WITHDRAW_SUCCESS,
};
use lez_events::{
    drain_events, emit_event, encode_payload, EventError, EventRecord, MAX_EVENT_PAYLOAD_BYTES,
    MAX_TOTAL_EVENT_BYTES,
};

#[derive(Debug, PartialEq)]
struct TestEvent {
    value: u64,
    label: String,
}

impl EncodePayload for TestEvent {
    fn encodable(&self) -> bool {
        unreachable!()
    }

    fn encoding(&self) -> EncodedBytes {
        unreachable!()
    }

    fn to_borsh(&self) -> Vec<u8> {
        let mut bytes = self.value.to_borsh();
        bytes.extend(self.label.to_borsh());
        bytes
    }
}

impl View for TestEvent {
    type V = TestEvent;

    fn view(&self) -> TestEvent {
        unreachable!()
    }
}

impl DecodePayload for TestEvent {
    fn refusal(_: EncodedBytes) -> MessageText {
        unreachable!()
    }

    fn from_borsh(bytes: &[u8]) -> Result<Self, DecodeError> {
        let value = u64::from_borsh(&bytes[..bytes.len().min(8)])?;
        let label = String::from_borsh(&bytes[8..])?;
        Ok(TestEvent { value, label })
    }

    fn encoding_injective(_: Self, _: Self) {
        unreachable!()
    }
}

fn fresh() -> (SequenceCounter, EventBuffer) {
    (SequenceCounter::new(), EventBuffer::new())
}

#[test]
fn encode_decode_roundtrip() {
    let event = TestEvent { value: 42, label: "hello".to_string() };
    let payload = encode_payload(&event);
    let record = EventRecord { discriminant: 1, sequence: 0, payload };
    let decoded: TestEvent = record.decode_payload().unwrap();
    assert_eq!(decoded, event);
}

#[test]
fn event_record_borsh_roundtrip() {
    let record = EventRecord { discriminant: 7, sequence: 3, payload: vec![1, 2, 3, 4] };
    let bytes = record.to_borsh();
    let decoded = EventRecord::from_borsh(&bytes).unwrap();
    assert_eq!(record, decoded);
}

#[test]
fn emit_and_drain() {
    let (mut counter, mut buf) = fresh();
    buffer::reset(&mut counter, &mut buf);
    let event = TestEvent { value: 99, label: "test".to_string() };
    emit_event(&mut counter, &mut buf, 5, &event).unwrap();
    emit_event(&mut counter, &mut buf, 5, &event).unwrap();
    let events = drain_events(&mut buf);
    assert_eq!(events.len(), 2);
    assert_eq!(events[0].sequence, 0);
    assert_eq!(events[1].sequence, 1);
    let decoded: TestEvent = events[0].decode_payload().unwrap();
    assert_eq!(decoded, event);
}

#[test]
fn drain_is_empty_after_drain() {
    let (mut counter, mut buf) = fresh();
    buffer::reset(&mut counter, &mut buf);
    emit_event(&mut counter, &mut buf, 1, &42u64).unwrap();
    drain_events(&mut buf);
    assert!(drain_events(&mut buf).is_empty());
}

#[test]
fn payload_within_limit_succeeds() {
    let (mut counter, mut buf) = fresh();
    buffer::reset(&mut counter, &mut buf);
    let payload = vec![0u8; MAX_EVENT_PAYLOAD_BYTES - 8];
    emit_event(&mut counter, &mut buf, 1, &payload).unwrap();
    let events = drain_events(&mut buf);
    assert_eq!(events.len(), 1);
}

#[test]
fn payload_exceeds_limit_returns_error() {
    let (mut counter, mut buf) = fresh();
    buffer::reset(&mut counter, &mut buf);
    let payload = vec![0u8; MAX_EVENT_PAYLOAD_BYTES + 100];
    let result = emit_event(&mut counter, &mut buf, 1, &payload);
    assert!(matches!(result, Err(EventError::PayloadTooLarge { .. })));
}

#[test]
fn total_payload_bytes_tracked() {
    let (mut counter, mut buf) = fresh();
    buffer::reset(&mut counter, &mut buf);
    emit_event(&mut counter, &mut buf, 1, &42u64).unwrap();
    emit_event(&mut counter, &mut buf, 2, &42u64).unwrap();
    assert!(buffer::total_payload_bytes(&buf) > 0);
    drain_events(&mut buf);
    assert_eq!(buffer::total_payload_bytes(&buf), 0);
}

#[test]
fn limits_are_four_and_sixty_four_kibibytes() {
    assert_eq!(MAX_EVENT_PAYLOAD_BYTES, 4096);
    assert_eq!(MAX_TOTAL_EVENT_BYTES, 65536);
}

#[test]
fn refused_payload_names_its_size_and_leaves_everything() {
    let (mut counter, mut buf) = fresh();
    emit_event(&mut counter, &mut buf, 1, &1u32).unwrap();
    let payload = vec![0u8; 4093];
    let refused = emit_event(&mut counter, &mut buf, 2, &payload);
    assert_eq!(refused, Err(EventError::PayloadTooLarge { size: 4097, max: 4096 }));
    assert_eq!(buffer::total_payload_bytes(&buf), 4);
    emit_event(&mut counter, &mut buf, 3, &1u32).unwrap();
    let events = drain_events(&mut buf);
    assert_eq!(events.len(), 2);
    assert_eq!(events[1].discriminant, 3);
    assert_eq!(events[1].sequence, 1);
}

#[test]
fn largest_payload_is_accepted() {
    let (mut counter, mut buf) = fresh();
    let payload = vec![0u8; 4092];
    assert_eq!(emit_event(&mut counter, &mut buf, 1, &payload), Ok(()));
    assert_eq!(buffer::total_payload_bytes(&buf), 4096);
}

#[test]
fn full_buffer_refuses_one_more_byte_until_drained() {
    let (mut counter, mut buf) = fresh();
    let payload = vec![0u8; 4092];
    for _ in 0..16 {
        emit_event(&mut counter, &mut buf, 1, &payload).unwrap();
    }
    assert_eq!(buffer::total_payload_bytes(&buf), 65536);
    let refused = emit_event(&mut counter, &mut buf, 1, &1u32);
    assert_eq!(refused, Err(EventError::TotalBufferTooLarge { size: 65540, max: 65536 }));
    assert_eq!(drain_events(&mut buf).len(), 16);
    emit_event(&mut counter, &mut buf, 1, &1u32).unwrap();
    assert_eq!(drain_events(&mut buf)[0].sequence, 16);
}

#[test]
fn unchecked_emission_ignores_the_limits() {
    let (mut counter, mut buf) = fresh();
    buffer::emit(&mut counter, &mut buf, 9, &vec![0u8; 5000]);
    buffer::emit_raw(&mut counter, &mut buf, 10, vec![7; 70000]);
    assert_eq!(buffer::total_payload_bytes(&buf), 75004);
    assert_eq!(buffer::checked_payload_bytes(&buf), Some(75004));
    let events = buffer::drain(&mut buf);
    assert_eq!(events[0].discriminant, 9);
    assert_eq!(events[0].payload.len(), 5004);
    assert_eq!(events[1].discriminant, 10);
    assert_eq!(events[1].payload, vec![7; 70000]);
}

#[test]
fn error_messages() {
    assert_eq!(
        EventError::PayloadTooLarge { size: 5000, max: 4096 }.message(),
        "event payload too large: 5000 bytes exceeds MAX_EVENT_PAYLOAD_BYTES (4096)"
    );
    assert_eq!(
        EventError::TotalBufferTooLarge { size: 70000, max: 65536 }.message(),
        "total event buffer too large: 70000 bytes exceeds MAX_TOTAL_EVENT_BYTES (65536)"
    );
}

#[test]
fn sequence_goes_on_across_buffers_and_restarts_on_reset() {
    let mut counter = SequenceCounter::new();
    let mut caller = EventBuffer::new();
    let mut callee = EventBuffer::new();
    buffer::emit_raw(&mut counter, &mut caller, 1, vec![]);
    buffer::emit_raw(&mut counter, &mut callee, 1, vec![]);
    buffer::emit_raw(&mut counter, &mut caller, 1, vec![]);
    let first = drain_events(&mut caller);
    let second = drain_events(&mut callee);
    assert_eq!(first[0].sequence, 0);
    assert_eq!(second[0].sequence, 1);
    assert_eq!(first[1].sequence, 2);
    buffer::emit_raw(&mut counter, &mut caller, 1, vec![]);
    buffer::reset(&mut counter, &mut caller);
    assert!(drain_events(&mut caller).is_empty());
    buffer::emit_raw(&mut counter, &mut caller, 1, vec![]);
    assert_eq!(drain_events(&mut caller)[0].sequence, 0);
}

#[test]
fn integers_are_little_endian() {
    assert_eq!(0x0102_0304u32.to_borsh(), vec![4, 3, 2, 1]);
    assert_eq!(0x0102_0304_0506_0708u64.to_borsh(), vec![8, 7, 6, 5, 4, 3, 2, 1]);
    let mut expected = vec![0u8; 16];
    expected[0] = 1;
    expected[15] = 0xff;
    assert_eq!((0xff00_0000_0000_0000_0000_0000_0000_0001u128).to_borsh(), expected);
}

#[test]
fn integers_are_read_back() {
    assert_eq!(u32::from_borsh(&[4, 3, 2, 1]), Ok(0x0102_0304));
    assert_eq!(u64::from_borsh(&u64::MAX.to_borsh()), Ok(u64::MAX));
    assert_eq!(u128::from_borsh(&12345u128.to_borsh()), Ok(12345));
}

#[test]
fn integers_of_the_wrong_length_are_refused() {
    assert!(u32::from_borsh(&[1, 2, 3]).is_err());
    assert!(u32::from_borsh(&[1, 2, 3, 4, 5]).is_err());
    assert!(u64::from_borsh(&[0; 7]).is_err());
    assert!(u64::from_borsh(&[0; 9]).is_err());
    assert!(u128::from_borsh(&[0; 15]).is_err());
    assert!(u128::from_borsh(&[0; 17]).is_err());
}

#[test]
fn single_bytes_and_addresses_are_written_as_they_are() {
    assert_eq!(7u8.to_borsh(), vec![7]);
    assert_eq!(u8::from_borsh(&[200]), Ok(200));
    assert!(u8::from_borsh(&[]).is_err());
    assert!(u8::from_borsh(&[1, 2]).is_err());
    let mut address = [0u8; 32];
    address[0] = 1;
    address[31] = 9;
    assert_eq!(address.to_borsh(), address.to_vec());
    assert_eq!(<[u8; 32]>::from_borsh(&address), Ok(address));
    assert!(<[u8; 32]>::from_borsh(&[0; 31]).is_err());
    assert!(<[u8; 32]>::from_borsh(&[0; 33]).is_err());
}

#[test]
fn decoding_errors_say_what_is_wrong() {
    let short = u32::from_borsh(&[1, 2, 3]).unwrap_err();
    assert_eq!(short.message, "Unexpected length of input");
    let long = u32::from_borsh(&[1, 2, 3, 4, 5]).unwrap_err();
    assert_eq!(long.message, "Not all bytes read");
    let record = EventRecord { discriminant: 1, sequence: 0, payload: vec![1, 2] };
    let refused: Result<u64, DecodeError> = record.decode_payload();
    assert_eq!(refused.unwrap_err().message, "Unexpected length of input");
    for len in [0, 5, 9, 13] {
        let e = EventRecord::from_borsh(&record.to_borsh()[..len]).unwrap_err();
        assert_eq!(e.message, "Unexpected length of input");
    }
    let mut longer = record.to_borsh();
    longer.push(0);
    assert_eq!(EventRecord::from_borsh(&longer).unwrap_err().message, "Not all bytes read");
    for len in [0, 15, 16, 31] {
        let e = WithdrawSuccess::from_borsh(&[0; 33][..len]).unwrap_err();
        assert_eq!(e.message, "Unexpected length of input");
    }
    assert_eq!(WithdrawSuccess::from_borsh(&[0; 33]).unwrap_err().message, "Not all bytes read");
    let text = String::from_borsh(&[1, 0, 0, 0, 0xff]).unwrap_err();
    let expected = borsh::from_slice::<String>(&[1, 0, 0, 0, 0xff]).unwrap_err();
    assert_eq!(text.message, expected.to_string());
}

#[test]
fn data_comes_back_whatever_the_record_says() {
    let event = TestEvent { value: u64::MAX, label: "→".to_string() };
    for (discriminant, sequence) in [(0, 0), (7, 3), (u32::MAX, u32::MAX)] {
        let record = EventRecord { discriminant, sequence, payload: encode_payload(&event) };
        assert_eq!(record.decode_payload::<TestEvent>(), Ok(TestEvent { value: u64::MAX, label: "→".to_string() }));
    }
    let other = TestEvent { value: 1, label: "→".to_string() };
    assert_ne!(encode_payload(&event), encode_payload(&other));
}

#[test]
fn byte_vectors_carry_their_length() {
    let bytes: Vec<u8> = vec![9, 8, 7];
    assert_eq!(bytes.to_borsh(), vec![3, 0, 0, 0, 9, 8, 7]);
    assert_eq!(<Vec<u8>>::from_borsh(&[3, 0, 0, 0, 9, 8, 7]), Ok(bytes));
    assert_eq!(<Vec<u8>>::from_borsh(&[0, 0, 0, 0]), Ok(vec![]));
    assert!(<Vec<u8>>::from_borsh(&[4, 0, 0, 0, 9, 8, 7]).is_err());
    assert!(<Vec<u8>>::from_borsh(&[2, 0, 0, 0, 9, 8, 7]).is_err());
    assert!(<Vec<u8>>::from_borsh(&[0, 0, 0]).is_err());
}

#[test]
fn strings_are_utf8_with_their_length() {
    let text = "héy".to_string();
    assert_eq!(text.to_borsh(), vec![4, 0, 0, 0, 0x68, 0xc3, 0xa9, 0x79]);
    assert_eq!(String::from_borsh(&text.to_borsh()), Ok(text));
    assert!(String::from_borsh(&[1, 0, 0, 0, 0xff]).is_err());
    assert!(String::from_borsh(&[2, 0, 0, 0, 0x68]).is_err());
}

#[test]
fn record_wire_format_is_that_of_borsh() {
    let record = EventRecord { discriminant: 7, sequence: 3, payload: vec![1, 2, 3, 4] };
    let fields = (7u32, 3u32, vec![1u8, 2, 3, 4]);
    assert_eq!(record.to_borsh(), borsh::to_vec(&fields).unwrap());
    assert_eq!(
        record.to_borsh(),
        vec![7, 0, 0, 0, 3, 0, 0, 0, 4, 0, 0, 0, 1, 2, 3, 4]
    );
}

#[test]
fn malformed_records_are_refused() {
    let whole = EventRecord { discriminant: 7, sequence: 3, payload: vec![1] }.to_borsh();
    for len in 0..whole.len() {
        assert!(EventRecord::from_borsh(&whole[..len]).is_err());
    }
    let mut longer = whole;
    longer.push(0);
    assert!(EventRecord::from_borsh(&longer).is_err());
}

#[test]
fn payload_of_another_type_is_refused() {
    let record = EventRecord { discriminant: 1, sequence: 0, payload: 5u32.to_borsh() };
    assert!(record.decode_payload::<u64>().is_err());
    assert_eq!(record.decode_payload::<u32>(), Ok(5));
}

#[test]
fn withdrawal_within_the_balance_succeeds() {
    let (mut counter, mut buf) = fresh();
    assert_eq!(withdraw(&mut counter, &mut buf, 1000, 300), Ok(700));
    let events = drain_events(&mut buf);
    assert_eq!(events.len(), 1);
    assert_eq!(events[0].discriminant, WITHDRAW_SUCCESS);
    assert_eq!(events[0].discriminant, 2);
    assert_eq!(events[0].sequence, 0);
    let event: WithdrawSuccess = events[0].decode_payload().unwrap();
    assert_eq!(event, WithdrawSuccess { amount: 300, remaining: 700 });
}

#[test]
fn withdrawal_beyond_the_balance_fails() {
    let (mut counter, mut buf) = fresh();
    let failure = withdraw(&mut counter, &mut buf, 100, 500).unwrap_err();
    assert_eq!(failure, InsufficientFunds { requested: 500, available: 100 });
    assert_eq!(failure.message(), "Insufficient funds: requested 500, available 100");
    let events = drain_events(&mut buf);
    assert_eq!(events.len(), 1);
    assert_eq!(events[0].discriminant, INSUFFICIENT_FUNDS);
    assert_eq!(events[0].discriminant, 1);
    assert_eq!(events[0].sequence, 0);
    assert_eq!(events[0].payload.len(), 32);
    let event: InsufficientFunds = events[0].decode_payload().unwrap();
    assert_eq!(event, failure);
    let mut short = events[0].payload.clone();
    short.pop();
    assert!(InsufficientFunds::from_borsh(&short).is_err());
}

#[test]
fn withdrawing_everything_leaves_nothing() {
    let (mut counter, mut buf) = fresh();
    assert_eq!(withdraw(&mut counter, &mut buf, 42, 42), Ok(0));
    assert_eq!(withdraw(&mut counter, &mut buf, 0, 0), Ok(0));
}

#[test]
fn withdrawal_without_room_for_its_event_takes_place() {
    let (mut counter, mut buf) = fresh();
    buffer::emit_raw(&mut counter, &mut buf, 9, vec![0; 65536]);
    assert_eq!(withdraw(&mut counter, &mut buf, 10, 3), Ok(7));
    assert_eq!(drain_events(&mut buf).len(), 1);
}

#[test]
fn event_record_encoding_is_deterministic() {
    let (mut counter, mut buf) = fresh();
    emit_event(&mut counter, &mut buf, 42, &100u64).unwrap();
    emit_event(&mut counter, &mut buf, 42, &100u64).unwrap();
    let events = drain_events(&mut buf);
    assert_eq!(events.len(), 2);
    assert_eq!(events[0].sequence, 0);
    assert_eq!(events[1].sequence, 1);
    assert_eq!(events[0].payload, events[1].payload);
    let decoded: u64 = events[0].decode_payload().unwrap();
    assert_eq!(decoded, 100);
}
