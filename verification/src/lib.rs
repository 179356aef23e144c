//! Structured events for LEZ programs, and the tools around them.
pub mod bench;
pub mod buffer;
pub mod codec;
pub mod decoder;
pub mod events;
pub mod record;
pub mod text;
pub mod token;
pub mod withdraw;

pub use crate::events::{
    drain_events, emit_event, encode_payload, EventError, MAX_EVENT_PAYLOAD_BYTES,
    MAX_TOTAL_EVENT_BYTES,
};
pub use crate::record::EventRecord;
