//! Transaction receipts in human-readable form.
use crate::text::{hex_encode, push_decimal};
use vstd::prelude::*;
use vstd::string::StringExecFns;

verus! {

/// `serde_json::Value`, carried along and never looked into.
#[verifier::external_type_specification]
#[verifier::external_body]
pub struct ExJsonValue(serde_json::Value);

/// The receipt of a transaction.
#[derive(Debug)]
pub struct TxReceiptJson {
    pub tx_hash: serde_json::Value,
    pub status: String,
    pub events: Vec<EventJson>,
    pub error: Option<String>,
    pub block_id: Option<u64>,
}

/// An event with the program that emitted it.
#[derive(Debug)]
pub struct EventJson {
    pub program_id: serde_json::Value,
    pub discriminant: u32,
    pub sequence: u32,
    pub payload: Vec<u8>,
}

/// What `str::to_uppercase` makes of a text.
pub uninterp spec fn uppercase(text: Seq<char>) -> Seq<char>;

/// The upper-case form of an ASCII character.
pub open spec fn ascii_uppercase(c: char) -> char {
    if 'a' <= c <= 'z' {
        (c as nat - 32) as char
    } else {
        c
    }
}

/// Calls `str::to_uppercase`, which maps every character as Unicode says. The
/// result depends on the text alone. In a text of ASCII characters it turns
/// the letters `a` to `z` into `A` to `Z` and changes nothing else.
#[verifier::external_body]
fn to_uppercase(text: &str) -> (upper: String)
    ensures
        upper@ == uppercase(text@),
        vstd::utf8::is_ascii_chars(text@) ==> upper@ == text@.map_values(
            |c: char| ascii_uppercase(c),
        ),
{
    text.to_uppercase()
}

/// Calls `std::str::from_utf8`, which reads bytes as text exactly if they are
/// valid UTF-8.
#[verifier::external_body]
fn utf8_text(bytes: &[u8]) -> (text: Option<&str>)
    ensures
        match text {
            Some(t) => vstd::utf8::valid_utf8(bytes@) && t@ == vstd::utf8::decode_utf8(bytes@),
            None => !vstd::utf8::valid_utf8(bytes@),
        },
{
    std::str::from_utf8(bytes).ok()
}

/// Whether a payload is shown as text: it is valid UTF-8.
pub open spec fn shown_as_text(payload: Seq<u8>) -> bool {
    vstd::utf8::valid_utf8(payload)
}

/// The line that shows a payload.
pub open spec fn payload_line(payload: Seq<u8>) -> Seq<char> {
    if shown_as_text(payload) {
        "       payload_utf8 : "@ + vstd::utf8::decode_utf8(payload) + "\n"@
    } else {
        "       payload_hex  : "@ + crate::text::hex(payload) + "\n"@
    }
}

/// Every text that is emitted as the UTF-8 bytes of a payload is shown as that
/// text.
pub proof fn texts_are_shown_as_text(text: Seq<char>)
    ensures
        payload_line(vstd::utf8::encode_utf8(text)) == "       payload_utf8 : "@ + text + "\n"@,
{
    vstd::utf8::encode_utf8_valid_utf8(text);
    vstd::utf8::encode_utf8_decode_utf8(text);
}

/// The two lines that show an event.
pub open spec fn event_lines(event: EventJson) -> Seq<char> {
    "  ["@ + crate::text::decimal(event.sequence as nat) + "] discriminant="@
        + crate::text::decimal(event.discriminant as nat) + " payload_bytes="@
        + crate::text::decimal(event.payload@.len()) + "\n"@ + payload_line(event.payload@)
}

/// The lines of several events.
pub open spec fn all_event_lines(events: Seq<EventJson>) -> Seq<char>
    decreases events.len(),
{
    if events.len() == 0 {
        Seq::empty()
    } else {
        all_event_lines(events.drop_last()) + event_lines(events.last())
    }
}

/// The events of a receipt are shown one after the other, in order: the lines
/// of two lists of events are those of the first and behind them those of the
/// second.
pub proof fn events_are_shown_in_order(first: Seq<EventJson>, second: Seq<EventJson>)
    ensures
        all_event_lines(first + second) == all_event_lines(first) + all_event_lines(second),
    decreases second.len(),
{
    if second.len() == 0 {
        assert(first + second =~= first);
        assert(all_event_lines(first) + all_event_lines(second) =~= all_event_lines(first));
    } else {
        let all = first + second;
        assert(all.drop_last() =~= first + second.drop_last());
        assert(all.last() == second.last());
        events_are_shown_in_order(first, second.drop_last());
        assert(all_event_lines(all) =~= all_event_lines(first) + all_event_lines(second));
    }
}

/// What is said of the events of a transaction.
pub open spec fn events_section(events: Seq<EventJson>) -> Seq<char> {
    if events.len() == 0 {
        "  No events emitted.\n"@
    } else {
        "  Events ("@ + crate::text::decimal(events.len()) + " total):\n"@
            + "  ─────────────────────────────────────\n"@ + all_event_lines(events)
    }
}

/// The line that gives the reason of a rejection, if there is one.
pub open spec fn error_line(error: Option<String>) -> Seq<char> {
    match error {
        Some(text) => "  Error  : "@ + text@ + "\n"@,
        None => Seq::empty(),
    }
}

/// The line that gives the block of a transaction, if it is in one.
pub open spec fn block_line(block_id: Option<u64>) -> Seq<char> {
    match block_id {
        Some(id) => "  Block  : "@ + crate::text::decimal(id as nat) + "\n"@,
        None => Seq::empty(),
    }
}

/// A whole receipt in human-readable form. The status comes in upper case.
pub open spec fn receipt_text(receipt: TxReceiptJson, status: Seq<char>) -> Seq<char> {
    "Transaction Receipt\n"@ + "═══════════════════════════════════════\n"@ + "  Status : "@
        + status + "\n"@ + error_line(receipt.error) + block_line(receipt.block_id) + "\n"@
        + events_section(receipt.events@) + "═══════════════════════════════════════\n"@
}

/// Appends the line that shows a payload.
fn push_payload_line(out: &mut String, payload: &Vec<u8>)
    ensures
        final(out)@ == old(out)@ + payload_line(payload@),
{
    match utf8_text(payload.as_slice()) {
        Some(text) => {
            out.append("       payload_utf8 : ");
            out.append(text);
            out.append("\n");
        },
        None => {
            out.append("       payload_hex  : ");
            let digits = hex_encode(payload.as_slice());
            out.append(digits.as_str());
            out.append("\n");
        },
    }
    assert(out@ =~= old(out)@ + payload_line(payload@));
}

/// Appends the lines that show an event.
fn push_event(out: &mut String, event: &EventJson)
    ensures
        final(out)@ == old(out)@ + event_lines(*event),
{
    out.append("  [");
    push_decimal(out, event.sequence as u128);
    out.append("] discriminant=");
    push_decimal(out, event.discriminant as u128);
    out.append(" payload_bytes=");
    push_decimal(out, event.payload.len() as u128);
    out.append("\n");
    push_payload_line(out, &event.payload);
    assert(out@ =~= old(out)@ + event_lines(*event));
}

/// Appends what is said of the events of a transaction.
fn push_events_section(out: &mut String, events: &Vec<EventJson>)
    ensures
        final(out)@ == old(out)@ + events_section(events@),
{
    if events.len() == 0 {
        out.append("  No events emitted.\n");
    } else {
        out.append("  Events (");
        push_decimal(out, events.len() as u128);
        out.append(" total):\n");
        out.append("  ─────────────────────────────────────\n");
        let ghost before = out@;
        let mut i: usize = 0;
        assert(events@.take(0) =~= Seq::empty());
        assert(out@ =~= before + all_event_lines(events@.take(0)));
        while i < events.len()
            invariant
                i <= events@.len(),
                out@ == before + all_event_lines(events@.take(i as int)),
            decreases events@.len() - i,
        {
            push_event(out, &events[i]);
            proof {
                let upto = events@.take(i + 1);
                assert(upto.drop_last() =~= events@.take(i as int));
                assert(upto.last() == events@[i as int]);
                assert(out@ =~= before + all_event_lines(upto));
            }
            i = i + 1;
        }
        assert(events@.take(i as int) =~= events@);
    }
    assert(out@ =~= old(out)@ + events_section(events@));
}

/// Shows a receipt whose status has been put in upper case.
pub fn render_with_status(receipt: &TxReceiptJson, status: &str) -> (text: String)
    ensures
        text@ == receipt_text(*receipt, status@),
{
    let mut out = "Transaction Receipt\n".to_owned();
    out.append("═══════════════════════════════════════\n");
    out.append("  Status : ");
    out.append(status);
    out.append("\n");
    if let Some(error) = &receipt.error {
        out.append("  Error  : ");
        out.append(error.as_str());
        out.append("\n");
    }
    if let Some(block_id) = &receipt.block_id {
        out.append("  Block  : ");
        push_decimal(&mut out, *block_id as u128);
        out.append("\n");
    }
    out.append("\n");
    push_events_section(&mut out, &receipt.events);
    out.append("═══════════════════════════════════════\n");
    assert(out@ =~= receipt_text(*receipt, status@));
    out
}

/// Shows a receipt in human-readable form.
pub fn render_receipt(receipt: &TxReceiptJson) -> (text: String)
    ensures
        text@ == receipt_text(*receipt, uppercase(receipt.status@)),
        vstd::utf8::is_ascii_chars(receipt.status@) ==> text@ == receipt_text(
            *receipt,
            receipt.status@.map_values(|c: char| ascii_uppercase(c)),
        ),
{
    let status = to_uppercase(receipt.status.as_str());
    render_with_status(receipt, status.as_str())
}

/// Where a receipt is read from.
#[derive(Debug, Clone, PartialEq, Eq)]
pub enum ReceiptSource {
    /// The standard input.
    Stdin,
    /// A file.
    File { path: String },
    /// Nowhere: nothing was asked for and nothing is piped in.
    Missing,
}

/// Decides where a receipt is read from: the standard input if it is asked for,
/// else the file that is named, else the standard input if something is piped
/// into it.
pub fn receipt_source(stdin: bool, receipt: Option<String>, stdin_is_terminal: bool) -> (source:
    ReceiptSource)
    ensures
        source == match (stdin, receipt, stdin_is_terminal) {
            (true, _, _) => ReceiptSource::Stdin,
            (false, Some(path), _) => ReceiptSource::File { path },
            (false, None, false) => ReceiptSource::Stdin,
            (false, None, true) => ReceiptSource::Missing,
        },
{
    if stdin {
        return ReceiptSource::Stdin;
    }
    match receipt {
        Some(path) => ReceiptSource::File { path },
        None => if stdin_is_terminal {
            ReceiptSource::Missing
        } else {
            ReceiptSource::Stdin
        },
    }
}

/// What stands in a receipt before the line of its block.
pub open spec fn before_block(error: Option<String>, status: Seq<char>) -> Seq<char> {
    "Transaction Receipt\n"@ + "═══════════════════════════════════════\n"@ + "  Status : "@
        + status + "\n"@ + match error {
        Some(text) => "  Error  : "@ + text@ + "\n"@,
        None => Seq::empty(),
    }
}

/// What stands in a receipt behind the line of its block.
pub open spec fn behind_block(events: Seq<EventJson>) -> Seq<char> {
    "\n"@ + (if events.len() == 0 {
        "  No events emitted.\n"@
    } else {
        "  Events ("@ + crate::text::decimal(events.len()) + " total):\n"@
            + "  ─────────────────────────────────────\n"@ + events.map_values(
            |e: EventJson| both_lines(e),
        ).flatten()
    }) + "═══════════════════════════════════════\n"@
}

/// The two lines of an event: its numbers and the size of its payload, and the
/// payload itself, as text if it is valid UTF-8 and in hexadecimal if it is not.
pub open spec fn both_lines(event: EventJson) -> Seq<char> {
    "  ["@ + crate::text::decimal(event.sequence as nat) + "] discriminant="@
        + crate::text::decimal(event.discriminant as nat) + " payload_bytes="@
        + crate::text::decimal(event.payload@.len()) + "\n"@ + (if vstd::utf8::valid_utf8(
        event.payload@,
    ) {
        "       payload_utf8 : "@ + vstd::utf8::decode_utf8(event.payload@) + "\n"@
    } else {
        "       payload_hex  : "@ + crate::text::hex(event.payload@) + "\n"@
    })
}

/// The lines of all events are those of each event, one after the other.
proof fn lines_of_all_events(events: Seq<EventJson>)
    ensures
        all_event_lines(events) == events.map_values(|e: EventJson| both_lines(e)).flatten(),
    decreases events.len(),
{
    let lines = events.map_values(|e: EventJson| both_lines(e));
    lines.lemma_flatten_and_flatten_alt_are_equivalent();
    if events.len() > 0 {
        lines_of_all_events(events.drop_last());
        let fewer = events.drop_last().map_values(|e: EventJson| both_lines(e));
        fewer.lemma_flatten_and_flatten_alt_are_equivalent();
        assert(lines.drop_last() =~= fewer);
    }
}

/// A receipt with a block shows it, whatever its error and its events are: the
/// line with the number of the block stands behind the status and the error and
/// before the events. A receipt without a block has no such line, and is the
/// same but for that.
pub proof fn block_is_shown(receipt: TxReceiptJson, status: Seq<char>)
    ensures
        receipt.block_id matches Some(id) ==> receipt_text(receipt, status) == before_block(
            receipt.error,
            status,
        ) + ("  Block  : "@ + crate::text::decimal(id as nat) + "\n"@) + behind_block(
            receipt.events@,
        ),
        receipt.block_id is None ==> receipt_text(receipt, status) == before_block(
            receipt.error,
            status,
        ) + behind_block(receipt.events@),
{
    lines_of_all_events(receipt.events@);
    let text = receipt_text(receipt, status);
    match receipt.block_id {
        Some(id) => {
            assert(text =~= before_block(receipt.error, status) + ("  Block  : "@
                + crate::text::decimal(id as nat) + "\n"@) + behind_block(receipt.events@));
        },
        None => {
            assert(text =~= before_block(receipt.error, status) + behind_block(receipt.events@));
        },
    }
}

/// Two receipts that differ in their block, and in nothing else that is shown,
/// are shown differently.
pub proof fn blocks_are_told_apart(a: TxReceiptJson, b: TxReceiptJson, status: Seq<char>)
    requires
        a.error == b.error,
        a.events == b.events,
        receipt_text(a, status) == receipt_text(b, status),
    ensures
        a.block_id == b.block_id,
{
    block_is_shown(a, status);
    block_is_shown(b, status);
    reveal_strlit("  Block  : ");
    reveal_strlit("\n");
    let head = before_block(a.error, status);
    let tail = behind_block(a.events@);
    let text = receipt_text(a, status);
    let cut = text.skip(head.len() as int);
    match (a.block_id, b.block_id) {
        (Some(x), Some(y)) => {
            let first = "  Block  : "@;
            assert(cut =~= first + crate::text::decimal(x as nat) + "\n"@ + tail);
            assert(cut =~= first + crate::text::decimal(y as nat) + "\n"@ + tail);
            assert(cut.skip(first.len() as int) =~= crate::text::decimal(x as nat) + ("\n"@
                + tail));
            assert(cut.skip(first.len() as int) =~= crate::text::decimal(y as nat) + ("\n"@
                + tail));
            crate::text::numbers_are_told_apart(
                x as nat,
                y as nat,
                "\n"@ + tail,
                "\n"@ + tail,
            );
        },
        (Some(x), None) => {
            assert(text.len() == head.len() + tail.len());
        },
        (None, Some(y)) => {
            assert(text.len() == head.len() + tail.len());
        },
        (None, None) => {},
    }
}

/// The block stands between the status and the events: the places of the line of
/// the status, of the line of the block and of the lines of an event are
/// returned.
pub proof fn block_stands_between_status_and_events(
    receipt: TxReceiptJson,
    status: Seq<char>,
    id: u64,
    i: int,
) -> (places: (int, int, int))
    requires
        receipt.block_id == Some(id),
        0 <= i < receipt.events@.len(),
    ensures
        ({
            let text = receipt_text(receipt, status);
            let status_line = "  Status : "@ + status + "\n"@;
            let block = "  Block  : "@ + crate::text::decimal(id as nat) + "\n"@;
            let event = both_lines(receipt.events@[i]);
            &&& 0 <= places.0
            &&& places.0 + status_line.len() <= places.1
            &&& places.1 + block.len() <= places.2
            &&& places.2 + event.len() <= text.len()
            &&& text.subrange(places.0, places.0 + status_line.len()) == status_line
            &&& text.subrange(places.1, places.1 + block.len()) == block
            &&& text.subrange(places.2, places.2 + event.len()) == event
        }),
{
    block_is_shown(receipt, status);
    let text = receipt_text(receipt, status);
    let head = before_block(receipt.error, status);
    let block = "  Block  : "@ + crate::text::decimal(id as nat) + "\n"@;
    let tail = behind_block(receipt.events@);
    let at = head.len() as int;
    assert(text.subrange(at, at + block.len()) =~= block);
    let front = "Transaction Receipt\n"@ + "═══════════════════════════════════════\n"@;
    let status_line = "  Status : "@ + status + "\n"@;
    let p = front.len() as int;
    assert(head.subrange(p, p + status_line.len()) =~= status_line);
    assert(text.subrange(p, p + status_line.len()) =~= head.subrange(p, p + status_line.len()));
    let q = place_of_event(receipt.events@, i);
    let event = both_lines(receipt.events@[i]);
    let start = at + block.len();
    assert(text.subrange(start + q, start + q + event.len()) =~= tail.subrange(
        q,
        q + event.len(),
    ));
    (p, at, start + q)
}

/// The place at which the lines of an event begin, behind the line of the block.
proof fn place_of_event(events: Seq<EventJson>, i: int) -> (place: int)
    requires
        0 <= i < events.len(),
    ensures
        0 <= place,
        place + both_lines(events[i]).len() <= behind_block(events).len(),
        behind_block(events).subrange(place, place + both_lines(events[i]).len()) == both_lines(
            events[i],
        ),
        place == "\n"@.len() + ("  Events ("@ + crate::text::decimal(events.len())
            + " total):\n"@ + "  ─────────────────────────────────────\n"@).len()
            + all_event_lines(events.take(i)).len(),
{
    let header = "  Events ("@ + crate::text::decimal(events.len()) + " total):\n"@
        + "  ─────────────────────────────────────\n"@;
    let all = all_event_lines(events);
    lines_of_all_events(events);
    let before = all_event_lines(events.take(i));
    let lines = both_lines(events[i]);
    let after = all_event_lines(events.skip(i + 1));
    let upto = events.take(i + 1);
    assert(upto.drop_last() =~= events.take(i));
    assert(upto.last() == events[i]);
    assert(all_event_lines(upto) == before + lines);
    events_are_shown_in_order(upto, events.skip(i + 1));
    assert(upto + events.skip(i + 1) =~= events);
    assert(all == before + lines + after);
    let text = behind_block(events);
    let place = ("\n"@.len() + header.len() + before.len()) as int;
    assert(text =~= "\n"@ + (header + all) + "═══════════════════════════════════════\n"@);
    assert(text.subrange(place, place + lines.len()) =~= lines);
    place
}

/// Events are shown in their order: the lines of a later event begin behind those
/// of an earlier one. The places of both are returned.
pub proof fn later_events_stand_behind_earlier_ones(
    receipt: TxReceiptJson,
    status: Seq<char>,
    i: int,
    j: int,
) -> (places: (int, int))
    requires
        0 <= i < j < receipt.events@.len(),
    ensures
        ({
            let text = receipt_text(receipt, status);
            let first = both_lines(receipt.events@[i]);
            let second = both_lines(receipt.events@[j]);
            &&& 0 <= places.0
            &&& places.0 + first.len() <= places.1
            &&& places.1 + second.len() <= text.len()
            &&& text.subrange(places.0, places.0 + first.len()) == first
            &&& text.subrange(places.1, places.1 + second.len()) == second
        }),
{
    block_is_shown(receipt, status);
    let events = receipt.events@;
    let text = receipt_text(receipt, status);
    let tail = behind_block(events);
    let start = text.len() - tail.len();
    assert(text.skip(start) =~= tail);
    let a = place_of_event(events, i);
    let b = place_of_event(events, j);
    let first = both_lines(events[i]);
    let second = both_lines(events[j]);
    let upto = events.take(j);
    events_are_shown_in_order(events.take(i + 1), upto.skip(i + 1));
    assert(events.take(i + 1) + upto.skip(i + 1) =~= upto);
    assert(events.take(i + 1).drop_last() =~= events.take(i));
    assert(events.take(i + 1).last() == events[i]);
    assert(text.subrange(start + a, start + a + first.len()) =~= tail.subrange(
        a,
        a + first.len(),
    ));
    assert(text.subrange(start + b, start + b + second.len()) =~= tail.subrange(
        b,
        b + second.len(),
    ));
    (start + a, start + b)
}

/// A rejected receipt is the accepted one with one line more: the error, directly
/// behind the status.
pub proof fn error_adds_its_line(
    with: TxReceiptJson,
    without: TxReceiptJson,
    status: Seq<char>,
    error: String,
)
    requires
        with.error == Some(error),
        without.error is None,
        with.block_id == without.block_id,
        with.events == without.events,
    ensures
        ({
            let front = "Transaction Receipt\n"@ + "═══════════════════════════════════════\n"@
                + ("  Status : "@ + status + "\n"@);
            let n = front.len() as int;
            let text = receipt_text(without, status);
            &&& n <= text.len()
            &&& text.take(n) == front
            &&& receipt_text(with, status) == front + ("  Error  : "@ + error@ + "\n"@)
                + text.skip(n)
        }),
{
    let front = "Transaction Receipt\n"@ + "═══════════════════════════════════════\n"@ + (
    "  Status : "@ + status + "\n"@);
    let n = front.len() as int;
    let text = receipt_text(without, status);
    let rest = block_line(with.block_id) + "\n"@ + events_section(with.events@)
        + "═══════════════════════════════════════\n"@;
    assert(text =~= front + rest);
    assert(text.take(n) =~= front);
    assert(text.skip(n) =~= rest);
    assert(receipt_text(with, status) =~= front + ("  Error  : "@ + error@ + "\n"@) + rest);
}

/// What stands in the same frame of text is the same if the whole is.
proof fn same_frame_cancels(before: Seq<char>, x: Seq<char>, y: Seq<char>, after: Seq<char>)
    requires
        before + x + after == before + y + after,
    ensures
        x == y,
{
    let whole = before + x + after;
    let from = before.len() as int;
    let to = whole.len() - after.len();
    assert((before + x + after).len() == (before + y + after).len());
    assert(whole.subrange(from, to) =~= x);
    assert((before + y + after).subrange(from, to) =~= y);
}

/// A payload shown as text never looks like one shown in hexadecimal.
proof fn both_forms_differ(x: Seq<char>, y: Seq<char>)
    ensures
        "       payload_utf8 : "@ + x + "\n"@ != "       payload_hex  : "@ + y + "\n"@,
{
    reveal_strlit("       payload_utf8 : ");
    reveal_strlit("       payload_hex  : ");
    let p = "       payload_utf8 : "@ + x + "\n"@;
    let q = "       payload_hex  : "@ + y + "\n"@;
    assert(p[15] == 'u');
    assert(q[15] == 'h');
}

/// Different payloads have different lines.
pub proof fn payloads_are_told_apart(a: Seq<u8>, b: Seq<u8>)
    requires
        payload_line(a) == payload_line(b),
    ensures
        a == b,
{
    let text_a = vstd::utf8::decode_utf8(a);
    let text_b = vstd::utf8::decode_utf8(b);
    both_forms_differ(text_a, crate::text::hex(b));
    both_forms_differ(text_b, crate::text::hex(a));
    if vstd::utf8::valid_utf8(a) {
        same_frame_cancels("       payload_utf8 : "@, text_a, text_b, "\n"@);
        vstd::utf8::decode_utf8_encode_utf8(a);
        vstd::utf8::decode_utf8_encode_utf8(b);
    } else {
        same_frame_cancels(
            "       payload_hex  : "@,
            crate::text::hex(a),
            crate::text::hex(b),
            "\n"@,
        );
        crate::text::hex_injective(a, b);
    }
}

/// The lines of an event, from their beginning on.
proof fn event_lines_unfold(event: EventJson)
    ensures
        event_lines(event) == "  ["@ + (crate::text::decimal(event.sequence as nat) + (
        "] discriminant="@ + (crate::text::decimal(event.discriminant as nat) + (
        " payload_bytes="@ + (crate::text::decimal(event.payload@.len()) + ("\n"@ + payload_line(
            event.payload@,
        ))))))),
{
    assert(event_lines(event) =~= "  ["@ + (crate::text::decimal(event.sequence as nat) + (
    "] discriminant="@ + (crate::text::decimal(event.discriminant as nat) + (" payload_bytes="@ + (
    crate::text::decimal(event.payload@.len()) + ("\n"@ + payload_line(event.payload@))))))));
}

/// Two events with different numbers or different payloads have different lines.
pub proof fn events_are_told_apart(a: EventJson, b: EventJson)
    requires
        event_lines(a) == event_lines(b),
    ensures
        a.sequence == b.sequence,
        a.discriminant == b.discriminant,
        a.payload@ == b.payload@,
{
    event_lines_unfold(a);
    event_lines_unfold(b);
    let end_a = "\n"@ + payload_line(a.payload@);
    let end_b = "\n"@ + payload_line(b.payload@);
    let size_a = crate::text::decimal(a.payload@.len()) + end_a;
    let size_b = crate::text::decimal(b.payload@.len()) + end_b;
    let kind_a = crate::text::decimal(a.discriminant as nat) + (" payload_bytes="@ + size_a);
    let kind_b = crate::text::decimal(b.discriminant as nat) + (" payload_bytes="@ + size_b);
    let number_a = crate::text::decimal(a.sequence as nat) + ("] discriminant="@ + kind_a);
    let number_b = crate::text::decimal(b.sequence as nat) + ("] discriminant="@ + kind_b);
    crate::text::same_beginning_cancels("  ["@, number_a, number_b);
    assert(crate::text::begins_without_digit("] discriminant="@ + kind_a)
        && crate::text::begins_without_digit("] discriminant="@ + kind_b)) by {
        reveal_strlit("] discriminant=");
    }
    crate::text::numbers_are_told_apart(
        a.sequence as nat,
        b.sequence as nat,
        "] discriminant="@ + kind_a,
        "] discriminant="@ + kind_b,
    );
    crate::text::same_beginning_cancels("] discriminant="@, kind_a, kind_b);
    assert(crate::text::begins_without_digit(" payload_bytes="@ + size_a)
        && crate::text::begins_without_digit(" payload_bytes="@ + size_b)) by {
        reveal_strlit(" payload_bytes=");
    }
    crate::text::numbers_are_told_apart(
        a.discriminant as nat,
        b.discriminant as nat,
        " payload_bytes="@ + size_a,
        " payload_bytes="@ + size_b,
    );
    crate::text::same_beginning_cancels(" payload_bytes="@, size_a, size_b);
    assert(crate::text::begins_without_digit(end_a) && crate::text::begins_without_digit(end_b))
        by {
        reveal_strlit("\n");
    }
    crate::text::numbers_are_told_apart(a.payload@.len(), b.payload@.len(), end_a, end_b);
    crate::text::same_beginning_cancels(
        "\n"@,
        payload_line(a.payload@),
        payload_line(b.payload@),
    );
    payloads_are_told_apart(a.payload@, b.payload@);
}

/// In upper case, the small ASCII letters become capital ones and nothing else
/// changes.
pub proof fn only_small_letters_change(c: char)
    ensures
        'a' <= c <= 'z' ==> 'A' <= ascii_uppercase(c) <= 'Z' && ascii_uppercase(c) as nat + 32
            == c as nat,
        !('a' <= c <= 'z') ==> ascii_uppercase(c) == c,
{
}

} // verus!
