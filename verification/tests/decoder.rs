use lez_events::decoder::{
    receipt_source, render_receipt, render_with_status, EventJson, ReceiptSource, TxReceiptJson,
};
use lez_events::text::{hex_encode, numbered, parse_unsigned, push_decimal, replace_all};
use serde_json::Value;

fn parse(json: &str) -> TxReceiptJson {
    let value: Value = serde_json::from_str(json).unwrap();
    let events = value["events"]
        .as_array()
        .unwrap()
        .iter()
        .map(|e| EventJson {
            program_id: e["program_id"].clone(),
            discriminant: e["discriminant"].as_u64().unwrap() as u32,
            sequence: e["sequence"].as_u64().unwrap() as u32,
            payload: e["payload"]
                .as_array()
                .unwrap()
                .iter()
                .map(|b| b.as_u64().unwrap() as u8)
                .collect(),
        })
        .collect();
    TxReceiptJson {
        tx_hash: value["tx_hash"].clone(),
        status: value["status"].as_str().unwrap().to_owned(),
        events,
        error: value["error"].as_str().map(str::to_owned),
        block_id: value["block_id"].as_u64(),
    }
}

fn event(sequence: u32, discriminant: u32, payload: &[u8]) -> EventJson {
    EventJson { program_id: Value::Null, discriminant, sequence, payload: payload.to_vec() }
}

fn receipt(status: &str, events: Vec<EventJson>) -> TxReceiptJson {
    TxReceiptJson {
        tx_hash: Value::Null,
        status: status.to_owned(),
        events,
        error: None,
        block_id: None,
    }
}

#[test]
fn decode_empty_receipt() {
    let json = r#"{
            "tx_hash": [1,2,3],
            "status": "included",
            "events": [],
            "error": null,
            "block_id": 5
        }"#;
    let receipt = parse(json);
    assert_eq!(receipt.status, "included");
    assert!(receipt.events.is_empty());
    assert_eq!(receipt.block_id, Some(5));
    assert_eq!(
        render_receipt(&receipt),
        "Transaction Receipt\n\
         ═══════════════════════════════════════\n  \
         Status : INCLUDED\n  \
         Block  : 5\n\
         \n  \
         No events emitted.\n\
         ═══════════════════════════════════════\n"
    );
}

#[test]
fn decode_receipt_with_events() {
    let json = r#"{
            "tx_hash": [1,2,3],
            "status": "rejected",
            "events": [
                {"program_id": [0,0,0,0,0,0,0,0], "discriminant": 42, "sequence": 0, "payload": [1,2,3]}
            ],
            "error": "Insufficient funds",
            "block_id": null
        }"#;
    let receipt = parse(json);
    assert_eq!(receipt.status, "rejected");
    assert_eq!(receipt.events.len(), 1);
    assert_eq!(receipt.events[0].discriminant, 42);
    assert_eq!(receipt.error, Some("Insufficient funds".to_string()));
    assert_eq!(
        render_receipt(&receipt),
        "Transaction Receipt\n\
         ═══════════════════════════════════════\n  \
         Status : REJECTED\n  \
         Error  : Insufficient funds\n\
         \n  \
         Events (1 total):\n  \
         ─────────────────────────────────────\n  \
         [0] discriminant=42 payload_bytes=3\n       \
         payload_utf8 : \u{1}\u{2}\u{3}\n\
         ═══════════════════════════════════════\n"
    );
}

#[test]
fn hex_encode_works() {
    assert_eq!(hex_encode(&[0xde, 0xad, 0xbe, 0xef]), "deadbeef");
}

#[test]
fn hex_of_small_bytes_has_leading_zeros() {
    assert_eq!(hex_encode(&[]), "");
    assert_eq!(hex_encode(&[0x00, 0x0a, 0xa0, 0xff]), "000aa0ff");
}

#[test]
fn valid_utf8_is_shown_as_text() {
    let events = vec![
        event(0, 2, b"WithdrawSuccess: 100~"),
        event(1, 2, b""),
        event(2, 2, &[195, 169]),
        event(3, 2, "→ 漢字 🦀".as_bytes()),
        event(4, 2, &[0x7f]),
    ];
    let text = render_receipt(&receipt("included", events));
    let lines: Vec<&str> = text.lines().collect();
    assert_eq!(lines[4], "  Events (5 total):");
    assert_eq!(lines[6], "  [0] discriminant=2 payload_bytes=21");
    assert_eq!(lines[7], "       payload_utf8 : WithdrawSuccess: 100~");
    assert_eq!(lines[8], "  [1] discriminant=2 payload_bytes=0");
    assert_eq!(lines[9], "       payload_utf8 : ");
    assert_eq!(lines[10], "  [2] discriminant=2 payload_bytes=2");
    assert_eq!(lines[11], "       payload_utf8 : é");
    assert_eq!(lines[13], "       payload_utf8 : → 漢字 🦀");
    assert_eq!(lines[15], "       payload_utf8 : \u{7f}");
}

#[test]
fn anything_else_is_shown_in_hex() {
    let events = vec![
        event(0, 2, &[0xff, 0xfe]),
        event(1, 2, &[0xc3]),
        event(2, 2, &[0xc0, 0x80]),
        event(3, 2, &[0xed, 0xa0, 0x80]),
        event(4, 2, &[0x61, 0x80]),
    ];
    let text = render_receipt(&receipt("included", events));
    let lines: Vec<&str> = text.lines().collect();
    assert_eq!(lines[7], "       payload_hex  : fffe");
    assert_eq!(lines[9], "       payload_hex  : c3");
    assert_eq!(lines[11], "       payload_hex  : c080");
    assert_eq!(lines[13], "       payload_hex  : eda080");
    assert_eq!(lines[15], "       payload_hex  : 6180");
}

#[test]
fn receipts_come_from_a_file_or_a_pipe() {
    let path = || Some("r.json".to_owned());
    assert_eq!(receipt_source(true, path(), true), ReceiptSource::Stdin);
    assert_eq!(receipt_source(true, None, true), ReceiptSource::Stdin);
    assert_eq!(
        receipt_source(false, path(), false),
        ReceiptSource::File { path: "r.json".to_owned() }
    );
    assert_eq!(receipt_source(false, None, false), ReceiptSource::Stdin);
    assert_eq!(receipt_source(false, None, true), ReceiptSource::Missing);
}

#[test]
fn status_is_put_in_upper_case() {
    let text = render_receipt(&receipt("straße", vec![]));
    assert_eq!(text.lines().nth(2).unwrap(), "  Status : STRASSE");
    let text = render_receipt(&receipt("Pending 1!", vec![]));
    assert_eq!(text.lines().nth(2).unwrap(), "  Status : PENDING 1!");
}

#[test]
fn status_can_be_given() {
    let text = render_with_status(&receipt("included", vec![]), "as given");
    assert_eq!(text.lines().nth(2).unwrap(), "  Status : as given");
}

#[test]
fn events_of_two_lists_follow_one_another() {
    let first = render_receipt(&receipt("x", vec![event(0, 1, b"a")]));
    let second = render_receipt(&receipt("x", vec![event(1, 2, b"b")]));
    let both = render_receipt(&receipt("x", vec![event(0, 1, b"a"), event(1, 2, b"b")]));
    let shown = |text: &str| -> Vec<String> {
        let lines: Vec<&str> = text.lines().collect();
        lines[6..lines.len() - 1].iter().map(|l| l.to_string()).collect()
    };
    let mut joined = shown(&first);
    joined.extend(shown(&second));
    assert_eq!(shown(&both), joined);
}

#[test]
fn error_and_block_come_before_the_events() {
    let mut r = receipt("rejected", vec![event(4294967295, 4294967295, &[0])]);
    r.error = Some("Insufficient funds: requested 500, available 100".to_owned());
    r.block_id = Some(18446744073709551615);
    let text = render_receipt(&r);
    let lines: Vec<&str> = text.lines().collect();
    assert_eq!(lines[3], "  Error  : Insufficient funds: requested 500, available 100");
    assert_eq!(lines[4], "  Block  : 18446744073709551615");
    assert_eq!(lines[5], "");
    assert_eq!(lines[8], "  [4294967295] discriminant=4294967295 payload_bytes=1");
}

#[test]
fn decimals() {
    let mut out = String::new();
    push_decimal(&mut out, 0);
    out.push(' ');
    push_decimal(&mut out, 1203);
    out.push(' ');
    push_decimal(&mut out, u128::MAX);
    assert_eq!(out, "0 1203 340282366920938463463374607431768211455");
}

#[test]
fn numbers_have_two_digits() {
    assert_eq!(numbered("n_", 0), "n_00");
    assert_eq!(numbered("n_", 7), "n_07");
    assert_eq!(numbered("n_", 10), "n_10");
    assert_eq!(numbered("n_", 123), "n_123");
}

#[test]
fn unsigned_numbers_are_parsed_as_by_the_standard_library() {
    let inputs = [
        "", "+", "-1", "0", "007", "+42", "++4", "65535", "65536", "99999999999999999999", " 1", "1 ",
        "1_0", "٣",
    ];
    for text in inputs {
        assert_eq!(parse_unsigned(text, 65535), text.parse::<u16>().ok().map(u64::from), "{text}");
    }
    assert_eq!(parse_unsigned("18446744073709551615", u64::MAX), Some(u64::MAX));
    assert_eq!(parse_unsigned("18446744073709551616", u64::MAX), None);
}

#[test]
fn occurrences_are_replaced_as_by_the_standard_library() {
    let cases = [
        ("a X b X", "X", "long"),
        ("aaaa", "aa", "b"),
        ("aaaaa", "aa", "a"),
        ("none here", "Y", "z"),
        ("", "Y", "z"),
        ("é→é", "é", "e"),
        ("abcabc", "abc", ""),
    ];
    for (text, from, to) in cases {
        assert_eq!(replace_all(text, from, to), text.replace(from, to), "{text}");
    }
}
