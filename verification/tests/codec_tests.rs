//! Tests of the envelope codec: decoding, encoding, and the round trip.

use airlinks::client::create_body;
use airlinks::codec::encode_request;
use airlinks::codec::AirtableRequest;
use airlinks::codec::Record;
use airlinks::codec::RecordField;
use airlinks::decode::decode_envelope;
use airlinks::error::ParseFailure;

fn record(slug: &str, target: &str) -> Record {
    Record { fields: RecordField { slug: slug.to_string(), target: target.to_string() } }
}

#[test]
fn decode_one_record() {
    let body = "{\"records\":[{\"fields\":{\"slug\":\"go\",\"target\":\"https://golang.org\"}}]}";
    let resp = decode_envelope(body).unwrap();
    assert_eq!(resp.records.len(), 1);
    assert_eq!(resp.records[0].fields.slug, "go");
    assert_eq!(resp.records[0].fields.target, "https://golang.org");
}

#[test]
fn decode_empty_records() {
    let resp = decode_envelope("{\"records\":[]}").unwrap();
    assert_eq!(resp.records.len(), 0);
}

#[test]
fn decode_several_records_keeps_order() {
    let body = "{\"records\":[{\"fields\":{\"slug\":\"a\",\"target\":\"1\"}},{\"fields\":{\"slug\":\"b\",\"target\":\"2\"}}]}";
    let resp = decode_envelope(body).unwrap();
    assert_eq!(resp.records.len(), 2);
    assert_eq!(resp.records[0].fields.slug, "a");
    assert_eq!(resp.records[1].fields.slug, "b");
}

#[test]
fn decode_ignores_unknown_members_and_whitespace() {
    let body = " {\n \"records\" : [ {\"id\":\"rec123\",\"createdTime\":\"2020-01-01T00:00:00Z\",\"fields\":{\"note\":[1,2,{\"x\":null}],\"slug\":\"go\",\"extra\":true,\"target\":\"t\"}} ] , \"offset\":\"abc\" }\n";
    let resp = decode_envelope(body).unwrap();
    assert_eq!(resp.records.len(), 1);
    assert_eq!(resp.records[0].fields.slug, "go");
    assert_eq!(resp.records[0].fields.target, "t");
}

#[test]
fn decode_unescapes_strings() {
    let body = "{\"records\":[{\"fields\":{\"slug\":\"a\\\"b\\\\c\",\"target\":\"x\\ny\\t/\"}}]}";
    let resp = decode_envelope(body).unwrap();
    assert_eq!(resp.records[0].fields.slug, "a\"b\\c");
    assert_eq!(resp.records[0].fields.target, "x\ny\t/");
}

#[test]
fn decode_unicode_escapes() {
    let body = "{\"records\":[{\"fields\":{\"slug\":\"\\u0041b\\u00e9\",\"target\":\"\\uD83D\\uDE00\"}}]}";
    let resp = decode_envelope(body).unwrap();
    assert_eq!(resp.records[0].fields.slug, "Ab\u{e9}");
    assert_eq!(resp.records[0].fields.target, "\u{1F600}");
}

#[test]
fn decode_control_char_escapes() {
    let body = "{\"records\":[{\"fields\":{\"slug\":\"a\\u0001b\",\"target\":\"x\\u001Fy\"}}]}";
    let resp = decode_envelope(body).unwrap();
    assert_eq!(resp.records[0].fields.slug, "a\u{1}b");
    assert_eq!(resp.records[0].fields.target, "x\u{1f}y");
}

#[test]
fn decode_bad_unicode_escapes_are_malformed() {
    // too few hex digits
    assert!(decode_envelope("{\"records\":[{\"fields\":{\"slug\":\"\\u00g1\",\"target\":\"t\"}}]}").is_err());
    // a lone high surrogate
    assert!(decode_envelope("{\"records\":[{\"fields\":{\"slug\":\"\\uD83D\",\"target\":\"t\"}}]}").is_err());
    // a lone low surrogate
    assert!(decode_envelope("{\"records\":[{\"fields\":{\"slug\":\"\\uDE00\",\"target\":\"t\"}}]}").is_err());
    // a high surrogate followed by a non-surrogate escape
    assert!(decode_envelope("{\"records\":[{\"fields\":{\"slug\":\"\\uD83D\\u0041\",\"target\":\"t\"}}]}").is_err());
}

#[test]
fn decode_wrong_key_is_malformed() {
    assert!(matches!(decode_envelope("{\"recordz\": []}"), Err(ParseFailure::Malformed)));
}

#[test]
fn decode_truncated_is_malformed() {
    assert!(matches!(
        decode_envelope("{\"records\":[{\"fields\":{\"slug\":\"a\""),
        Err(ParseFailure::Malformed)
    ));
}

#[test]
fn decode_non_json_is_malformed() {
    assert!(decode_envelope("hello there").is_err());
    assert!(decode_envelope("").is_err());
    assert!(decode_envelope("[]").is_err());
    assert!(decode_envelope("{\"records\": 5}").is_err());
}

#[test]
fn decode_missing_field_is_malformed() {
    assert!(decode_envelope("{\"records\":[{\"fields\":{\"slug\":\"a\"}}]}").is_err());
    assert!(decode_envelope("{\"records\":[{\"fields\":{\"target\":\"t\"}}]}").is_err());
    assert!(decode_envelope("{\"records\":[{}]}").is_err());
}

#[test]
fn decode_duplicate_members_are_malformed() {
    assert!(decode_envelope("{\"records\":[],\"records\":[]}").is_err());
    assert!(
        decode_envelope("{\"records\":[{\"fields\":{\"slug\":\"a\",\"slug\":\"b\",\"target\":\"t\"}}]}").is_err()
    );
}

#[test]
fn decode_trailing_garbage_is_malformed() {
    assert!(decode_envelope("{\"records\":[]} x").is_err());
}

#[test]
fn decode_raw_control_char_is_malformed() {
    assert!(decode_envelope("{\"records\":[{\"fields\":{\"slug\":\"a\nb\",\"target\":\"t\"}}]}").is_err());
}

#[test]
fn encode_one_record_exactly() {
    let req = AirtableRequest { records: vec![record("rs", "https://rust-lang.org")] };
    let body = encode_request(&req);
    assert_eq!(
        body,
        "{\"records\":[{\"fields\":{\"slug\":\"rs\",\"target\":\"https://rust-lang.org\"}}]}"
    );
}

#[test]
fn encode_escapes_quotes_and_backslashes() {
    let req = AirtableRequest { records: vec![record("a\"b", "c\\d")] };
    let body = encode_request(&req);
    assert_eq!(body, "{\"records\":[{\"fields\":{\"slug\":\"a\\\"b\",\"target\":\"c\\\\d\"}}]}");
}

#[test]
fn encode_two_records_comma_separated() {
    let req = AirtableRequest { records: vec![record("a", "1"), record("b", "2")] };
    let body = encode_request(&req);
    assert_eq!(
        body,
        "{\"records\":[{\"fields\":{\"slug\":\"a\",\"target\":\"1\"}},{\"fields\":{\"slug\":\"b\",\"target\":\"2\"}}]}"
    );
}

#[test]
fn encode_escapes_control_chars() {
    let req = AirtableRequest { records: vec![record("a\nb", "c\u{1}d\u{1f}")] };
    let body = encode_request(&req);
    assert_eq!(
        body,
        "{\"records\":[{\"fields\":{\"slug\":\"a\\nb\",\"target\":\"c\\u0001d\\u001F\"}}]}"
    );
    let resp = decode_envelope(&body).unwrap();
    assert_eq!(resp.records[0].fields.slug, "a\nb");
    assert_eq!(resp.records[0].fields.target, "c\u{1}d\u{1f}");
}

#[test]
fn round_trip_with_control_chars() {
    let body = create_body("a\tb\nc", "x\u{8}y\u{b}z\r");
    let resp = decode_envelope(&body).unwrap();
    assert_eq!(resp.records[0].fields.slug, "a\tb\nc");
    assert_eq!(resp.records[0].fields.target, "x\u{8}y\u{b}z\r");
    let v: serde_json::Value = serde_json::from_str(&body).unwrap();
    let fields = v.get("records").unwrap().as_array().unwrap()[0].get("fields").unwrap();
    assert_eq!(fields.get("target").unwrap().as_str().unwrap(), "x\u{8}y\u{b}z\r");
}

#[test]
fn round_trip_preserves_fields() {
    let body = create_body("a\"b\\c", "https://example.com/?q=1&r=2");
    let resp = decode_envelope(&body).unwrap();
    assert_eq!(resp.records.len(), 1);
    assert_eq!(resp.records[0].fields.slug, "a\"b\\c");
    assert_eq!(resp.records[0].fields.target, "https://example.com/?q=1&r=2");
}

#[test]
fn decode_then_reencode_preserves_fields() {
    let payload = "{ \"records\" : [ {\"id\":\"rec1\",\"fields\":{\"slug\":\"go\",\"target\":\"https://golang.org\"}} ] }";
    let decoded = decode_envelope(payload).unwrap();
    let rec = &decoded.records[0];
    let reencoded = create_body(&rec.fields.slug, &rec.fields.target);
    let redecoded = decode_envelope(&reencoded).unwrap();
    assert_eq!(redecoded.records.len(), 1);
    assert_eq!(redecoded.records[0].fields.slug, "go");
    assert_eq!(redecoded.records[0].fields.target, "https://golang.org");
}

#[test]
fn encoded_body_is_valid_json_to_serde() {
    let body = create_body("rs", "https://rust-lang.org");
    let v: serde_json::Value = serde_json::from_str(&body).unwrap();
    let recs = v.get("records").unwrap().as_array().unwrap();
    assert_eq!(recs.len(), 1);
    let fields = recs[0].get("fields").unwrap();
    assert_eq!(fields.get("slug").unwrap().as_str().unwrap(), "rs");
    assert_eq!(fields.get("target").unwrap().as_str().unwrap(), "https://rust-lang.org");
}

#[test]
fn escaped_body_is_valid_json_to_serde() {
    let body = create_body("a\"b\\c", "t");
    let v: serde_json::Value = serde_json::from_str(&body).unwrap();
    let fields = v.get("records").unwrap().as_array().unwrap()[0].get("fields").unwrap();
    assert_eq!(fields.get("slug").unwrap().as_str().unwrap(), "a\"b\\c");
}
