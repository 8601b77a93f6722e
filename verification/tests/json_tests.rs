use prompt_gateway::json::{encode_response, parse_request};

fn parse(body: &[u8]) -> Option<Vec<u8>> {
    parse_request(&body.to_vec())
}

#[test]
fn parse_minimal() {
    assert_eq!(parse(b"{\"prompt\":\"hi\"}"), Some(b"hi".to_vec()));
}

#[test]
fn parse_empty_prompt() {
    assert_eq!(parse(b"{\"prompt\":\"\"}"), Some(b"".to_vec()));
}

#[test]
fn parse_with_whitespace() {
    assert_eq!(
        parse(b"  \t\r\n{ \"prompt\" \n:\t \"hi there\" }  "),
        Some(b"hi there".to_vec())
    );
}

#[test]
fn parse_extra_fields() {
    let body = b"{\"a\": 1, \"prompt\": \"x\", \"b\": [1, {\"c\": null}, true], \"d\": \"s\"}";
    assert_eq!(parse(body), Some(b"x".to_vec()));
}

#[test]
fn parse_deeply_nested_extra_field() {
    let body = b"{\"meta\": {\"a\": [[[{\"b\": [false, null, -1.5e-3, \"x\"]}]]]}, \"prompt\": \"p\"}";
    assert_eq!(parse(body), Some(b"p".to_vec()));
}

#[test]
fn parse_simple_escapes() {
    assert_eq!(
        parse(b"{\"prompt\":\"a\\n\\t\\\"\\\\\\/b\\r\\f\\b\"}"),
        Some(b"a\n\t\"\\/b\r\x0c\x08".to_vec())
    );
}

#[test]
fn parse_unicode_escape_ascii() {
    assert_eq!(parse(b"{\"prompt\":\"\\u0041\"}"), Some(b"A".to_vec()));
}

#[test]
fn parse_unicode_escape_two_bytes() {
    assert_eq!(parse(b"{\"prompt\":\"\\u00e9\"}"), Some(vec![0xC3, 0xA9]));
}

#[test]
fn parse_unicode_escape_three_bytes() {
    assert_eq!(
        parse(b"{\"prompt\":\"\\u20ac\"}"),
        Some(vec![0xE2, 0x82, 0xAC])
    );
}

#[test]
fn parse_surrogate_pair() {
    assert_eq!(
        parse(b"{\"prompt\":\"\\ud83d\\ude00\"}"),
        Some(vec![0xF0, 0x9F, 0x98, 0x80])
    );
}

#[test]
fn parse_lone_surrogate_rejected() {
    assert_eq!(parse(b"{\"prompt\":\"\\ud83d\"}"), None);
    assert_eq!(parse(b"{\"prompt\":\"\\ude00\"}"), None);
}

#[test]
fn parse_escaped_key_counts_as_prompt() {
    assert_eq!(parse(b"{\"\\u0070rompt\":\"x\"}"), Some(b"x".to_vec()));
}

#[test]
fn parse_raw_utf8_passes_through() {
    let body = "{\"prompt\":\"caf\u{e9} \u{1F600}\"}".as_bytes();
    assert_eq!(parse(body), Some("caf\u{e9} \u{1F600}".as_bytes().to_vec()));
}

#[test]
fn parse_missing_prompt() {
    assert_eq!(parse(b"{}"), None);
    assert_eq!(parse(b"{\"a\": 1}"), None);
    assert_eq!(parse(b"{ }"), None);
}

#[test]
fn parse_not_json() {
    assert_eq!(parse(b""), None);
    assert_eq!(parse(b"hello"), None);
    assert_eq!(parse(b"{\"prompt\""), None);
    assert_eq!(parse(b"{\"prompt\": }"), None);
}

#[test]
fn parse_non_object() {
    assert_eq!(parse(b"[\"prompt\", \"x\"]"), None);
    assert_eq!(parse(b"\"prompt\""), None);
    assert_eq!(parse(b"true"), None);
    assert_eq!(parse(b"42"), None);
}

#[test]
fn parse_wrong_typed_prompt() {
    assert_eq!(parse(b"{\"prompt\": 1}"), None);
    assert_eq!(parse(b"{\"prompt\": null}"), None);
    assert_eq!(parse(b"{\"prompt\": [\"x\"]}"), None);
    assert_eq!(parse(b"{\"prompt\": {\"a\": \"x\"}}"), None);
}

#[test]
fn parse_duplicate_prompt_rejected() {
    assert_eq!(parse(b"{\"prompt\":\"a\",\"prompt\":\"b\"}"), None);
}

#[test]
fn parse_trailing_garbage() {
    assert_eq!(parse(b"{\"prompt\":\"a\"}x"), None);
    assert_eq!(parse(b"{\"prompt\":\"a\"}{}"), None);
}

#[test]
fn parse_unterminated_string() {
    assert_eq!(parse(b"{\"prompt\":\"a"), None);
}

#[test]
fn parse_unescaped_control_char_rejected() {
    assert_eq!(parse(b"{\"prompt\":\"a\x01b\"}"), None);
    assert_eq!(parse(b"{\"prompt\":\"a\nb\"}"), None);
}

#[test]
fn parse_unknown_escape_rejected() {
    assert_eq!(parse(b"{\"prompt\":\"\\q\"}"), None);
    assert_eq!(parse(b"{\"prompt\":\"\\u00g1\"}"), None);
}

#[test]
fn parse_numbers_in_extra_fields() {
    assert_eq!(parse(b"{\"prompt\":\"x\",\"n\": -12.5e+3}"), Some(b"x".to_vec()));
    assert_eq!(parse(b"{\"prompt\":\"x\",\"n\": 0}"), Some(b"x".to_vec()));
    assert_eq!(parse(b"{\"prompt\":\"x\",\"n\": 0.25}"), Some(b"x".to_vec()));
    assert_eq!(parse(b"{\"prompt\":\"x\",\"n\": 1E9}"), Some(b"x".to_vec()));
}

#[test]
fn parse_malformed_numbers_rejected() {
    assert_eq!(parse(b"{\"prompt\":\"x\",\"n\": 01}"), None);
    assert_eq!(parse(b"{\"prompt\":\"x\",\"n\": 1.}"), None);
    assert_eq!(parse(b"{\"prompt\":\"x\",\"n\": 1e}"), None);
    assert_eq!(parse(b"{\"prompt\":\"x\",\"n\": -}"), None);
    assert_eq!(parse(b"{\"prompt\":\"x\",\"n\": .5}"), None);
}

#[test]
fn parse_empty_containers_in_extra_fields() {
    assert_eq!(parse(b"{\"a\": {}, \"prompt\": \"x\"}"), Some(b"x".to_vec()));
    assert_eq!(parse(b"{\"a\": [], \"prompt\": \"x\"}"), Some(b"x".to_vec()));
    assert_eq!(
        parse(b"{\"a\": [ [ ] , { } ], \"prompt\": \"x\"}"),
        Some(b"x".to_vec())
    );
}

#[test]
fn parse_trailing_comma_rejected() {
    assert_eq!(parse(b"{\"prompt\": \"x\", }"), None);
    assert_eq!(parse(b"{\"prompt\": \"x\", \"a\": [1,]}"), None);
    assert_eq!(parse(b"{\"prompt\": \"x\", \"a\": {\"b\": 1,}}"), None);
}

#[test]
fn parse_missing_comma_rejected() {
    assert_eq!(parse(b"{\"a\": 1 \"prompt\": \"x\"}"), None);
    assert_eq!(parse(b"{\"prompt\": \"x\",}"), None);
}

#[test]
fn encode_plain() {
    assert_eq!(
        encode_response(&b"hi".to_vec()),
        b"{\"response\":\"hi\"}".to_vec()
    );
}

#[test]
fn encode_empty() {
    assert_eq!(
        encode_response(&b"".to_vec()),
        b"{\"response\":\"\"}".to_vec()
    );
}

#[test]
fn encode_escapes_quotes_and_backslashes() {
    assert_eq!(
        encode_response(&b"a\"b\\c".to_vec()),
        b"{\"response\":\"a\\\"b\\\\c\"}".to_vec()
    );
}

#[test]
fn encode_escapes_named_controls() {
    assert_eq!(
        encode_response(&b"a\nb\tc\rd\x0ce\x08f".to_vec()),
        b"{\"response\":\"a\\nb\\tc\\rd\\fe\\bf\"}".to_vec()
    );
}

#[test]
fn encode_escapes_other_controls_as_hex() {
    assert_eq!(
        encode_response(&b"\x01\x1f".to_vec()),
        b"{\"response\":\"\\u0001\\u001f\"}".to_vec()
    );
}

#[test]
fn encode_passes_utf8_through() {
    let text = "caf\u{e9}".as_bytes().to_vec();
    assert_eq!(
        encode_response(&text),
        "{\"response\":\"caf\u{e9}\"}".as_bytes().to_vec()
    );
}

#[test]
fn round_trip_prompt_through_both_directions() {
    let text = b"line one\nline two \"quoted\"".to_vec();
    let encoded = encode_response(&text);
    let as_request: Vec<u8> = {
        let mut b = encoded.clone();
        let tail: Vec<u8> = b.split_off(2);
        let mut req = b"{\"prompt".to_vec();
        req.extend_from_slice(&tail[8..]);
        req
    };
    assert_eq!(parse(&as_request), Some(text));
}
