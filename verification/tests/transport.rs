use receipt_ingest::mail::{extract_email_content, parse_message, ContentError};
use receipt_ingest::transport::{decode_base64url, to_padded_standard, TransportError};

#[test]
fn unpadded_text_is_padded_before_decoding() {
    assert_eq!(decode_base64url("aGVsbG8"), Ok(b"hello".to_vec()));
    assert_eq!(decode_base64url("aGk"), Ok(b"hi".to_vec()));
    assert_eq!(decode_base64url("aGVsbG8h"), Ok(b"hello!".to_vec()));
    assert_eq!(decode_base64url(""), Ok(Vec::new()));
}

#[test]
fn url_safe_symbols_become_standard_ones() {
    // 0xfb 0xff in the URL-safe alphabet is "-_8"
    assert_eq!(decode_base64url("-_8"), Ok(vec![0xfb, 0xff]));
    assert_eq!(to_padded_standard(&b"-_8".to_vec()), b"+/8=".to_vec());
    assert_eq!(to_padded_standard(&b"ab".to_vec()), b"ab==".to_vec());
    assert_eq!(to_padded_standard(&b"abcde".to_vec()), b"abcde===".to_vec());
}

#[test]
fn text_outside_the_alphabet_is_refused() {
    assert_eq!(decode_base64url("a*b"), Err(TransportError::Malformed));
    assert_eq!(decode_base64url("a"), Err(TransportError::Malformed));
}

#[test]
fn the_fields_of_a_message_are_read() {
    let raw = b"From: Coffee Bean <no-reply@bank.com>\r\nSubject: Payment confirmation\r\nDate: Thu, 01 Jan 1970 00:01:40 +0000\r\nContent-Type: text/html; charset=utf-8\r\n\r\n<p>Paid SGD 12.34</p>".to_vec();
    let content = parse_message(&raw).unwrap();
    assert_eq!(content.subject.as_deref(), Some("Payment confirmation"));
    assert_eq!(content.from_name.as_deref(), Some("Coffee Bean"));
    assert_eq!(content.from_addr.as_deref(), Some("no-reply@bank.com"));
    assert_eq!(content.html.as_deref(), Some("<p>Paid SGD 12.34</p>"));
    assert_eq!(content.timestamp, Some(100));
}

#[test]
fn bytes_without_a_header_are_no_message() {
    assert!(matches!(parse_message(&Vec::new()), Err(ContentError::NotAMessage)));
}

#[test]
fn a_raw_message_is_decoded_then_parsed() {
    // "Subject: Hi\r\n\r\nbody" in URL-safe base64 without padding
    let content = extract_email_content("U3ViamVjdDogSGkNCg0KYm9keQ").unwrap();
    assert_eq!(content.subject.as_deref(), Some("Hi"));
    assert_eq!(content.from_name, None);
    assert_eq!(content.text.as_deref(), Some("body"));
    assert!(matches!(extract_email_content("***"), Err(ContentError::Transport)));
    assert!(matches!(extract_email_content(""), Err(ContentError::NotAMessage)));
}
