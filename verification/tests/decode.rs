use tlv::parse_data_element;
use tlv::parse_identifier;
use tlv::parse_length;
use tlv::DecodeError;
use tlv::TagClass;

#[test]
fn test_parse_identifier() {
    let d = b"\x2a";
    let r = parse_identifier(d).unwrap();
    assert_eq!(r.0, TagClass::Universal);
    assert_eq!(r.1, true);
    assert_eq!(r.2, 0xa);

    let d = b"\xff\x2a";
    let r = parse_identifier(d).unwrap();
    assert_eq!(r.0, TagClass::Private);
    assert_eq!(r.1, true);
    assert_eq!(r.2, 0x2a);

    let d = b"\xff\x8a\x2a";
    let r = parse_identifier(d).unwrap();
    assert_eq!(r.0, TagClass::Private);
    assert_eq!(r.1, true);
    assert_eq!(r.2, 0x52a);
}

#[test]
fn test_parse_length() {
    let d = b"\x82\x05\x63";
    let (r, consumed) = parse_length(d).unwrap();
    assert_eq!(d.len() - consumed, 0);
    assert_eq!(r, 1379);

    let d = b"\x09";
    let (r, consumed) = parse_length(d).unwrap();
    assert_eq!(d.len() - consumed, 0);
    assert_eq!(r, 9);
}

#[test]
fn test_identifier_consumed() {
    assert_eq!(parse_identifier(b"\x2a").unwrap().3, 1);
    assert_eq!(parse_identifier(b"\xff\x2a").unwrap().3, 2);
    assert_eq!(parse_identifier(b"\xff\x8a\x2a").unwrap().3, 3);
}

#[test]
fn test_identifier_low_tag_classes() {
    let r = parse_identifier(b"\x41").unwrap();
    assert_eq!(r, (TagClass::Application, false, 1, 1));
    let r = parse_identifier(b"\x82").unwrap();
    assert_eq!(r, (TagClass::Context, false, 2, 1));
    let r = parse_identifier(b"\xc3").unwrap();
    assert_eq!(r, (TagClass::Private, false, 3, 1));
    let r = parse_identifier(b"\x00").unwrap();
    assert_eq!(r, (TagClass::Universal, false, 0, 1));
}

#[test]
fn test_identifier_four_continuation_octets() {
    // 4 * 7 = 28 significant bits, the widest supported tag number.
    let r = parse_identifier(b"\x1f\xff\xff\xff\x7f").unwrap();
    assert_eq!(r.2, 0x0fff_ffff);
    assert_eq!(r.3, 5);
}

#[test]
fn test_identifier_unterminated() {
    // Five continuation octets with the high bit set: over the budget.
    let r = parse_identifier(b"\x1f\x80\x80\x80\x80\x80");
    assert_eq!(r, Err(DecodeError::MalformedIdentifier));
}

#[test]
fn test_identifier_truncated() {
    let r = parse_identifier(b"\xff");
    assert_eq!(r, Err(DecodeError::MalformedIdentifier));
    let r = parse_identifier(b"\x1f\x8a");
    assert_eq!(r, Err(DecodeError::MalformedIdentifier));
}

#[test]
fn test_identifier_empty() {
    let d: &[u8] = &[];
    assert_eq!(parse_identifier(d), Err(DecodeError::MalformedIdentifier));
}

#[test]
fn test_length_short_form() {
    assert_eq!(parse_length(b"\x00").unwrap(), (0, 1));
    assert_eq!(parse_length(b"\x7f").unwrap(), (0x7f, 1));
}

#[test]
fn test_length_indefinite_marker_quirk() {
    // The long form with zero length octets is the indefinite-length
    // marker; this decoder reads it as a definite length of zero.
    assert_eq!(parse_length(b"\x80").unwrap(), (0, 1));
}

#[test]
fn test_length_overflow() {
    // Nine declared length octets exceed the eight-octet width.
    let r = parse_length(b"\x89\x01\x02\x03\x04\x05\x06\x07\x08\x09");
    assert_eq!(r, Err(DecodeError::LengthOverflow));
    // Rejected even when the octets themselves are absent.
    assert_eq!(parse_length(b"\xff"), Err(DecodeError::LengthOverflow));
}

#[test]
fn test_length_truncated() {
    assert_eq!(parse_length(b"\x82\x05"), Err(DecodeError::LengthOverflow));
}

#[test]
fn test_length_widest_supported() {
    let d = b"\x88\xff\xff\xff\xff\xff\xff\xff\xff";
    assert_eq!(parse_length(d).unwrap(), (u64::MAX, 9));
}

#[test]
fn test_element_end_to_end() {
    let d = [0x2a, 0x03, 0x01, 0x02, 0x03];
    let (element, consumed) = parse_data_element(&d).unwrap();
    assert_eq!(element.tag_class, TagClass::Universal);
    assert_eq!(element.constructed, true);
    assert_eq!(element.tag_number, 10);
    assert_eq!(element.content, vec![0x01, 0x02, 0x03]);
    assert_eq!(consumed, d.len());
}

#[test]
fn test_element_remainder() {
    let d = [0x02, 0x01, 0xab, 0xcd];
    let (element, consumed) = parse_data_element(&d).unwrap();
    assert_eq!(element.tag_number, 2);
    assert_eq!(element.content, vec![0xab]);
    assert_eq!(consumed, 3);
    assert_eq!(&d[consumed..], &[0xcd]);
}

#[test]
fn test_element_high_tag_number() {
    let d = [0xff, 0x8a, 0x2a, 0x02, 0x10, 0x20];
    let (element, consumed) = parse_data_element(&d).unwrap();
    assert_eq!(element.tag_class, TagClass::Private);
    assert_eq!(element.constructed, true);
    assert_eq!(element.tag_number, 0x52a);
    assert_eq!(element.content, vec![0x10, 0x20]);
    assert_eq!(consumed, 6);
}

#[test]
fn test_element_empty_content() {
    let d = [0x04, 0x00];
    let (element, consumed) = parse_data_element(&d).unwrap();
    assert_eq!(element.tag_number, 4);
    assert_eq!(element.content, Vec::<u8>::new());
    assert_eq!(consumed, 2);
}

#[test]
fn test_element_content_truncated() {
    let d = [0x2a, 0x05, 0x01, 0x02];
    assert_eq!(parse_data_element(&d).unwrap_err(), DecodeError::ContentTruncated);
}

#[test]
fn test_element_missing_length() {
    assert_eq!(parse_data_element(b"\x2a").unwrap_err(), DecodeError::LengthOverflow);
}

#[test]
fn test_element_malformed_identifier() {
    let d = [0x1f, 0x80, 0x80, 0x80, 0x80, 0x80, 0x00];
    assert_eq!(parse_data_element(&d).unwrap_err(), DecodeError::MalformedIdentifier);
    let e: &[u8] = &[];
    assert_eq!(parse_data_element(e).unwrap_err(), DecodeError::MalformedIdentifier);
}

#[test]
fn test_decode_deterministic() {
    let d = [0x2a, 0x03, 0x01, 0x02, 0x03];
    let (e1, c1) = parse_data_element(&d).unwrap();
    let (e2, c2) = parse_data_element(&d).unwrap();
    assert_eq!(e1.tag_class, e2.tag_class);
    assert_eq!(e1.constructed, e2.constructed);
    assert_eq!(e1.tag_number, e2.tag_number);
    assert_eq!(e1.content, e2.content);
    assert_eq!(c1, c2);

    let bad = [0x2a, 0x05, 0x01];
    assert_eq!(parse_data_element(&bad).unwrap_err(), parse_data_element(&bad).unwrap_err());
}
