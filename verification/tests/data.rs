use header_codec::data::StopAndWaitHeader;
use header_codec::error::HeaderError;

#[test]
fn decode_exact_fit_buffer() {
    // header_size "08", get_port "10", rdt_port "20", then the two
    // file-name bytes: eight bytes in all, matching the declared size.
    let buf = b"081020a\0";
    let h = StopAndWaitHeader::from_string(buf).unwrap();
    assert_eq!(h.header_size(), 8);
    assert_eq!(h.get_port(), 10);
    assert_eq!(h.rdt_port(), 20);
    assert_eq!(h.file_name(), "a\u{0}");
}

#[test]
fn declared_size_beyond_buffer_fails() {
    let buf = b"091020a\0";
    let r = StopAndWaitHeader::from_string(buf);
    assert!(matches!(r, Err(HeaderError::MalformedHeader)));
}

#[test]
fn declared_size_below_fixed_fields_fails() {
    let buf = b"051020xxxx";
    let r = StopAndWaitHeader::from_string(buf);
    assert!(matches!(r, Err(HeaderError::MalformedHeader)));
}

#[test]
fn buffer_shorter_than_fixed_fields_fails() {
    let r = StopAndWaitHeader::from_string(b"0810");
    assert!(matches!(r, Err(HeaderError::MalformedHeader)));
}

#[test]
fn non_numeric_field_fails() {
    let r = StopAndWaitHeader::from_string(b"0a1020xx");
    assert!(matches!(r, Err(HeaderError::MalformedHeader)));
}

#[test]
fn file_name_that_is_not_utf8_fails() {
    let buf: [u8; 8] = [b'0', b'8', b'1', b'0', b'2', b'0', 0xff, 0xff];
    let r = StopAndWaitHeader::from_string(&buf);
    assert!(matches!(r, Err(HeaderError::MalformedHeader)));
}

#[test]
fn empty_file_name_decodes() {
    let h = StopAndWaitHeader::from_string(b"061020").unwrap();
    assert_eq!(h.header_size(), 6);
    assert_eq!(h.file_name(), "");
}

#[test]
fn trailing_bytes_past_declared_size_are_ignored() {
    let h = StopAndWaitHeader::from_string(b"081020abEXTRA").unwrap();
    assert_eq!(h.header_size(), 8);
    assert_eq!(h.file_name(), "ab");
}

#[test]
fn plus_signed_fields_parse() {
    let h = StopAndWaitHeader::from_string(b"08+1+2ab").unwrap();
    assert_eq!(h.header_size(), 8);
    assert_eq!(h.get_port(), 1);
    assert_eq!(h.rdt_port(), 2);
    assert_eq!(h.file_name(), "ab");
}

#[test]
fn multi_byte_file_name_decodes_as_utf8() {
    // "é" is two bytes on the wire but one character once decoded.
    let mut buf: Vec<u8> = Vec::new();
    buf.extend_from_slice(b"081020");
    buf.extend_from_slice("é".as_bytes());
    let h = StopAndWaitHeader::from_string(&buf).unwrap();
    assert_eq!(h.file_name(), "é");
    assert_eq!(h.file_name().chars().count(), 1);
}

#[test]
fn packet_size_is_six_plus_byte_length() {
    assert_eq!(StopAndWaitHeader::packet_size(String::new()), 6);
    assert_eq!(StopAndWaitHeader::packet_size("abc".to_string()), 9);
    // A multi-byte character counts by its UTF-8 byte length.
    assert_eq!(StopAndWaitHeader::packet_size("é".to_string()), 8);
}

#[test]
fn new_carries_fields_through() {
    let h = StopAndWaitHeader::new(9, 1, 2, "abc".to_string());
    assert_eq!(h.header_size(), 9);
    assert_eq!(h.get_port(), 1);
    assert_eq!(h.rdt_port(), 2);
    assert_eq!(h.file_name(), "abc");
}
