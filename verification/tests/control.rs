use header_codec::control::TCPHeader;
use header_codec::error::HeaderError;
use header_codec::packet_kind::PacketHeader;

#[test]
fn encode_get_header() {
    let h = TCPHeader::new(PacketHeader::GET, 8080, "report.txt".to_string());
    assert_eq!(h.to_string(), "GET\n\n8080\nreport.txt");
}

#[test]
fn encode_raw_token_header() {
    let h = TCPHeader::new(PacketHeader::StopWaitData, 5, "x".to_string());
    assert_eq!(h.to_string(), "SWD\n5\nx");
}

#[test]
fn decode_get_header_round_trips() {
    // The token "GET\n" carries its own newline, so the wire image has a
    // blank second line before the port line.
    let h = TCPHeader::from_string("GET\n\n8080\nreport.txt".to_string()).unwrap();
    assert_eq!(h.conn_type, PacketHeader::GET);
    assert_eq!(h.udp_get_port, 8080);
    assert_eq!(h.file_name, "report.txt");
}

#[test]
fn decode_raw_token_header_round_trips() {
    let h = TCPHeader::new(PacketHeader::GoBackN, 65535, "a b c".to_string());
    let wire = h.to_string();
    assert_eq!(wire, "GBN\n65535\na b c");
    let back = TCPHeader::from_string(wire).unwrap();
    assert_eq!(back.conn_type, PacketHeader::GoBackN);
    assert_eq!(back.udp_get_port, 65535);
    assert_eq!(back.file_name, "a b c");
}

#[test]
fn malformed_port_degrades_to_zero() {
    let h = TCPHeader::from_string("DISC\nabc\nfile.txt".to_string()).unwrap();
    assert_eq!(h.conn_type, PacketHeader::Disc);
    assert_eq!(h.udp_get_port, 0);
    assert_eq!(h.file_name, "file.txt");
}

#[test]
fn out_of_range_port_degrades_to_zero() {
    let h = TCPHeader::from_string("SWD\n70000\nf".to_string()).unwrap();
    assert_eq!(h.conn_type, PacketHeader::StopWaitData);
    assert_eq!(h.udp_get_port, 0);
    assert_eq!(h.file_name, "f");
}

#[test]
fn plus_signed_port_parses() {
    let h = TCPHeader::from_string("SWD\n+123\nf".to_string()).unwrap();
    assert_eq!(h.udp_get_port, 123);
}

#[test]
fn missing_lines_degrade_to_defaults() {
    let h = TCPHeader::from_string("SWD".to_string()).unwrap();
    assert_eq!(h.conn_type, PacketHeader::StopWaitData);
    assert_eq!(h.udp_get_port, 0);
    assert_eq!(h.file_name, "");
}

#[test]
fn unrecognized_first_line_still_decodes() {
    let h = TCPHeader::from_string("XYZ\n5\nf".to_string()).unwrap();
    assert_eq!(h.conn_type, PacketHeader::Unrecognized);
    assert_eq!(h.udp_get_port, 5);
    assert_eq!(h.file_name, "f");
}

#[test]
fn blank_second_line_is_data_for_unrecognized_kinds() {
    // Only the three kinds whose own token carries a newline get the
    // blank-line absorption; for an unrecognized first line the blank
    // second line is an empty port line, which degrades to zero.
    let h = TCPHeader::from_string("XYZ\n\n5\nf".to_string()).unwrap();
    assert_eq!(h.conn_type, PacketHeader::Unrecognized);
    assert_eq!(h.udp_get_port, 0);
    assert_eq!(h.file_name, "5");
}

#[test]
fn blank_second_line_is_consumed_for_newline_tokens() {
    let h = TCPHeader::from_string("DISC\n\n9\nf".to_string()).unwrap();
    assert_eq!(h.conn_type, PacketHeader::Disc);
    assert_eq!(h.udp_get_port, 9);
    assert_eq!(h.file_name, "f");
}

#[test]
fn lines_past_the_file_name_are_ignored() {
    let h = TCPHeader::from_string("SWD\n1\nname\nextra".to_string()).unwrap();
    assert_eq!(h.udp_get_port, 1);
    assert_eq!(h.file_name, "name");
}

#[test]
fn empty_buffer_fails_to_decode() {
    let r = TCPHeader::from_string(String::new());
    assert!(matches!(r, Err(HeaderError::MalformedHeader)));
}
