use header_codec::packet_kind::PacketHeader;
use header_codec::stdin_command::StdinHeader;

#[test]
fn tokens_are_canonical() {
    assert_eq!(PacketHeader::discovery(), "DISC\n");
    assert_eq!(PacketHeader::get(), "GET\n");
    assert_eq!(PacketHeader::ack(), "ACK\n");
    assert_eq!(PacketHeader::tcp_get(), "TCPGET");
    assert_eq!(PacketHeader::stop_and_wait_data(), "SWD");
    assert_eq!(PacketHeader::stop_and_wait_ack(), "SWA");
    assert_eq!(PacketHeader::stop_and_wait_nak(), "SWN");
    assert_eq!(PacketHeader::go_back_n(), "GBN");
    assert_eq!(PacketHeader::selective_repeat(), "SR");
}

#[test]
fn classify_render_round_trips_all_mapped_kinds() {
    let kinds = [
        PacketHeader::Disc,
        PacketHeader::GET,
        PacketHeader::GETACK,
        PacketHeader::TCPReceiverExistence,
        PacketHeader::StopWaitData,
        PacketHeader::StopWaitACK,
        PacketHeader::StopWaitNAK,
        PacketHeader::GoBackN,
        PacketHeader::SRepeat,
    ];
    for k in kinds {
        assert_eq!(PacketHeader::packet_type(k.render()), k);
    }
}

#[test]
fn unmapped_kinds_render_as_discovery() {
    assert_eq!(PacketHeader::UDPReceiverExistence.render(), "DISC\n");
    assert_eq!(PacketHeader::Unrecognized.render(), "DISC\n");
}

#[test]
fn classify_never_fails_on_edge_inputs() {
    assert_eq!(PacketHeader::packet_type(""), PacketHeader::Unrecognized);
    assert_eq!(PacketHeader::packet_type("\n"), PacketHeader::Unrecognized);
    assert_eq!(
        PacketHeader::packet_type("no newline at all"),
        PacketHeader::Unrecognized
    );
    assert_eq!(PacketHeader::packet_type("DISCX"), PacketHeader::Unrecognized);
    assert_eq!(PacketHeader::packet_type("SW"), PacketHeader::Unrecognized);
}

#[test]
fn classify_matches_first_line_with_newline_reappended() {
    assert_eq!(PacketHeader::packet_type("DISC"), PacketHeader::Disc);
    assert_eq!(PacketHeader::packet_type("DISC\npayload"), PacketHeader::Disc);
    assert_eq!(PacketHeader::packet_type("GET"), PacketHeader::GET);
    assert_eq!(PacketHeader::packet_type("ACK\nrest"), PacketHeader::GETACK);
    assert_eq!(
        PacketHeader::packet_type("TCPGET and more"),
        PacketHeader::TCPReceiverExistence
    );
    assert_eq!(PacketHeader::packet_type("SWD123"), PacketHeader::StopWaitData);
    assert_eq!(PacketHeader::packet_type("GBN77\nx"), PacketHeader::GoBackN);
}

#[test]
fn classification_priority_resolves_shared_prefixes() {
    // The stop-and-wait tokens share the prefix "SW" and the selective
    // repeat token shares their first byte; each buffer must resolve to
    // the earliest entry of the priority order that matches it.
    assert_eq!(PacketHeader::packet_type("SWD"), PacketHeader::StopWaitData);
    assert_eq!(PacketHeader::packet_type("SWA"), PacketHeader::StopWaitACK);
    assert_eq!(PacketHeader::packet_type("SWN"), PacketHeader::StopWaitNAK);
    assert_eq!(PacketHeader::packet_type("SR"), PacketHeader::SRepeat);
    assert_eq!(PacketHeader::packet_type("SRX"), PacketHeader::SRepeat);
    // "GET\n" wins over any later token even when more text follows.
    assert_eq!(PacketHeader::packet_type("GET\nGBN"), PacketHeader::GET);
}

#[test]
fn stdin_tokens_are_canonical() {
    assert_eq!(StdinHeader::get(), "get");
    assert_eq!(StdinHeader::list(), "list");
    let commands = [StdinHeader::LIST, StdinHeader::GET];
    assert_eq!(commands.len(), 2);
}
