use vstd::prelude::*;
use vstd::string::*;
use crate::text::{spec_first_line, split_first_line, str_starts_with};

verus! {

/// The kind of a packet, classified from the leading bytes of a buffer.
///
/// `Unrecognized` is a first-class outcome, not an error: classification is
/// total and falls back to it when no token matches. `UDPReceiverExistence`
/// has no token in the current table, so it is never produced by
/// classification; collaborators may still construct it directly.
#[derive(Clone, Copy, PartialEq, Eq, Structural, Debug)]
pub enum PacketHeader {
    Disc,
    GET,
    GETACK,
    TCPReceiverExistence,
    UDPReceiverExistence,
    StopWaitData,
    StopWaitACK,
    StopWaitNAK,
    GoBackN,
    SRepeat,
    Unrecognized,
}

/// Canonical token for discovery packets. The trailing newline is part of
/// the token: it is matched against the first line of text input.
pub open spec fn discovery_token() -> Seq<char> {
    seq!['D', 'I', 'S', 'C', '\n']
}

/// Canonical token for file-request (get) packets, newline included.
pub open spec fn get_token() -> Seq<char> {
    seq!['G', 'E', 'T', '\n']
}

/// Canonical token for acknowledgement packets, newline included.
pub open spec fn ack_token() -> Seq<char> {
    seq!['A', 'C', 'K', '\n']
}

/// Canonical token announcing a TCP receiver's existence (raw bytes, no
/// terminator).
pub open spec fn tcp_get_token() -> Seq<char> {
    seq!['T', 'C', 'P', 'G', 'E', 'T']
}

/// Canonical token for stop-and-wait data segments.
pub open spec fn stop_wait_data_token() -> Seq<char> {
    seq!['S', 'W', 'D']
}

/// Canonical token for stop-and-wait acknowledgements.
pub open spec fn stop_wait_ack_token() -> Seq<char> {
    seq!['S', 'W', 'A']
}

/// Canonical token for stop-and-wait negative acknowledgements.
pub open spec fn stop_wait_nak_token() -> Seq<char> {
    seq!['S', 'W', 'N']
}

/// Canonical token for go-back-n data segments.
pub open spec fn go_back_n_token() -> Seq<char> {
    seq!['G', 'B', 'N']
}

/// Canonical token for selective-repeat data segments.
pub open spec fn selective_repeat_token() -> Seq<char> {
    seq!['S', 'R']
}

/// The token table in priority order: classification tries each entry in
/// turn and the first match wins.
pub open spec fn spec_token_table() -> Seq<(PacketHeader, Seq<char>)> {
    seq![
        (PacketHeader::Disc, discovery_token()),
        (PacketHeader::GET, get_token()),
        (PacketHeader::GETACK, ack_token()),
        (PacketHeader::TCPReceiverExistence, tcp_get_token()),
        (PacketHeader::StopWaitData, stop_wait_data_token()),
        (PacketHeader::StopWaitACK, stop_wait_ack_token()),
        (PacketHeader::StopWaitNAK, stop_wait_nak_token()),
        (PacketHeader::GoBackN, go_back_n_token()),
        (PacketHeader::SRepeat, selective_repeat_token()),
    ]
}

/// Classification of a buffer: its first line, re-terminated with a
/// newline, is prefix-matched against each token in priority order; no
/// match at all falls back to `Unrecognized`. Total over every input.
pub open spec fn spec_classify(s: Seq<char>) -> PacketHeader {
    let h = spec_first_line(s) + seq!['\n'];
    if discovery_token().is_prefix_of(h) {
        PacketHeader::Disc
    } else if get_token().is_prefix_of(h) {
        PacketHeader::GET
    } else if ack_token().is_prefix_of(h) {
        PacketHeader::GETACK
    } else if tcp_get_token().is_prefix_of(h) {
        PacketHeader::TCPReceiverExistence
    } else if stop_wait_data_token().is_prefix_of(h) {
        PacketHeader::StopWaitData
    } else if stop_wait_ack_token().is_prefix_of(h) {
        PacketHeader::StopWaitACK
    } else if stop_wait_nak_token().is_prefix_of(h) {
        PacketHeader::StopWaitNAK
    } else if go_back_n_token().is_prefix_of(h) {
        PacketHeader::GoBackN
    } else if selective_repeat_token().is_prefix_of(h) {
        PacketHeader::SRepeat
    } else {
        PacketHeader::Unrecognized
    }
}

/// The canonical token each kind renders to on the wire. The two kinds
/// without a table entry (`UDPReceiverExistence`, `Unrecognized`)
/// deliberately render as the discovery token, the protocol's default.
pub open spec fn spec_render(k: PacketHeader) -> Seq<char> {
    match k {
        PacketHeader::Disc => discovery_token(),
        PacketHeader::GET => get_token(),
        PacketHeader::GETACK => ack_token(),
        PacketHeader::TCPReceiverExistence => tcp_get_token(),
        PacketHeader::UDPReceiverExistence => discovery_token(),
        PacketHeader::StopWaitData => stop_wait_data_token(),
        PacketHeader::StopWaitACK => stop_wait_ack_token(),
        PacketHeader::StopWaitNAK => stop_wait_nak_token(),
        PacketHeader::GoBackN => go_back_n_token(),
        PacketHeader::SRepeat => selective_repeat_token(),
        PacketHeader::Unrecognized => discovery_token(),
    }
}

/// True for the kinds whose own table entry carries a newline. Only their
/// encodings show a blank line between token and port; the fallback kinds
/// render as the discovery token but have no entry of their own, so no
/// encoder legitimately produces that artifact for them.
pub open spec fn spec_has_newline_token(k: PacketHeader) -> bool {
    k == PacketHeader::Disc || k == PacketHeader::GET || k == PacketHeader::GETACK
}

impl PacketHeader {
    /// Token for discovery packets ("DISC" plus its newline).
    pub fn discovery() -> (r: &'static str)
        ensures
            r@ == discovery_token(),
    {
        let r = "DISC\n";
        proof {
            reveal_strlit("DISC\n");
            assert(r@ =~= discovery_token());
        }
        r
    }

    /// Token for acknowledgement packets, newline included.
    pub fn ack() -> (r: &'static str)
        ensures
            r@ == ack_token(),
    {
        let r = "ACK\n";
        proof {
            reveal_strlit("ACK\n");
            assert(r@ =~= ack_token());
        }
        r
    }

    /// Token for file-request packets, newline included.
    pub fn get() -> (r: &'static str)
        ensures
            r@ == get_token(),
    {
        let r = "GET\n";
        proof {
            reveal_strlit("GET\n");
            assert(r@ =~= get_token());
        }
        r
    }

    /// Token for stop-and-wait data segments (raw bytes, no terminator).
    pub fn stop_and_wait_data() -> (r: &'static str)
        ensures
            r@ == stop_wait_data_token(),
    {
        let r = "SWD";
        proof {
            reveal_strlit("SWD");
            assert(r@ =~= stop_wait_data_token());
        }
        r
    }

    /// Token for stop-and-wait acknowledgements.
    pub fn stop_and_wait_ack() -> (r: &'static str)
        ensures
            r@ == stop_wait_ack_token(),
    {
        let r = "SWA";
        proof {
            reveal_strlit("SWA");
            assert(r@ =~= stop_wait_ack_token());
        }
        r
    }

    /// Token for stop-and-wait negative acknowledgements.
    pub fn stop_and_wait_nak() -> (r: &'static str)
        ensures
            r@ == stop_wait_nak_token(),
    {
        let r = "SWN";
        proof {
            reveal_strlit("SWN");
            assert(r@ =~= stop_wait_nak_token());
        }
        r
    }

    /// Token for go-back-n data segments.
    pub fn go_back_n() -> (r: &'static str)
        ensures
            r@ == go_back_n_token(),
    {
        let r = "GBN";
        proof {
            reveal_strlit("GBN");
            assert(r@ =~= go_back_n_token());
        }
        r
    }

    /// Token for selective-repeat data segments.
    pub fn selective_repeat() -> (r: &'static str)
        ensures
            r@ == selective_repeat_token(),
    {
        let r = "SR";
        proof {
            reveal_strlit("SR");
            assert(r@ =~= selective_repeat_token());
        }
        r
    }

    /// Token announcing a TCP receiver's existence.
    pub fn tcp_get() -> (r: &'static str)
        ensures
            r@ == tcp_get_token(),
    {
        let r = "TCPGET";
        proof {
            reveal_strlit("TCPGET");
            assert(r@ =~= tcp_get_token());
        }
        r
    }

    /// Classifies a buffer into its packet kind.
    ///
    /// Total over every input, the empty string included: a buffer no token
    /// matches classifies as `Unrecognized` rather than failing.
    pub fn packet_type(packet_str: &str) -> (k: PacketHeader)
        ensures
            k == spec_classify(packet_str@),
    {
        let line: &str = match split_first_line(packet_str) {
            Some(p) => p.0,
            None => "",
        };
        proof {
            reveal_strlit("");
            assert(line@ == spec_first_line(packet_str@));
            reveal_strlit("\n");
        }
        let header = line.to_owned().concat("\n");
        proof {
            assert(header@ =~= spec_first_line(packet_str@) + seq!['\n']);
        }
        let h = header.as_str();
        if str_starts_with(h, PacketHeader::discovery()) {
            PacketHeader::Disc
        } else if str_starts_with(h, PacketHeader::get()) {
            PacketHeader::GET
        } else if str_starts_with(h, PacketHeader::ack()) {
            PacketHeader::GETACK
        } else if str_starts_with(h, PacketHeader::tcp_get()) {
            PacketHeader::TCPReceiverExistence
        } else if str_starts_with(h, PacketHeader::stop_and_wait_data()) {
            PacketHeader::StopWaitData
        } else if str_starts_with(h, PacketHeader::stop_and_wait_ack()) {
            PacketHeader::StopWaitACK
        } else if str_starts_with(h, PacketHeader::stop_and_wait_nak()) {
            PacketHeader::StopWaitNAK
        } else if str_starts_with(h, PacketHeader::go_back_n()) {
            PacketHeader::GoBackN
        } else if str_starts_with(h, PacketHeader::selective_repeat()) {
            PacketHeader::SRepeat
        } else {
            PacketHeader::Unrecognized
        }
    }

    /// Canonical token for this kind, as sent on the wire.
    ///
    /// The match is deliberately exhaustive: the two kinds that have no
    /// entry in the token table render as the discovery token, the
    /// protocol's chosen default.
    pub fn render(&self) -> (r: &'static str)
        ensures
            r@ == spec_render(*self),
    {
        match self {
            PacketHeader::Disc => PacketHeader::discovery(),
            PacketHeader::GET => PacketHeader::get(),
            PacketHeader::GETACK => PacketHeader::ack(),
            PacketHeader::TCPReceiverExistence => PacketHeader::tcp_get(),
            PacketHeader::UDPReceiverExistence => PacketHeader::discovery(),
            PacketHeader::StopWaitData => PacketHeader::stop_and_wait_data(),
            PacketHeader::StopWaitACK => PacketHeader::stop_and_wait_ack(),
            PacketHeader::StopWaitNAK => PacketHeader::stop_and_wait_nak(),
            PacketHeader::GoBackN => PacketHeader::go_back_n(),
            PacketHeader::SRepeat => PacketHeader::selective_repeat(),
            PacketHeader::Unrecognized => PacketHeader::discovery(),
        }
    }
}

/// Two sequences that differ at some index are not in the prefix relation.
proof fn lemma_not_prefix_at(t: Seq<char>, h: Seq<char>, i: int)
    requires
        0 <= i < t.len(),
        i < h.len(),
        t[i] != h[i],
    ensures
        !t.is_prefix_of(h),
{
    if t.is_prefix_of(h) {
        assert(t[i] == h.subrange(0, t.len() as int)[i]);
    }
}

/// Rendering a kind that has a table entry and classifying the result
/// recovers the kind: the token table is free of ambiguity under the fixed
/// priority order.
pub proof fn lemma_classify_render_roundtrip(k: PacketHeader)
    requires
        k != PacketHeader::UDPReceiverExistence,
        k != PacketHeader::Unrecognized,
    ensures
        spec_classify(spec_render(k)) == k,
{
    let t = spec_render(k);
    let h = spec_first_line(t) + seq!['\n'];
    match k {
        PacketHeader::Disc => {
            crate::text::lemma_line_end_at(t, 4);
            assert(h =~= t);
            assert(discovery_token() =~= h.subrange(0, 5));
        },
        PacketHeader::GET => {
            crate::text::lemma_line_end_at(t, 3);
            assert(h =~= t);
            assert(get_token() =~= h.subrange(0, 4));
        },
        PacketHeader::GETACK => {
            crate::text::lemma_line_end_at(t, 3);
            assert(h =~= t);
            lemma_not_prefix_at(get_token(), h, 0);
            assert(ack_token() =~= h.subrange(0, 4));
        },
        PacketHeader::TCPReceiverExistence => {
            crate::text::lemma_line_end_at(t, 6);
            assert(h =~= t + seq!['\n']);
            lemma_not_prefix_at(discovery_token(), h, 0);
            lemma_not_prefix_at(get_token(), h, 0);
            lemma_not_prefix_at(ack_token(), h, 0);
            assert(tcp_get_token() =~= h.subrange(0, 6));
        },
        PacketHeader::StopWaitData => {
            crate::text::lemma_line_end_at(t, 3);
            assert(h =~= t + seq!['\n']);
            lemma_not_prefix_at(ack_token(), h, 0);
            assert(stop_wait_data_token() =~= h.subrange(0, 3));
        },
        PacketHeader::StopWaitACK => {
            crate::text::lemma_line_end_at(t, 3);
            assert(h =~= t + seq!['\n']);
            lemma_not_prefix_at(ack_token(), h, 0);
            lemma_not_prefix_at(stop_wait_data_token(), h, 2);
            assert(stop_wait_ack_token() =~= h.subrange(0, 3));
        },
        PacketHeader::StopWaitNAK => {
            crate::text::lemma_line_end_at(t, 3);
            assert(h =~= t + seq!['\n']);
            lemma_not_prefix_at(ack_token(), h, 0);
            lemma_not_prefix_at(stop_wait_data_token(), h, 2);
            lemma_not_prefix_at(stop_wait_ack_token(), h, 2);
            assert(stop_wait_nak_token() =~= h.subrange(0, 3));
        },
        PacketHeader::GoBackN => {
            crate::text::lemma_line_end_at(t, 3);
            assert(h =~= t + seq!['\n']);
            lemma_not_prefix_at(get_token(), h, 1);
            lemma_not_prefix_at(ack_token(), h, 0);
            lemma_not_prefix_at(stop_wait_data_token(), h, 0);
            lemma_not_prefix_at(stop_wait_ack_token(), h, 0);
            lemma_not_prefix_at(stop_wait_nak_token(), h, 0);
            assert(go_back_n_token() =~= h.subrange(0, 3));
        },
        PacketHeader::SRepeat => {
            crate::text::lemma_line_end_at(t, 2);
            assert(h =~= t + seq!['\n']);
            lemma_not_prefix_at(ack_token(), h, 0);
            lemma_not_prefix_at(stop_wait_data_token(), h, 1);
            lemma_not_prefix_at(stop_wait_ack_token(), h, 1);
            lemma_not_prefix_at(stop_wait_nak_token(), h, 1);
            lemma_not_prefix_at(go_back_n_token(), h, 0);
            assert(selective_repeat_token() =~= h.subrange(0, 2));
        },
        _ => {},
    }
}

/// Classification respects the table's priority order: when the token at
/// position `i` matches the newline-terminated first line of `s` and no
/// earlier token does, classification returns exactly that entry's kind —
/// the earliest matching entry always wins.
pub proof fn lemma_classify_priority(s: Seq<char>, i: int)
    requires
        0 <= i < spec_token_table().len(),
        spec_token_table()[i].1.is_prefix_of(spec_first_line(s) + seq!['\n']),
        forall|j: int| 0 <= j < i ==> !spec_token_table()[j].1.is_prefix_of(
            spec_first_line(s) + seq!['\n'],
        ),
    ensures
        spec_classify(s) == spec_token_table()[i].0,
{
    let h = spec_first_line(s) + seq!['\n'];
    if i >= 1 {
        assert(!spec_token_table()[0].1.is_prefix_of(h));
    }
    if i >= 2 {
        assert(!spec_token_table()[1].1.is_prefix_of(h));
    }
    if i >= 3 {
        assert(!spec_token_table()[2].1.is_prefix_of(h));
    }
    if i >= 4 {
        assert(!spec_token_table()[3].1.is_prefix_of(h));
    }
    if i >= 5 {
        assert(!spec_token_table()[4].1.is_prefix_of(h));
    }
    if i >= 6 {
        assert(!spec_token_table()[5].1.is_prefix_of(h));
    }
    if i >= 7 {
        assert(!spec_token_table()[6].1.is_prefix_of(h));
    }
    if i >= 8 {
        assert(!spec_token_table()[7].1.is_prefix_of(h));
    }
}

} // verus!
