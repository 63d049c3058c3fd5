use vstd::prelude::*;
use vstd::string::*;
use crate::error::HeaderError;
use crate::packet_kind::{
    PacketHeader, spec_classify, spec_render, spec_has_newline_token,
    lemma_classify_render_roundtrip,
};
use crate::text::{
    spec_lines, spec_parse_u16, spec_u16_digits, split_first_line, parse_u16, u16_to_string,
    spec_first_line, spec_all_digits, spec_is_digit, lemma_line_end_at, lemma_lines_prepend,
    lemma_lines_single, lemma_u16_digits_props, lemma_parse_u16_roundtrip,
};

verus! {

/// The line-oriented control header exchanged over the connection-oriented
/// transport during discovery, handshake and file-request phases.
///
/// On the wire it is three newline-joined fields: the kind's token, the
/// port in decimal, and the file name. Three tokens carry a newline of
/// their own, so their encodings show a blank line between token and port;
/// that artifact is part of the wire format and the decoder consumes it.
pub struct TCPHeader {
    pub conn_type: PacketHeader,
    pub udp_get_port: u16,
    pub file_name: String,
}

/// Mathematical value of a control header.
pub ghost struct TCPHeaderView {
    pub conn_type: PacketHeader,
    pub udp_get_port: u16,
    pub file_name: Seq<char>,
}

impl View for TCPHeader {
    type V = TCPHeaderView;

    open spec fn view(&self) -> TCPHeaderView {
        TCPHeaderView {
            conn_type: self.conn_type,
            udp_get_port: self.udp_get_port,
            file_name: self.file_name@,
        }
    }
}

/// The encoding of a control header: kind token, port in decimal and file
/// name, joined by newlines.
pub open spec fn spec_encode(h: TCPHeaderView) -> Seq<char> {
    spec_render(h.conn_type) + seq!['\n'] + spec_u16_digits(h.udp_get_port as nat) + seq!['\n']
        + h.file_name
}

/// The port taken from line `pi` of a split buffer: a malformed or missing
/// port line degrades to zero rather than failing.
pub open spec fn spec_port_of(ls: Seq<Seq<char>>, pi: int) -> u16 {
    if pi < ls.len() {
        match spec_parse_u16(ls[pi]) {
            Some(v) => v,
            None => 0u16,
        }
    } else {
        0u16
    }
}

/// The file name taken from the line after line `pi` of a split buffer,
/// verbatim; empty when absent.
pub open spec fn spec_name_of(ls: Seq<Seq<char>>, pi: int) -> Seq<char> {
    if pi + 1 < ls.len() {
        ls[pi + 1]
    } else {
        Seq::empty()
    }
}

/// The decoding of a control-header buffer. It fails only when there is no
/// first line to classify (the empty buffer). The first line picks the
/// kind; when that kind's own table token carries a newline (discovery,
/// get, acknowledgement) and the second line is blank — the artifact an
/// encoder of exactly those kinds produces — the blank is consumed. For
/// every other kind, an unrecognized first line included, a blank second
/// line is simply an empty port line. The port line degrades to zero when
/// malformed or missing (a soft default) and the line after it is the file
/// name, verbatim, empty when missing.
pub open spec fn spec_decode(s: Seq<char>) -> Option<TCPHeaderView> {
    if s.len() == 0 {
        None
    } else {
        let ls = spec_lines(s);
        let kind = spec_classify(ls[0]);
        let skip_blank = spec_has_newline_token(kind) && ls.len() >= 2 && ls[1].len() == 0;
        let pi = if skip_blank {
            2int
        } else {
            1int
        };
        Some(
            TCPHeaderView {
                conn_type: kind,
                udp_get_port: spec_port_of(ls, pi),
                file_name: spec_name_of(ls, pi),
            },
        )
    }
}

impl TCPHeader {
    /// Builds a control header from its three field values.
    pub fn new(conn_type: PacketHeader, udp_get_port: u16, file_name: String) -> (r: TCPHeader)
        ensures
            r@ == (TCPHeaderView { conn_type, udp_get_port, file_name: file_name@ }),
    {
        TCPHeader { conn_type, udp_get_port, file_name }
    }

    /// Decodes a control-header buffer.
    ///
    /// Fails only when the buffer is empty, leaving no first line to
    /// classify; every other input decodes, degrading a malformed or
    /// missing port line to zero and a missing file-name line to the empty
    /// string, exactly as `spec_decode` states.
    pub fn from_string(packet: String) -> (r: Result<TCPHeader, HeaderError>)
        ensures
            r is Ok <==> spec_decode(packet@) is Some,
            r is Ok ==> (r->Ok_0)@ == spec_decode(packet@)->Some_0,
            r is Err ==> packet@.len() == 0 && r->Err_0 == HeaderError::MalformedHeader,
    {
        let s = packet.as_str();
        match split_first_line(s) {
            None => Err(HeaderError::MalformedHeader),
            Some(p1) => {
                let ghost ls = spec_lines(s@);
                let ghost rls1 = spec_lines(p1.1@);
                proof {
                    assert(p1.1@ == crate::text::spec_line_rest(s@));
                    assert(ls == seq![p1.0@] + rls1);
                }
                let kind = PacketHeader::packet_type(p1.0);
                proof {
                    assert(kind == spec_classify(ls[0]));
                }
                let ends_nl = match kind {
                    PacketHeader::Disc => true,
                    PacketHeader::GET => true,
                    PacketHeader::GETACK => true,
                    _ => false,
                };
                proof {
                    assert(ends_nl == spec_has_newline_token(kind));
                }
                let pn: (u16, String);
                if ends_nl {
                    match split_first_line(p1.1) {
                        Some(p2) => {
                            if p2.0.unicode_len() == 0 {
                                pn = port_and_name(p2.1);
                                proof {
                                    let rls2 = spec_lines(p2.1@);
                                    assert(rls1 == seq![p2.0@] + rls2);
                                    assert(ls[1] == p2.0@);
                                    assert(ls =~= seq![p1.0@, p2.0@] + rls2);
                                    lemma_shift_two(ls, rls2, p1.0@, p2.0@);
                                }
                            } else {
                                pn = port_and_name(p1.1);
                                proof {
                                    assert(ls[1] == p2.0@);
                                    lemma_shift_one(ls, rls1, p1.0@);
                                }
                            }
                        },
                        None => {
                            pn = port_and_name(p1.1);
                            proof {
                                lemma_shift_one(ls, rls1, p1.0@);
                            }
                        },
                    }
                } else {
                    pn = port_and_name(p1.1);
                    proof {
                        lemma_shift_one(ls, rls1, p1.0@);
                    }
                }
                let r = TCPHeader::new(kind, pn.0, pn.1);
                Ok(r)
            },
        }
    }

    /// Encodes this header for the wire, exactly as `spec_encode` states.
    pub fn to_string(&self) -> (r: String)
        ensures
            r@ == spec_encode(self@),
    {
        let mut out = self.conn_type.render().to_owned();
        out.append("\n");
        let port = u16_to_string(self.udp_get_port);
        out.append(port.as_str());
        out.append("\n");
        out.append(self.file_name.as_str());
        proof {
            reveal_strlit("\n");
            assert(out@ =~= spec_encode(self@));
        }
        out
    }
}

/// Dropping one leading line moves the port and name positions down by
/// one.
proof fn lemma_shift_one(ls: Seq<Seq<char>>, rls: Seq<Seq<char>>, head: Seq<char>)
    requires
        ls == seq![head] + rls,
    ensures
        spec_port_of(ls, 1) == spec_port_of(rls, 0),
        spec_name_of(ls, 1) == spec_name_of(rls, 0),
{
    if rls.len() > 0 {
        assert(ls[1] == rls[0]);
    }
    if rls.len() > 1 {
        assert(ls[2] == rls[1]);
    }
}

/// Dropping two leading lines moves the port and name positions down by
/// two.
proof fn lemma_shift_two(ls: Seq<Seq<char>>, rls: Seq<Seq<char>>, h0: Seq<char>, h1: Seq<char>)
    requires
        ls == seq![h0, h1] + rls,
    ensures
        spec_port_of(ls, 2) == spec_port_of(rls, 0),
        spec_name_of(ls, 2) == spec_name_of(rls, 0),
{
    if rls.len() > 0 {
        assert(ls[2] == rls[0]);
    }
    if rls.len() > 1 {
        assert(ls[3] == rls[1]);
    }
}

/// Reads a port from the first line of `r` and a file name from its second
/// line, with the control decoder's soft defaults.
fn port_and_name(r: &str) -> (pn: (u16, String))
    ensures
        pn.0 == spec_port_of(spec_lines(r@), 0),
        pn.1@ == spec_name_of(spec_lines(r@), 0),
{
    match split_first_line(r) {
        None => {
            let pn = (0u16, String::new());
            pn
        },
        Some(p) => {
            let port = match parse_u16(p.0) {
                Some(v) => v,
                None => 0u16,
            };
            let name = match split_first_line(p.1) {
                None => String::new(),
                Some(q) => q.0.to_owned(),
            };
            proof {
                let rls = spec_lines(r@);
                assert(rls == seq![p.0@] + spec_lines(p.1@));
                assert(rls[0] == p.0@);
                if p.1@.len() > 0 {
                    assert(spec_lines(p.1@)[0] == crate::text::spec_first_line(p.1@));
                    assert(rls[1] == spec_lines(p.1@)[0]);
                }
            }
            (port, name)
        },
    }
}

/// A digit string holds no newline.
proof fn lemma_digits_no_newline(s: Seq<char>)
    requires
        spec_all_digits(s),
    ensures
        forall|i: int| 0 <= i < s.len() ==> s[i] != '\n',
{
    assert forall|i: int| 0 <= i < s.len() implies s[i] != '\n' by {
        assert(spec_is_digit(s[i]));
        if s[i] == '\n' {
            assert(s[i] as u32 == 10);
        }
    }
}

/// Round trip for the kinds whose token carries its own newline: their
/// encodings open with a blank second line, which decoding consumes.
proof fn lemma_decode_encode_nl(h: TCPHeaderView, base: Seq<char>)
    requires
        h.conn_type != PacketHeader::UDPReceiverExistence,
        h.conn_type != PacketHeader::Unrecognized,
        spec_has_newline_token(h.conn_type),
        spec_render(h.conn_type) == base + seq!['\n'],
        forall|i: int| 0 <= i < base.len() ==> base[i] != '\n',
        forall|i: int| 0 <= i < h.file_name.len() ==> h.file_name[i] != '\n',
    ensures
        spec_decode(spec_encode(h)) == Some(h),
{
    let tok = spec_render(h.conn_type);
    let pstr = spec_u16_digits(h.udp_get_port as nat);
    let name = h.file_name;
    let s = spec_encode(h);
    lemma_u16_digits_props(h.udp_get_port as nat);
    lemma_digits_no_newline(pstr);
    let restb = seq!['\n'] + pstr + seq!['\n'] + name;
    assert(s =~= base + seq!['\n'] + restb);
    lemma_lines_prepend(base, restb);
    let restc = pstr + seq!['\n'] + name;
    assert(restb =~= Seq::<char>::empty() + seq!['\n'] + restc);
    lemma_lines_prepend(Seq::<char>::empty(), restc);
    lemma_lines_prepend(pstr, name);
    let ls = spec_lines(s);
    if name.len() > 0 {
        lemma_lines_single(name);
        assert(ls =~= seq![base, Seq::<char>::empty(), pstr, name]);
    } else {
        assert(spec_lines(name) == Seq::<Seq<char>>::empty());
        assert(ls =~= seq![base, Seq::<char>::empty(), pstr]);
    }
    lemma_classify_render_roundtrip(h.conn_type);
    lemma_line_end_at(base, base.len() as int);
    lemma_line_end_at(tok, base.len() as int);
    assert(spec_first_line(base) =~= spec_first_line(tok));
    assert(spec_classify(ls[0]) == h.conn_type);
    lemma_parse_u16_roundtrip(h.udp_get_port);
    assert(spec_port_of(ls, 2) == h.udp_get_port);
    assert(spec_name_of(ls, 2) == h.file_name);
}

/// Round trip for the kinds whose token is raw bytes without a terminator.
proof fn lemma_decode_encode_raw(h: TCPHeaderView)
    requires
        h.conn_type != PacketHeader::UDPReceiverExistence,
        h.conn_type != PacketHeader::Unrecognized,
        !spec_has_newline_token(h.conn_type),
        forall|i: int| 0 <= i < spec_render(h.conn_type).len() ==> spec_render(h.conn_type)[i]
            != '\n',
        forall|i: int| 0 <= i < h.file_name.len() ==> h.file_name[i] != '\n',
    ensures
        spec_decode(spec_encode(h)) == Some(h),
{
    let tok = spec_render(h.conn_type);
    let pstr = spec_u16_digits(h.udp_get_port as nat);
    let name = h.file_name;
    let s = spec_encode(h);
    lemma_u16_digits_props(h.udp_get_port as nat);
    lemma_digits_no_newline(pstr);
    let restc = pstr + seq!['\n'] + name;
    assert(s =~= tok + seq!['\n'] + restc);
    lemma_lines_prepend(tok, restc);
    lemma_lines_prepend(pstr, name);
    let ls = spec_lines(s);
    if name.len() > 0 {
        lemma_lines_single(name);
        assert(ls =~= seq![tok, pstr, name]);
    } else {
        assert(spec_lines(name) == Seq::<Seq<char>>::empty());
        assert(ls =~= seq![tok, pstr]);
    }
    lemma_classify_render_roundtrip(h.conn_type);
    assert(spec_classify(ls[0]) == h.conn_type);
    lemma_parse_u16_roundtrip(h.udp_get_port);
    assert(spec_port_of(ls, 1) == h.udp_get_port);
    assert(spec_name_of(ls, 1) == h.file_name);
}

/// Round trip of the control codec: decoding an encoded header recovers
/// kind, port and file name exactly, for every kind with an entry in the
/// token table and every file name free of newlines.
///
/// The two kinds without a table entry encode as the discovery token and so
/// decode as `Disc`; a file name holding a newline is cut at it. Neither
/// input is a well-formed control header, so both stay outside this law.
pub proof fn lemma_decode_encode_roundtrip(h: TCPHeaderView)
    requires
        h.conn_type != PacketHeader::UDPReceiverExistence,
        h.conn_type != PacketHeader::Unrecognized,
        forall|i: int| 0 <= i < h.file_name.len() ==> h.file_name[i] != '\n',
    ensures
        spec_decode(spec_encode(h)) == Some(h),
{
    match h.conn_type {
        PacketHeader::Disc => {
            assert(spec_render(h.conn_type) =~= seq!['D', 'I', 'S', 'C'] + seq!['\n']);
            lemma_decode_encode_nl(h, seq!['D', 'I', 'S', 'C']);
        },
        PacketHeader::GET => {
            assert(spec_render(h.conn_type) =~= seq!['G', 'E', 'T'] + seq!['\n']);
            lemma_decode_encode_nl(h, seq!['G', 'E', 'T']);
        },
        PacketHeader::GETACK => {
            assert(spec_render(h.conn_type) =~= seq!['A', 'C', 'K'] + seq!['\n']);
            lemma_decode_encode_nl(h, seq!['A', 'C', 'K']);
        },
        _ => {
            lemma_decode_encode_raw(h);
        },
    }
}

} // verus!
