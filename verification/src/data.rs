use vstd::prelude::*;
use vstd::string::*;
use vstd::slice::{slice_index_get, slice_subrange};
use vstd::utf8::{valid_utf8, decode_utf8, encode_utf8, encode_utf8_decode_utf8};
use crate::error::HeaderError;

verus! {

/// The fixed-field header prepended to reliable-data-transfer segments
/// (stop-and-wait and its go-back-n and selective-repeat relatives).
///
/// The first six bytes are three consecutive two-byte fields — the header's
/// own total byte length, the get port and the reliable-transfer port —
/// each stored as the ASCII decimal text of the number in a fixed two-byte
/// slot, not as a binary integer. The file name's UTF-8 bytes fill the rest
/// of the header, up to the declared `header_size`.
pub struct StopAndWaitHeader {
    header_size: u16,
    get_port: u16,
    rdt_port: u16,
    file_name: String,
}

/// Mathematical value of a data header.
pub ghost struct StopAndWaitHeaderView {
    pub header_size: u16,
    pub get_port: u16,
    pub rdt_port: u16,
    pub file_name: Seq<char>,
}

impl View for StopAndWaitHeader {
    type V = StopAndWaitHeaderView;

    closed spec fn view(&self) -> StopAndWaitHeaderView {
        StopAndWaitHeaderView {
            header_size: self.header_size,
            get_port: self.get_port,
            rdt_port: self.rdt_port,
            file_name: self.file_name@,
        }
    }
}

/// Well-formedness of a data header: the declared size is self-describing,
/// the six fixed bytes plus the byte length of the file name's UTF-8
/// encoding.
pub open spec fn spec_wf(h: StopAndWaitHeaderView) -> bool {
    h.header_size == 6 + encode_utf8(h.file_name).len()
}

/// True when `b` is the ASCII code of a decimal digit.
pub open spec fn spec_is_digit_byte(b: u8) -> bool {
    48 <= b <= 57
}

/// Value of one fixed two-byte textual numeric field, accepted as Rust's
/// `u16` string parse accepts two characters: two digits, or a plus sign
/// followed by one digit. Anything else — other bytes, or bytes that are
/// not valid UTF-8 at all — is malformed.
pub open spec fn spec_field(b0: u8, b1: u8) -> Option<u16> {
    if spec_is_digit_byte(b0) && spec_is_digit_byte(b1) {
        Some((((b0 - 48) * 10 + (b1 - 48))) as u16)
    } else if b0 == 43 && spec_is_digit_byte(b1) {
        Some((b1 - 48) as u16)
    } else {
        None
    }
}

/// The decoding of a data-header buffer. It fails — returning no partial
/// value — when the buffer cannot hold the three fixed fields, when any
/// fixed field is not a valid decimal number, when the declared size is
/// below six or exceeds the buffer, or when the file-name bytes are not
/// valid UTF-8.
pub open spec fn spec_data_decode(b: Seq<u8>) -> Option<StopAndWaitHeaderView> {
    if b.len() < 6 {
        None
    } else {
        match (spec_field(b[0], b[1]), spec_field(b[2], b[3]), spec_field(b[4], b[5])) {
            (Some(hs), Some(gp), Some(rp)) => {
                if 6 <= hs && hs <= b.len() {
                    let nb = b.subrange(6, hs as int);
                    if valid_utf8(nb) {
                        Some(
                            StopAndWaitHeaderView {
                                header_size: hs,
                                get_port: gp,
                                rdt_port: rp,
                                file_name: decode_utf8(nb),
                            },
                        )
                    } else {
                        None
                    }
                } else {
                    None
                }
            },
            _ => None,
        }
    }
}

/// Relies on std::str::from_utf8: it succeeds exactly on the byte slices
/// that are valid UTF-8, and the returned string views those very bytes.
#[verifier::external_body]
fn utf8_to_string(bytes: &[u8]) -> (r: Option<String>)
    ensures
        r is Some <==> valid_utf8(bytes@),
        r is Some ==> encode_utf8((r->Some_0)@) == bytes@,
{
    match std::str::from_utf8(bytes) {
        Ok(s) => Some(s.to_owned()),
        Err(_) => None,
    }
}

/// Parses one fixed two-byte textual numeric field.
fn u16_from_bytes(buf: &[u8]) -> (r: Option<u16>)
    requires
        buf@.len() == 2,
    ensures
        r == spec_field(buf@[0], buf@[1]),
{
    let b0 = *slice_index_get(buf, 0);
    let b1 = *slice_index_get(buf, 1);
    if 48 <= b0 && b0 <= 57 && 48 <= b1 && b1 <= 57 {
        Some((b0 - 48) as u16 * 10 + (b1 - 48) as u16)
    } else if b0 == 43 && 48 <= b1 && b1 <= 57 {
        Some((b1 - 48) as u16)
    } else {
        None
    }
}

impl StopAndWaitHeader {
    /// Builds a data header from its four field values.
    pub fn new(header_size: u16, get_port: u16, rdt_port: u16, file_name: String) -> (r:
        StopAndWaitHeader)
        ensures
            r@ == (StopAndWaitHeaderView {
                header_size,
                get_port,
                rdt_port,
                file_name: file_name@,
            }),
    {
        StopAndWaitHeader { header_size, get_port, rdt_port, file_name }
    }

    /// Decodes a data-header buffer, exactly as `spec_data_decode` states:
    /// a buffer too short for the fixed fields, a malformed fixed field, a
    /// declared size outside the buffer, or file-name bytes that are not
    /// UTF-8 all fail, and no partial value escapes. A decoded header is
    /// well formed: its size field describes its own length.
    pub fn from_string(buf: &[u8]) -> (r: Result<StopAndWaitHeader, HeaderError>)
        ensures
            r is Ok <==> spec_data_decode(buf@) is Some,
            r is Ok ==> (r->Ok_0)@ == spec_data_decode(buf@)->Some_0,
            r is Ok ==> spec_wf((r->Ok_0)@),
            r is Err ==> r->Err_0 == HeaderError::MalformedHeader,
    {
        if buf.len() < 6 {
            return Err(HeaderError::MalformedHeader);
        }
        let hs = match u16_from_bytes(slice_subrange(buf, 0, 2)) {
            Some(v) => v,
            None => {
                return Err(HeaderError::MalformedHeader);
            },
        };
        let gp = match u16_from_bytes(slice_subrange(buf, 2, 4)) {
            Some(v) => v,
            None => {
                return Err(HeaderError::MalformedHeader);
            },
        };
        let rp = match u16_from_bytes(slice_subrange(buf, 4, 6)) {
            Some(v) => v,
            None => {
                return Err(HeaderError::MalformedHeader);
            },
        };
        let hs_usize: usize = hs as usize;
        if hs_usize < 6 || hs_usize > buf.len() {
            return Err(HeaderError::MalformedHeader);
        }
        let name_bytes = slice_subrange(buf, 6, hs_usize);
        match utf8_to_string(name_bytes) {
            None => Err(HeaderError::MalformedHeader),
            Some(name) => {
                proof {
                    encode_utf8_decode_utf8(name@);
                    assert(name@ == decode_utf8(buf@.subrange(6, hs as int)));
                }
                Ok(StopAndWaitHeader { header_size: hs, get_port: gp, rdt_port: rp, file_name: name })
            },
        }
    }

    /// Number of bytes a data header for `file_name` occupies on the wire:
    /// the three fixed two-byte fields plus the byte length of the name's
    /// UTF-8 encoding.
    pub fn packet_size(file_name: String) -> (r: usize)
        requires
            encode_utf8(file_name@).len() + 6 <= usize::MAX,
        ensures
            r == 6 + encode_utf8(file_name@).len(),
    {
        6 + file_name.as_str().len()
    }

    /// The declared total byte length of the header.
    pub fn header_size(&self) -> (r: u16)
        ensures
            r == self@.header_size,
    {
        self.header_size
    }

    /// The get port carried by the header.
    pub fn get_port(&self) -> (r: u16)
        ensures
            r == self@.get_port,
    {
        self.get_port
    }

    /// The reliable-transfer port carried by the header.
    pub fn rdt_port(&self) -> (r: u16)
        ensures
            r == self@.rdt_port,
    {
        self.rdt_port
    }

    /// The file name carried by the header.
    pub fn file_name(&self) -> (r: &str)
        ensures
            r@ == self@.file_name,
    {
        self.file_name.as_str()
    }
}

} // verus!
