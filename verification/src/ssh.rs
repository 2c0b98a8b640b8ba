//! Decoders for the line- and banner-oriented secure-shell protocol: the
//! version banner, the binary record header, the key-exchange packet with
//! its algorithm lists, and the hash-derived fingerprint computed from
//! those lists.
//!
//! Every decoder consumes a byte span and either returns the decoded
//! structure together with the unconsumed remainder, or fails with
//! `Incomplete` (more bytes needed) or `Malformed` (grammar violated).
//! Length-prefixed fields are bounds-checked before any slicing, so no
//! decoder reads past the provided span or panics on adversarial input.

use crate::ParseError;
use vstd::prelude::*;

verus! {

use vstd::slice::{slice_subrange, slice_to_vec};

/// Message codes carried in the record header of the transport layer.
#[derive(PartialEq, Eq, Copy, Clone, Debug, Structural)]
pub enum MessageCode {
    SshMsgDisconnect,
    SshMsgIgnore,
    SshMsgUnimplemented,
    SshMsgDebug,
    SshMsgServiceRequest,
    SshMsgServiceAccept,
    SshMsgKexinit,
    SshMsgNewKeys,
    SshMsgKexdhInit,
    SshMsgKexdhReply,
    SshMsgUndefined,
}

/// The message code a wire byte denotes, or `SshMsgUndefined` for a byte
/// outside the assignment.
pub open spec fn spec_message_code(v: u8) -> MessageCode {
    if v == 1 {
        MessageCode::SshMsgDisconnect
    } else if v == 2 {
        MessageCode::SshMsgIgnore
    } else if v == 3 {
        MessageCode::SshMsgUnimplemented
    } else if v == 4 {
        MessageCode::SshMsgDebug
    } else if v == 5 {
        MessageCode::SshMsgServiceRequest
    } else if v == 6 {
        MessageCode::SshMsgServiceAccept
    } else if v == 20 {
        MessageCode::SshMsgKexinit
    } else if v == 21 {
        MessageCode::SshMsgNewKeys
    } else if v == 30 {
        MessageCode::SshMsgKexdhInit
    } else if v == 31 {
        MessageCode::SshMsgKexdhReply
    } else {
        MessageCode::SshMsgUndefined
    }
}

/// Convert a wire byte into its message code.
pub fn message_code_from_u8(v: u8) -> (r: MessageCode)
    ensures
        r == spec_message_code(v),
{
    match v {
        1 => MessageCode::SshMsgDisconnect,
        2 => MessageCode::SshMsgIgnore,
        3 => MessageCode::SshMsgUnimplemented,
        4 => MessageCode::SshMsgDebug,
        5 => MessageCode::SshMsgServiceRequest,
        6 => MessageCode::SshMsgServiceAccept,
        20 => MessageCode::SshMsgKexinit,
        21 => MessageCode::SshMsgNewKeys,
        30 => MessageCode::SshMsgKexdhInit,
        31 => MessageCode::SshMsgKexdhReply,
        _ => MessageCode::SshMsgUndefined,
    }
}

/// True of bytes that do not terminate a text line.
pub fn is_not_lineend(b: u8) -> (r: bool)
    ensures
        r == (b != 10 && b != 13),
{
    if b == 10 || b == 13 {
        return false;
    }
    return true;
}

/// The index of the first line-terminating byte at or after `i`, or the
/// length when none remains.
pub open spec fn first_lineend_index(s: Seq<u8>, i: int) -> int
    decreases s.len() - i,
{
    if i >= s.len() {
        s.len() as int
    } else if s[i] == 10 || s[i] == 13 {
        i
    } else {
        first_lineend_index(s, i + 1)
    }
}

/// What `ssh_parse_line` returns: the line before the first terminator and
/// the index the remainder starts at. A line ends at a lone LF, at CRLF, or
/// at a bare CR followed by more data; a span with no terminator, or ending
/// in a bare CR, is incomplete (the CR may be half of a CRLF still in
/// flight).
pub open spec fn spec_parse_line(s: Seq<u8>) -> Result<(Seq<u8>, int), ParseError> {
    let i = first_lineend_index(s, 0);
    if i == s.len() {
        Err(ParseError::Incomplete)
    } else if s[i] == 10 {
        Ok((s.subrange(0, i), i + 1))
    } else if i + 1 == s.len() {
        Err(ParseError::Incomplete)
    } else if s[i + 1] == 10 {
        Ok((s.subrange(0, i), i + 2))
    } else {
        Ok((s.subrange(0, i), i + 1))
    }
}

/// Split one text line off the front of `input`, returning the remainder
/// and the line (without its terminator).
pub fn ssh_parse_line<'a>(input: &'a [u8]) -> (r: Result<(&'a [u8], &'a [u8]), ParseError>)
    ensures
        match r {
            Ok(p) => {
                &&& spec_parse_line(input@) matches Ok(q)
                &&& p.1@ == q.0
                &&& p.0@ == input@.subrange(q.1, input@.len() as int)
            },
            Err(e) => spec_parse_line(input@) == Err::<(Seq<u8>, int), ParseError>(e),
        },
{
    let mut i: usize = 0;
    while i < input.len() && input[i] != 10 && input[i] != 13
        invariant
            0 <= i <= input@.len(),
            first_lineend_index(input@, 0) == first_lineend_index(input@, i as int),
        decreases input@.len() - i,
    {
        i = i + 1;
    }
    assert(first_lineend_index(input@, i as int) == i);
    if i == input.len() {
        return Err(ParseError::Incomplete);
    }
    let line = slice_subrange(input, 0, i);
    if input[i] == 10 {
        return Ok((slice_subrange(input, i + 1, input.len()), line));
    }
    if i + 1 == input.len() {
        return Err(ParseError::Incomplete);
    }
    if input[i + 1] == 10 {
        return Ok((slice_subrange(input, i + 2, input.len()), line));
    }
    Ok((slice_subrange(input, i + 1, input.len()), line))
}

/// The protocol-version and software-version fields of a banner line.
#[derive(PartialEq, Eq, Debug, Clone)]
pub struct SshBanner {
    pub protover: Vec<u8>,
    pub swver: Vec<u8>,
}

/// The index of the first `-` at or after `i`, or the length when none
/// remains.
pub open spec fn first_minus_index(s: Seq<u8>, i: int) -> int
    decreases s.len() - i,
{
    if i >= s.len() {
        s.len() as int
    } else if s[i] == 45 {
        i
    } else {
        first_minus_index(s, i + 1)
    }
}

/// The index of the first space, CR or LF at or after `i`, or the length
/// when none remains.
pub open spec fn first_sw_delim_index(s: Seq<u8>, i: int) -> int
    decreases s.len() - i,
{
    if i >= s.len() {
        s.len() as int
    } else if s[i] == 32 || s[i] == 13 || s[i] == 10 {
        i
    } else {
        first_sw_delim_index(s, i + 1)
    }
}

/// The banner tag bytes `SSH-`.
pub open spec fn spec_banner_tag() -> Seq<u8> {
    seq![83u8, 83u8, 72u8, 45u8]
}

/// What `ssh_parse_banner` returns: after the `SSH-` tag, the protocol
/// version runs to the next `-` (at least one byte, and incomplete while no
/// `-` has arrived), and the software version runs to the next space, CR or
/// LF, or — when the delimiter comes first or never — takes the whole
/// remainder. The second component is the index the remainder starts at.
pub open spec fn spec_parse_banner(s: Seq<u8>) -> Result<((Seq<u8>, Seq<u8>), int), ParseError> {
    if s.len() < 4 {
        if s == spec_banner_tag().subrange(0, s.len() as int) {
            Err(ParseError::Incomplete)
        } else {
            Err(ParseError::Malformed)
        }
    } else if s.subrange(0, 4) != spec_banner_tag() {
        Err(ParseError::Malformed)
    } else {
        let i = first_minus_index(s, 4);
        if i == s.len() {
            Err(ParseError::Incomplete)
        } else if i == 4 {
            Err(ParseError::Malformed)
        } else {
            let p = i + 1;
            let k = first_sw_delim_index(s, p);
            if k == s.len() || k == p {
                Ok(((s.subrange(4, i), s.subrange(p, s.len() as int)), s.len() as int))
            } else {
                Ok(((s.subrange(4, i), s.subrange(p, k)), k))
            }
        }
    }
}

/// Decode a banner: the `SSH-` tag, the protocol version up to a `-`, and
/// the software version up to a space or line end (trailing comments are
/// not consumed here).
pub fn ssh_parse_banner<'a>(input: &'a [u8]) -> (r: Result<(&'a [u8], SshBanner), ParseError>)
    ensures
        match r {
            Ok(p) => {
                &&& spec_parse_banner(input@) matches Ok(q)
                &&& p.1.protover@ == q.0.0
                &&& p.1.swver@ == q.0.1
                &&& p.0@ == input@.subrange(q.1, input@.len() as int)
            },
            Err(e) => spec_parse_banner(input@) == Err::<((Seq<u8>, Seq<u8>), int), ParseError>(e),
        },
{
    if input.len() < 4 {
        let mut ok = true;
        if input.len() > 0 && input[0] != 83 {
            ok = false;
        }
        if input.len() > 1 && input[1] != 83 {
            ok = false;
        }
        if input.len() > 2 && input[2] != 72 {
            ok = false;
        }
        if ok {
            assert(input@ =~= spec_banner_tag().subrange(0, input@.len() as int));
            return Err(ParseError::Incomplete);
        } else {
            assert(input@ != spec_banner_tag().subrange(0, input@.len() as int));
            return Err(ParseError::Malformed);
        }
    }
    if input[0] != 83 || input[1] != 83 || input[2] != 72 || input[3] != 45 {
        assert(input@.subrange(0, 4) != spec_banner_tag());
        return Err(ParseError::Malformed);
    }
    assert(input@.subrange(0, 4) =~= spec_banner_tag());
    let mut i: usize = 4;
    while i < input.len() && input[i] != 45
        invariant
            4 <= i <= input@.len(),
            first_minus_index(input@, 4) == first_minus_index(input@, i as int),
        decreases input@.len() - i,
    {
        i = i + 1;
    }
    assert(first_minus_index(input@, i as int) == i);
    if i == input.len() {
        return Err(ParseError::Incomplete);
    }
    if i == 4 {
        return Err(ParseError::Malformed);
    }
    let p = i + 1;
    let mut k: usize = p;
    while k < input.len() && input[k] != 32 && input[k] != 13 && input[k] != 10
        invariant
            p <= k <= input@.len(),
            first_sw_delim_index(input@, p as int) == first_sw_delim_index(input@, k as int),
        decreases input@.len() - k,
    {
        k = k + 1;
    }
    assert(first_sw_delim_index(input@, k as int) == k);
    let protover = slice_to_vec(slice_subrange(input, 4, i));
    if k == input.len() || k == p {
        let swver = slice_to_vec(slice_subrange(input, p, input.len()));
        let rest = slice_subrange(input, input.len(), input.len());
        Ok((rest, SshBanner { protover, swver }))
    } else {
        let swver = slice_to_vec(slice_subrange(input, p, k));
        let rest = slice_subrange(input, k, input.len());
        Ok((rest, SshBanner { protover, swver }))
    }
}

/// The big-endian 32-bit value at offset `i` of `s`.
pub open spec fn be_u32_at(s: Seq<u8>, i: int) -> u32
    recommends
        0 <= i,
        i + 4 <= s.len(),
{
    ((s[i] as int) * 0x1000000 + (s[i + 1] as int) * 0x10000 + (s[i + 2] as int) * 0x100 + (s[i
        + 3] as int)) as u32
}

/// Read a big-endian 32-bit value at offset `i`.
fn read_be_u32(s: &[u8], i: usize) -> (r: u32)
    requires
        i + 4 <= s@.len(),
    ensures
        r == be_u32_at(s@, i as int),
{
    (s[i] as u32) * 0x1000000 + (s[i + 1] as u32) * 0x10000 + (s[i + 2] as u32) * 0x100 + (s[i
        + 3] as u32)
}

/// The record header of the transport layer: a packet length, a padding
/// length, and the code of the first message byte.
#[derive(PartialEq, Eq, Debug, Clone, Copy, Structural)]
pub struct SshRecordHeader {
    pub pkt_len: u32,
    pub padding_len: u8,
    pub msg_code: MessageCode,
}

/// What `ssh_parse_record_header` returns: with fewer than six bytes the
/// span is incomplete; a declared packet length of at most one is
/// malformed; otherwise the three header fields, with six bytes consumed.
pub open spec fn spec_parse_record_header(s: Seq<u8>) -> Result<SshRecordHeader, ParseError> {
    if s.len() < 6 {
        Err(ParseError::Incomplete)
    } else if be_u32_at(s, 0) <= 1 {
        Err(ParseError::Malformed)
    } else {
        Ok(
            SshRecordHeader {
                pkt_len: be_u32_at(s, 0),
                padding_len: s[4],
                msg_code: spec_message_code(s[5]),
            },
        )
    }
}

/// Decode a record header. For all spans shorter than the fixed header
/// length the result is `Incomplete`, never `Malformed`.
pub fn ssh_parse_record_header<'a>(input: &'a [u8]) -> (r: Result<
    (&'a [u8], SshRecordHeader),
    ParseError,
>)
    ensures
        match r {
            Ok(p) => {
                &&& spec_parse_record_header(input@) == Ok::<SshRecordHeader, ParseError>(p.1)
                &&& p.0@ == input@.subrange(6, input@.len() as int)
            },
            Err(e) => spec_parse_record_header(input@) == Err::<SshRecordHeader, ParseError>(e),
        },
{
    if input.len() < 6 {
        return Err(ParseError::Incomplete);
    }
    let pkt_len = read_be_u32(input, 0);
    if pkt_len <= 1 {
        return Err(ParseError::Malformed);
    }
    let hdr = SshRecordHeader {
        pkt_len,
        padding_len: input[4],
        msg_code: message_code_from_u8(input[5]),
    };
    Ok((slice_subrange(input, 6, input.len()), hdr))
}

/// What `ssh_parse_record` returns: the header, with the whole record
/// (four length bytes plus `pkt_len` content bytes) consumed; a span
/// holding less than the declared record length is incomplete.
pub open spec fn spec_parse_record(s: Seq<u8>) -> Result<(SshRecordHeader, int), ParseError> {
    match spec_parse_record_header(s) {
        Ok(hdr) => {
            if s.len() < 4 + hdr.pkt_len {
                Err(ParseError::Incomplete)
            } else {
                Ok((hdr, 4 + hdr.pkt_len as int))
            }
        },
        Err(e) => Err(e),
    }
}

/// Decode one whole record: the header followed by the rest of the declared
/// packet length. The remainder starts after the record.
pub fn ssh_parse_record<'a>(input: &'a [u8]) -> (r: Result<
    (&'a [u8], SshRecordHeader),
    ParseError,
>)
    ensures
        match r {
            Ok(p) => {
                &&& spec_parse_record(input@) matches Ok(q)
                &&& p.1 == q.0
                &&& p.0@ == input@.subrange(q.1, input@.len() as int)
            },
            Err(e) => spec_parse_record(input@) == Err::<(SshRecordHeader, int), ParseError>(e),
        },
{
    let (_, hdr) = match ssh_parse_record_header(input) {
        Ok(p) => p,
        Err(e) => {
            return Err(e);
        },
    };
    let content = (hdr.pkt_len - 2) as usize;
    if input.len() - 6 < content {
        return Err(ParseError::Incomplete);
    }
    Ok((slice_subrange(input, 6 + content, input.len()), hdr))
}

/// The length-prefixed byte string at offset `i` of `s`: a big-endian
/// length, then that many bytes. The result pairs the string with the index
/// after it; a declared length exceeding the remaining bytes leaves the
/// parse incomplete.
pub open spec fn spec_string_at(s: Seq<u8>, i: int) -> Option<(Seq<u8>, int)> {
    if i + 4 > s.len() {
        None
    } else {
        let n = be_u32_at(s, i) as int;
        if i + 4 + n > s.len() {
            None
        } else {
            Some((s.subrange(i + 4, i + 4 + n), i + 4 + n))
        }
    }
}

/// Read a length-prefixed byte string at offset `i`, returning the string
/// and the offset after it. Fails without reading past the span when the
/// declared length exceeds the remaining bytes.
fn parse_string_at(s: &[u8], i: usize) -> (r: Option<(Vec<u8>, usize)>)
    requires
        i <= s@.len(),
    ensures
        match r {
            Some(p) => {
                &&& spec_string_at(s@, i as int) matches Some(q)
                &&& p.0@ == q.0
                &&& p.1 == q.1
            },
            None => spec_string_at(s@, i as int) is None,
        },
{
    if s.len() - i < 4 {
        return None;
    }
    let n = read_be_u32(s, i) as usize;
    if s.len() - i - 4 < n {
        return None;
    }
    let v = slice_to_vec(slice_subrange(s, i + 4, i + 4 + n));
    Some((v, i + 4 + n))
}

/// The algorithm-negotiation packet: a cookie, ten length-prefixed
/// algorithm-name lists, and the first-kex-packet-follows flag.
#[derive(Debug, PartialEq, Eq, Clone)]
pub struct SshPacketKeyExchange {
    pub cookie: Vec<u8>,
    pub kex_algs: Vec<u8>,
    pub server_host_key_algs: Vec<u8>,
    pub encr_algs_client_to_server: Vec<u8>,
    pub encr_algs_server_to_client: Vec<u8>,
    pub mac_algs_client_to_server: Vec<u8>,
    pub mac_algs_server_to_client: Vec<u8>,
    pub comp_algs_client_to_server: Vec<u8>,
    pub comp_algs_server_to_client: Vec<u8>,
    pub langs_client_to_server: Vec<u8>,
    pub langs_server_to_client: Vec<u8>,
    pub first_kex_packet_follows: u8,
}

/// The mathematical image of a decoded key-exchange packet.
pub struct SshPacketKeyExchangeView {
    pub cookie: Seq<u8>,
    pub kex_algs: Seq<u8>,
    pub server_host_key_algs: Seq<u8>,
    pub encr_algs_client_to_server: Seq<u8>,
    pub encr_algs_server_to_client: Seq<u8>,
    pub mac_algs_client_to_server: Seq<u8>,
    pub mac_algs_server_to_client: Seq<u8>,
    pub comp_algs_client_to_server: Seq<u8>,
    pub comp_algs_server_to_client: Seq<u8>,
    pub langs_client_to_server: Seq<u8>,
    pub langs_server_to_client: Seq<u8>,
    pub first_kex_packet_follows: u8,
}

impl View for SshPacketKeyExchange {
    type V = SshPacketKeyExchangeView;

    open spec fn view(&self) -> SshPacketKeyExchangeView {
        SshPacketKeyExchangeView {
            cookie: self.cookie@,
            kex_algs: self.kex_algs@,
            server_host_key_algs: self.server_host_key_algs@,
            encr_algs_client_to_server: self.encr_algs_client_to_server@,
            encr_algs_server_to_client: self.encr_algs_server_to_client@,
            mac_algs_client_to_server: self.mac_algs_client_to_server@,
            mac_algs_server_to_client: self.mac_algs_server_to_client@,
            comp_algs_client_to_server: self.comp_algs_client_to_server@,
            comp_algs_server_to_client: self.comp_algs_server_to_client@,
            langs_client_to_server: self.langs_client_to_server@,
            langs_server_to_client: self.langs_server_to_client@,
            first_kex_packet_follows: self.first_kex_packet_follows,
        }
    }
}

/// What `parse_packet_key_exchange` returns: a sixteen-byte cookie, ten
/// length-prefixed algorithm lists in their wire order, the
/// first-kex-packet-follows byte and a reserved 32-bit word, with the index
/// after the packet.
pub open spec fn spec_parse_packet_key_exchange(s: Seq<u8>) -> Option<
    (SshPacketKeyExchangeView, int),
> {
    if s.len() < 16 {
        None
    } else {
        let cookie = s.subrange(0, 16);
        match spec_string_at(s, 16) {
            None => None,
            Some((kex_algs, p1)) => match spec_string_at(s, p1) {
                None => None,
                Some((server_host_key_algs, p2)) => match spec_string_at(s, p2) {
                    None => None,
                    Some((encr_c2s, p3)) => match spec_string_at(s, p3) {
                        None => None,
                        Some((encr_s2c, p4)) => match spec_string_at(s, p4) {
                            None => None,
                            Some((mac_c2s, p5)) => match spec_string_at(s, p5) {
                                None => None,
                                Some((mac_s2c, p6)) => match spec_string_at(s, p6) {
                                    None => None,
                                    Some((comp_c2s, p7)) => match spec_string_at(s, p7) {
                                        None => None,
                                        Some((comp_s2c, p8)) => match spec_string_at(s, p8) {
                                            None => None,
                                            Some((langs_c2s, p9)) => match spec_string_at(s, p9) {
                                                None => None,
                                                Some((langs_s2c, p10)) => {
                                                    if p10 + 5 > s.len() {
                                                        None
                                                    } else {
                                                        Some(
                                                            (
                                                                SshPacketKeyExchangeView {
                                                                    cookie: cookie,
                                                                    kex_algs: kex_algs,
                                                                    server_host_key_algs:
                                                                        server_host_key_algs,
                                                                    encr_algs_client_to_server:
                                                                        encr_c2s,
                                                                    encr_algs_server_to_client:
                                                                        encr_s2c,
                                                                    mac_algs_client_to_server:
                                                                        mac_c2s,
                                                                    mac_algs_server_to_client:
                                                                        mac_s2c,
                                                                    comp_algs_client_to_server:
                                                                        comp_c2s,
                                                                    comp_algs_server_to_client:
                                                                        comp_s2c,
                                                                    langs_client_to_server:
                                                                        langs_c2s,
                                                                    langs_server_to_client:
                                                                        langs_s2c,
                                                                    first_kex_packet_follows: s[p10],
                                                                },
                                                                p10 + 5,
                                                            ),
                                                        )
                                                    }
                                                },
                                            },
                                        },
                                    },
                                },
                            },
                        },
                    },
                },
            },
        }
    }
}

/// Decode an algorithm-negotiation packet. Every failure is `Incomplete`:
/// each length-prefixed field is bounds-checked against the remaining span
/// before it is sliced.
pub fn parse_packet_key_exchange<'a>(input: &'a [u8]) -> (r: Result<
    (&'a [u8], SshPacketKeyExchange),
    ParseError,
>)
    ensures
        match r {
            Ok(p) => {
                &&& spec_parse_packet_key_exchange(input@) matches Some(q)
                &&& p.1@ == q.0
                &&& p.0@ == input@.subrange(q.1, input@.len() as int)
            },
            Err(e) => {
                &&& spec_parse_packet_key_exchange(input@) is None
                &&& e == ParseError::Incomplete
            },
        },
{
    if input.len() < 16 {
        return Err(ParseError::Incomplete);
    }
    let cookie = slice_to_vec(slice_subrange(input, 0, 16));
    let (kex_algs, p1) = match parse_string_at(input, 16) {
        Some(p) => p,
        None => {
            return Err(ParseError::Incomplete);
        },
    };
    let (server_host_key_algs, p2) = match parse_string_at(input, p1) {
        Some(p) => p,
        None => {
            return Err(ParseError::Incomplete);
        },
    };
    let (encr_algs_client_to_server, p3) = match parse_string_at(input, p2) {
        Some(p) => p,
        None => {
            return Err(ParseError::Incomplete);
        },
    };
    let (encr_algs_server_to_client, p4) = match parse_string_at(input, p3) {
        Some(p) => p,
        None => {
            return Err(ParseError::Incomplete);
        },
    };
    let (mac_algs_client_to_server, p5) = match parse_string_at(input, p4) {
        Some(p) => p,
        None => {
            return Err(ParseError::Incomplete);
        },
    };
    let (mac_algs_server_to_client, p6) = match parse_string_at(input, p5) {
        Some(p) => p,
        None => {
            return Err(ParseError::Incomplete);
        },
    };
    let (comp_algs_client_to_server, p7) = match parse_string_at(input, p6) {
        Some(p) => p,
        None => {
            return Err(ParseError::Incomplete);
        },
    };
    let (comp_algs_server_to_client, p8) = match parse_string_at(input, p7) {
        Some(p) => p,
        None => {
            return Err(ParseError::Incomplete);
        },
    };
    let (langs_client_to_server, p9) = match parse_string_at(input, p8) {
        Some(p) => p,
        None => {
            return Err(ParseError::Incomplete);
        },
    };
    let (langs_server_to_client, p10) = match parse_string_at(input, p9) {
        Some(p) => p,
        None => {
            return Err(ParseError::Incomplete);
        },
    };
    if input.len() - p10 < 5 {
        return Err(ParseError::Incomplete);
    }
    let first_kex_packet_follows = input[p10];
    let rest = slice_subrange(input, p10 + 5, input.len());
    Ok(
        (
            rest,
            SshPacketKeyExchange {
                cookie,
                kex_algs,
                server_host_key_algs,
                encr_algs_client_to_server,
                encr_algs_server_to_client,
                mac_algs_client_to_server,
                mac_algs_server_to_client,
                comp_algs_client_to_server,
                comp_algs_server_to_client,
                langs_client_to_server,
                langs_server_to_client,
                first_kex_packet_follows,
            },
        ),
    )
}

/// The delimiter placed between algorithm lists in the fingerprint input.
pub open spec fn spec_hassh_delimiter() -> Seq<u8> {
    seq![59u8]
}

/// The ordered concatenation hashed for a fingerprint: the key-exchange
/// algorithm list, then the direction-appropriate encryption, MAC and
/// compression lists, joined by a single `;` between fields and none after
/// the last.
pub open spec fn spec_hassh_fields(kex: SshPacketKeyExchangeView, to_server: bool) -> Seq<u8> {
    if to_server {
        kex.kex_algs + spec_hassh_delimiter() + kex.encr_algs_server_to_client
            + spec_hassh_delimiter() + kex.mac_algs_server_to_client + spec_hassh_delimiter()
            + kex.comp_algs_server_to_client
    } else {
        kex.kex_algs + spec_hassh_delimiter() + kex.encr_algs_client_to_server
            + spec_hassh_delimiter() + kex.mac_algs_client_to_server + spec_hassh_delimiter()
            + kex.comp_algs_client_to_server
    }
}

/// The lowercase hexadecimal rendering of the 16-byte digest of `data`,
/// as 32 ASCII bytes. The digest depends on the input bytes alone, so two
/// equal inputs always name the same result.
pub uninterp spec fn md5_hex_of(data: Seq<u8>) -> Seq<u8>;

/// Relies on md5::compute (RFC 1321) and the md5 crate's `LowerHex`
/// rendering of its 16-byte digest as 32 lowercase hexadecimal characters;
/// the result is a function of the input bytes alone.
#[verifier::external_body]
fn md5_hex(data: &[u8]) -> (r: Vec<u8>)
    ensures
        r@ == md5_hex_of(data@),
        r@.len() == 32,
{
    format!("{:x}", md5::compute(data)).into_bytes()
}

impl SshPacketKeyExchange {
    /// Append the fingerprint input string and the rendered fingerprint to
    /// the two buffers. Identical negotiation structures and direction give
    /// byte-identical results: the input string is a fixed concatenation
    /// and the digest is a function of its input alone.
    pub fn generate_hassh(&self, hassh_string: &mut Vec<u8>, hassh: &mut Vec<u8>, to_server: &bool)
        ensures
            final(hassh_string)@ == old(hassh_string)@ + spec_hassh_fields(self@, *to_server),
            final(hassh)@ == old(hassh)@ + md5_hex_of(
                old(hassh_string)@ + spec_hassh_fields(self@, *to_server),
            ),
    {
        if *to_server {
            hassh_string.extend_from_slice(self.kex_algs.as_slice());
            hassh_string.push(59);
            hassh_string.extend_from_slice(self.encr_algs_server_to_client.as_slice());
            hassh_string.push(59);
            hassh_string.extend_from_slice(self.mac_algs_server_to_client.as_slice());
            hassh_string.push(59);
            hassh_string.extend_from_slice(self.comp_algs_server_to_client.as_slice());
        } else {
            hassh_string.extend_from_slice(self.kex_algs.as_slice());
            hassh_string.push(59);
            hassh_string.extend_from_slice(self.encr_algs_client_to_server.as_slice());
            hassh_string.push(59);
            hassh_string.extend_from_slice(self.mac_algs_client_to_server.as_slice());
            hassh_string.push(59);
            hassh_string.extend_from_slice(self.comp_algs_client_to_server.as_slice());
        }
        assert(hassh_string@ =~= old(hassh_string)@ + spec_hassh_fields(self@, *to_server));
        let hex = md5_hex(hassh_string.as_slice());
        hassh.extend_from_slice(hex.as_slice());
        assert(hassh@ =~= old(hassh)@ + md5_hex_of(
            old(hassh_string)@ + spec_hassh_fields(self@, *to_server),
        ));
    }
}

/// Fingerprint generation is deterministic: two negotiation structures
/// with equal algorithm lists, fingerprinted in the same direction from
/// equal starting buffers, yield byte-identical fingerprint strings.
pub proof fn lemma_hassh_deterministic(
    a: SshPacketKeyExchangeView,
    b: SshPacketKeyExchangeView,
    to_server: bool,
    prefix: Seq<u8>,
)
    requires
        a == b,
    ensures
        spec_hassh_fields(a, to_server) == spec_hassh_fields(b, to_server),
        md5_hex_of(prefix + spec_hassh_fields(a, to_server)) == md5_hex_of(
            prefix + spec_hassh_fields(b, to_server),
        ),
{
}

/// The wire byte of a message code; the undefined marker renders as the
/// first unassigned code.
pub open spec fn spec_message_code_value(m: MessageCode) -> u8 {
    match m {
        MessageCode::SshMsgDisconnect => 1,
        MessageCode::SshMsgIgnore => 2,
        MessageCode::SshMsgUnimplemented => 3,
        MessageCode::SshMsgDebug => 4,
        MessageCode::SshMsgServiceRequest => 5,
        MessageCode::SshMsgServiceAccept => 6,
        MessageCode::SshMsgKexinit => 20,
        MessageCode::SshMsgNewKeys => 21,
        MessageCode::SshMsgKexdhInit => 30,
        MessageCode::SshMsgKexdhReply => 31,
        MessageCode::SshMsgUndefined => 32,
    }
}

/// The wire byte of a message code.
pub fn message_code_value(m: MessageCode) -> (r: u8)
    ensures
        r == spec_message_code_value(m),
{
    match m {
        MessageCode::SshMsgDisconnect => 1,
        MessageCode::SshMsgIgnore => 2,
        MessageCode::SshMsgUnimplemented => 3,
        MessageCode::SshMsgDebug => 4,
        MessageCode::SshMsgServiceRequest => 5,
        MessageCode::SshMsgServiceAccept => 6,
        MessageCode::SshMsgKexinit => 20,
        MessageCode::SshMsgNewKeys => 21,
        MessageCode::SshMsgKexdhInit => 30,
        MessageCode::SshMsgKexdhReply => 31,
        MessageCode::SshMsgUndefined => 32,
    }
}

/// The decimal rendering of a value, most significant digit first.
pub open spec fn spec_u64_decimal(v: u64) -> Seq<u8>
    decreases v,
{
    if v < 10 {
        seq![(48 + v) as u8]
    } else {
        spec_u64_decimal(v / 10) + seq![(48 + v % 10) as u8]
    }
}

/// The decimal digits of a value.
fn u64_dec_bytes(v: u64) -> (r: Vec<u8>)
    ensures
        r@ == spec_u64_decimal(v),
        crate::events::bytes_are_ascii(r@),
    decreases v,
{
    if v < 10 {
        let mut out: Vec<u8> = Vec::new();
        out.push(48 + v as u8);
        assert(out@ =~= spec_u64_decimal(v));
        out
    } else {
        let mut out = u64_dec_bytes(v / 10);
        out.push(48 + (v % 10) as u8);
        assert(out@ =~= spec_u64_decimal(v));
        out
    }
}

/// The text `describe` renders for a record header: its packet length,
/// padding length and message-code byte, each in decimal.
pub open spec fn spec_record_header_text(h: SshRecordHeader) -> Seq<u8> {
    seq![40u8, 112u8, 107u8, 116u8, 95u8, 108u8, 101u8, 110u8, 58u8] + spec_u64_decimal(
        h.pkt_len as u64,
    ) + seq![44u8, 32u8, 112u8, 97u8, 100u8, 100u8, 105u8, 110u8, 103u8, 95u8, 108u8, 101u8, 110u8, 58u8]
        + spec_u64_decimal(h.padding_len as u64) + seq![
        44u8,
        32u8,
        109u8,
        115u8,
        103u8,
        95u8,
        99u8,
        111u8,
        100u8,
        101u8,
        58u8,
    ] + spec_u64_decimal(spec_message_code_value(h.msg_code) as u64) + seq![41u8]
}

impl SshRecordHeader {
    /// A readable rendering of the header fields.
    pub fn describe(&self) -> (r: String)
        ensures
            vstd::utf8::encode_utf8(r@) == spec_record_header_text(*self),
    {
        let mut out: Vec<u8> = Vec::new();
        out.push(40);
        out.push(112);
        out.push(107);
        out.push(116);
        out.push(95);
        out.push(108);
        out.push(101);
        out.push(110);
        out.push(58);
        let pkt = u64_dec_bytes(self.pkt_len as u64);
        out.extend_from_slice(pkt.as_slice());
        out.push(44);
        out.push(32);
        out.push(112);
        out.push(97);
        out.push(100);
        out.push(100);
        out.push(105);
        out.push(110);
        out.push(103);
        out.push(95);
        out.push(108);
        out.push(101);
        out.push(110);
        out.push(58);
        let pad = u64_dec_bytes(self.padding_len as u64);
        out.extend_from_slice(pad.as_slice());
        out.push(44);
        out.push(32);
        out.push(109);
        out.push(115);
        out.push(103);
        out.push(95);
        out.push(99);
        out.push(111);
        out.push(100);
        out.push(101);
        out.push(58);
        let code = u64_dec_bytes(message_code_value(self.msg_code) as u64);
        out.extend_from_slice(code.as_slice());
        out.push(41);
        proof {
            assert(out@ =~= spec_record_header_text(*self));
            assert(crate::events::bytes_are_ascii(out@));
        }
        crate::events::string_from_ascii_bytes(out)
    }
}

} // verus!
