//! The file-and-pipe oriented protocol: command dispatch over decoded
//! records, cross-request/response correlation via composite keys,
//! file-content reconstruction from read/write commands, and embedded RPC
//! tunneling over named pipes.
//!
//! Records arrive with their session header already decoded (`SmbRecord`);
//! the command-specific payloads are decoded here, with every
//! length-prefixed field bounds-checked against the remaining span.

use crate::applayer::DetectEngineState;
use crate::Direction;
use crate::ParseError;
use vstd::prelude::*;

verus! {

use vstd::slice::{slice_subrange, slice_to_vec};
use vstd::utf8::{
    encode_utf8, pop_first_scalar, valid_first_scalar,
    valid_leading_and_continuation_bytes_first_codepoint, valid_utf8,
};

pub const SMB1_COMMAND_CREATE_DIRECTORY: u8 = 0x00;

pub const SMB1_COMMAND_DELETE_DIRECTORY: u8 = 0x01;

pub const SMB1_COMMAND_OPEN: u8 = 0x02;

pub const SMB1_COMMAND_CREATE: u8 = 0x03;

pub const SMB1_COMMAND_CLOSE: u8 = 0x04;

pub const SMB1_COMMAND_FLUSH: u8 = 0x05;

pub const SMB1_COMMAND_DELETE: u8 = 0x06;

pub const SMB1_COMMAND_RENAME: u8 = 0x07;

pub const SMB1_COMMAND_QUERY_INFORMATION: u8 = 0x08;

pub const SMB1_COMMAND_SET_INFORMATION: u8 = 0x09;

pub const SMB1_COMMAND_READ: u8 = 0x0a;

pub const SMB1_COMMAND_WRITE: u8 = 0x0b;

pub const SMB1_COMMAND_LOCK_BYTE_RANGE: u8 = 0x0c;

pub const SMB1_COMMAND_UNLOCK_BYTE_RANGE: u8 = 0x0d;

pub const SMB1_COMMAND_CREATE_TEMPORARY: u8 = 0x0e;

pub const SMB1_COMMAND_CREATE_NEW: u8 = 0x0f;

pub const SMB1_COMMAND_CHECK_DIRECTORY: u8 = 0x10;

pub const SMB1_COMMAND_PROCESS_EXIT: u8 = 0x11;

pub const SMB1_COMMAND_SEEK: u8 = 0x12;

pub const SMB1_COMMAND_LOCK_AND_READ: u8 = 0x13;

pub const SMB1_COMMAND_WRITE_AND_UNLOCK: u8 = 0x14;

pub const SMB1_COMMAND_LOCKING_ANDX: u8 = 0x24;

pub const SMB1_COMMAND_TRANS: u8 = 0x25;

pub const SMB1_COMMAND_ECHO: u8 = 0x2b;

pub const SMB1_COMMAND_READ_ANDX: u8 = 0x2e;

pub const SMB1_COMMAND_WRITE_ANDX: u8 = 0x2f;

pub const SMB1_COMMAND_TRANS2: u8 = 0x32;

pub const SMB1_COMMAND_TRANS2_SECONDARY: u8 = 0x33;

pub const SMB1_COMMAND_FIND_CLOSE2: u8 = 0x34;

pub const SMB1_COMMAND_TREE_DISCONNECT: u8 = 0x71;

pub const SMB1_COMMAND_NEGOTIATE_PROTOCOL: u8 = 0x72;

pub const SMB1_COMMAND_SESSION_SETUP_ANDX: u8 = 0x73;

pub const SMB1_COMMAND_LOGOFF_ANDX: u8 = 0x74;

pub const SMB1_COMMAND_TREE_CONNECT_ANDX: u8 = 0x75;

pub const SMB1_COMMAND_NT_TRANS: u8 = 0xa0;

pub const SMB1_COMMAND_NT_CREATE_ANDX: u8 = 0xa2;

pub const SMB1_COMMAND_NT_CANCEL: u8 = 0xa4;

/// Status code of a successful command.
pub const SMB_NTSTATUS_SUCCESS: u32 = 0;

/// Status code telling the client that more response data remains.
pub const SMB_NTSTATUS_BUFFER_OVERFLOW: u32 = 0x80000005;

/// One session record with its header already decoded: the command, the
/// composite-key fields, the status, and the raw command payload.
#[derive(Debug, Clone)]
pub struct SmbRecord {
    pub command: u8,
    pub ssn_id: u32,
    pub tree_id: u16,
    pub multiplex_id: u16,
    pub user_id: u16,
    pub nt_status: u32,
    pub is_dos_error: bool,
    pub data: Vec<u8>,
}

/// The 16-bit little-endian value at offset `i`.
pub open spec fn le16_at(s: Seq<u8>, i: int) -> u16
    recommends
        0 <= i,
        i + 2 <= s.len(),
{
    ((s[i] as int) + (s[i + 1] as int) * 0x100) as u16
}

/// The 32-bit little-endian value at offset `i`.
pub open spec fn le32_at(s: Seq<u8>, i: int) -> u32
    recommends
        0 <= i,
        i + 4 <= s.len(),
{
    ((s[i] as int) + (s[i + 1] as int) * 0x100 + (s[i + 2] as int) * 0x10000 + (s[i
        + 3] as int) * 0x1000000) as u32
}

/// The 64-bit little-endian value at offset `i`.
pub open spec fn le64_at(s: Seq<u8>, i: int) -> u64
    recommends
        0 <= i,
        i + 8 <= s.len(),
{
    ((le32_at(s, i) as int) + (le32_at(s, i + 4) as int) * 0x100000000) as u64
}

fn read_le16(s: &[u8], i: usize) -> (r: u16)
    requires
        i + 2 <= s@.len(),
    ensures
        r == le16_at(s@, i as int),
{
    (s[i] as u16) + (s[i + 1] as u16) * 0x100
}

fn read_le32(s: &[u8], i: usize) -> (r: u32)
    requires
        i + 4 <= s@.len(),
    ensures
        r == le32_at(s@, i as int),
{
    (s[i] as u32) + (s[i + 1] as u32) * 0x100 + (s[i + 2] as u32) * 0x10000 + (s[i + 3] as u32)
        * 0x1000000
}

fn read_le64(s: &[u8], i: usize) -> (r: u64)
    requires
        i + 8 <= s@.len(),
        s@.len() <= usize::MAX,
    ensures
        r == le64_at(s@, i as int),
{
    (read_le32(s, i) as u64) + (read_le32(s, i + 4) as u64) * 0x100000000
}

/// A decoded read request: the file handle whose pending offset the
/// response will consume.
#[derive(Debug, Clone, PartialEq, Eq)]
pub struct SmbReadAndxRequestRecord {
    pub fid: Vec<u8>,
    pub offset: u64,
}

/// What decoding a read request yields: a two-byte file handle and a
/// 64-bit little-endian offset; fewer than ten bytes is incomplete.
pub open spec fn spec_parse_read_andx_request(s: Seq<u8>) -> Option<(Seq<u8>, u64)> {
    if s.len() < 10 {
        None
    } else {
        Some((s.subrange(0, 2), le64_at(s, 2)))
    }
}

/// Decode a read request payload.
pub fn parse_smb_read_andx_request_record(input: &[u8]) -> (r: Result<
    SmbReadAndxRequestRecord,
    ParseError,
>)
    ensures
        match r {
            Ok(rr) => spec_parse_read_andx_request(input@) == Some((rr.fid@, rr.offset)),
            Err(e) => spec_parse_read_andx_request(input@) is None && e == ParseError::Incomplete,
        },
{
    if input.len() < 10 {
        return Err(ParseError::Incomplete);
    }
    let fid = slice_to_vec(slice_subrange(input, 0, 2));
    let offset = read_le64(input, 2);
    Ok(SmbReadAndxRequestRecord { fid, offset })
}

/// A decoded read response: the declared data length and the data bytes
/// present in this record.
#[derive(Debug, Clone, PartialEq, Eq)]
pub struct SmbReadAndxResponseRecord {
    pub len: u32,
    pub data: Vec<u8>,
}

/// What decoding a read response yields: a 32-bit little-endian declared
/// length followed by the data present; fewer than four bytes is
/// incomplete. The declared length may exceed the data present when the
/// rest is still in flight.
pub open spec fn spec_parse_read_andx_response(s: Seq<u8>) -> Option<(u32, Seq<u8>)> {
    if s.len() < 4 {
        None
    } else {
        Some((le32_at(s, 0), s.subrange(4, s.len() as int)))
    }
}

/// Decode a read response payload.
pub fn parse_smb_read_andx_response_record(input: &[u8]) -> (r: Result<
    SmbReadAndxResponseRecord,
    ParseError,
>)
    ensures
        match r {
            Ok(rd) => spec_parse_read_andx_response(input@) == Some((rd.len, rd.data@)),
            Err(e) => spec_parse_read_andx_response(input@) is None && e == ParseError::Incomplete,
        },
{
    if input.len() < 4 {
        return Err(ParseError::Incomplete);
    }
    let len = read_le32(input, 0);
    let data = slice_to_vec(slice_subrange(input, 4, input.len()));
    Ok(SmbReadAndxResponseRecord { len, data })
}

/// A decoded write request: file handle, file offset, declared write
/// length, and the data present in this record.
#[derive(Debug, Clone, PartialEq, Eq)]
pub struct SmbWriteRequestRecord {
    pub fid: Vec<u8>,
    pub offset: u64,
    pub len: u32,
    pub data: Vec<u8>,
}

/// What decoding a write request yields: a two-byte file handle, a 64-bit
/// offset, a 32-bit declared length, then the data present; fewer than
/// fourteen bytes is incomplete.
pub open spec fn spec_parse_write_request(s: Seq<u8>) -> Option<(Seq<u8>, u64, u32, Seq<u8>)> {
    if s.len() < 14 {
        None
    } else {
        Some((s.subrange(0, 2), le64_at(s, 2), le32_at(s, 10), s.subrange(14, s.len() as int)))
    }
}

/// Decode a write request payload (shared by the plain and extended write
/// commands).
pub fn parse_smb1_write_request_record(input: &[u8]) -> (r: Result<
    SmbWriteRequestRecord,
    ParseError,
>)
    ensures
        match r {
            Ok(rd) => spec_parse_write_request(input@) == Some((rd.fid@, rd.offset, rd.len, rd.data@)),
            Err(e) => spec_parse_write_request(input@) is None && e == ParseError::Incomplete,
        },
{
    if input.len() < 14 {
        return Err(ParseError::Incomplete);
    }
    let fid = slice_to_vec(slice_subrange(input, 0, 2));
    let offset = read_le64(input, 2);
    let len = read_le32(input, 10);
    let data = slice_to_vec(slice_subrange(input, 14, input.len()));
    Ok(SmbWriteRequestRecord { fid, offset, len, data })
}

/// A decoded transaction-command request: the maximum response size the
/// client accepts, an optional pipe file handle, the transaction name, and
/// the payload handed to the pipe.
#[derive(Debug, Clone, PartialEq, Eq)]
pub struct SmbTransRequestRecord {
    pub max_data_cnt: u16,
    pub pipe_fid: Option<Vec<u8>>,
    pub txname: Vec<u8>,
    pub data: Vec<u8>,
}

/// What decoding a transaction request yields: a 16-bit maximum data
/// count, a length-prefixed file handle (empty meaning none), a
/// length-prefixed transaction name, then the payload. A declared length
/// exceeding the remaining bytes is incomplete.
pub open spec fn spec_parse_trans_request(s: Seq<u8>) -> Option<
    (u16, Option<Seq<u8>>, Seq<u8>, Seq<u8>),
> {
    if s.len() < 3 {
        None
    } else {
        let fid_len = s[2] as int;
        if 3 + fid_len + 1 > s.len() {
            None
        } else {
            let name_len = s[3 + fid_len] as int;
            if 3 + fid_len + 1 + name_len > s.len() {
                None
            } else {
                Some(
                    (
                        le16_at(s, 0),
                        if fid_len == 0 {
                            None
                        } else {
                            Some(s.subrange(3, 3 + fid_len))
                        },
                        s.subrange(3 + fid_len + 1, 3 + fid_len + 1 + name_len),
                        s.subrange(3 + fid_len + 1 + name_len, s.len() as int),
                    ),
                )
            }
        }
    }
}

/// Decode a transaction request payload.
pub fn parse_smb_trans_request_record(input: &[u8]) -> (r: Result<SmbTransRequestRecord, ParseError>)
    ensures
        match r {
            Ok(rd) => {
                &&& spec_parse_trans_request(input@) matches Some(q)
                &&& rd.max_data_cnt == q.0
                &&& match (rd.pipe_fid, q.1) {
                    (Some(f), Some(g)) => f@ == g,
                    (None, None) => true,
                    _ => false,
                }
                &&& rd.txname@ == q.2
                &&& rd.data@ == q.3
            },
            Err(e) => spec_parse_trans_request(input@) is None && e == ParseError::Incomplete,
        },
{
    if input.len() < 3 {
        return Err(ParseError::Incomplete);
    }
    let max_data_cnt = read_le16(input, 0);
    let fid_len = input[2] as usize;
    if input.len() - 3 < fid_len || input.len() - 3 - fid_len < 1 {
        return Err(ParseError::Incomplete);
    }
    let name_len = input[3 + fid_len] as usize;
    if input.len() - 3 - fid_len - 1 < name_len {
        return Err(ParseError::Incomplete);
    }
    let pipe_fid = if fid_len == 0 {
        None
    } else {
        Some(slice_to_vec(slice_subrange(input, 3, 3 + fid_len)))
    };
    let txname = slice_to_vec(slice_subrange(input, 3 + fid_len + 1, 3 + fid_len + 1 + name_len));
    let data = slice_to_vec(slice_subrange(input, 3 + fid_len + 1 + name_len, input.len()));
    Ok(SmbTransRequestRecord { max_data_cnt, pipe_fid, txname, data })
}

/// A decoded transaction-command response: the payload coming back from
/// the pipe.
#[derive(Debug, Clone, PartialEq, Eq)]
pub struct SmbTransResponseRecord {
    pub data: Vec<u8>,
}

/// Decode a transaction response payload: the whole span is the data.
pub fn parse_smb_trans_response_record(input: &[u8]) -> (r: Result<
    SmbTransResponseRecord,
    ParseError,
>)
    ensures
        r matches Ok(rd) && rd.data@ == input@,
{
    Ok(SmbTransResponseRecord { data: slice_to_vec(input) })
}

/// A decoded protocol-negotiation request: the dialect names offered, in
/// order.
#[derive(Debug, Clone, PartialEq, Eq)]
pub struct SmbNegotiateProtocolRecord {
    pub dialects: Vec<Vec<u8>>,
}

/// The dialect entries of a negotiation request from offset `i` on: each
/// entry is a length byte (at least one) and that many bytes, whose first
/// byte is a type marker the dialect name follows.
pub open spec fn spec_parse_dialects(s: Seq<u8>, i: int) -> Option<Seq<Seq<u8>>>
    decreases s.len() - i,
{
    if i >= s.len() {
        Some(Seq::empty())
    } else {
        let n = s[i] as int;
        if n == 0 || i + 1 + n > s.len() {
            None
        } else {
            match spec_parse_dialects(s, i + 1 + n) {
                Some(rest) => Some(seq![s.subrange(i + 2, i + 1 + n)] + rest),
                None => None,
            }
        }
    }
}

/// Decode a negotiation request payload: the list of offered dialects,
/// each stripped of its one-byte type marker. A zero-length entry is
/// malformed; a truncated entry is incomplete.
pub fn parse_smb1_negotiate_protocol_record(input: &[u8]) -> (r: Result<
    SmbNegotiateProtocolRecord,
    ParseError,
>)
    ensures
        match r {
            Ok(rd) => {
                &&& spec_parse_dialects(input@, 0) matches Some(q)
                &&& rd.dialects@.len() == q.len()
                &&& forall|k: int| 0 <= k < q.len() ==> (#[trigger] rd.dialects@[k])@ == q[k]
            },
            Err(_) => spec_parse_dialects(input@, 0) is None,
        },
{
    let mut dialects: Vec<Vec<u8>> = Vec::new();
    let mut i: usize = 0;
    while i < input.len()
        invariant
            0 <= i <= input@.len(),
            ({
                match spec_parse_dialects(input@, 0) {
                    Some(q) => {
                        &&& spec_parse_dialects(input@, i as int) matches Some(rest)
                        &&& q =~= dialects@.map_values(|d: Vec<u8>| d@) + rest
                    },
                    None => spec_parse_dialects(input@, i as int) is None,
                }
            }),
        decreases input@.len() - i,
    {
        let n = input[i] as usize;
        if n == 0 || input.len() - i - 1 < n {
            return Err(ParseError::Malformed);
        }
        let entry = slice_to_vec(slice_subrange(input, i + 2, i + 1 + n));
        let ghost pre = dialects@;
        dialects.push(entry);
        proof {
            let f = |d: Vec<u8>| d@;
            assert(dialects@.map_values(f) =~= pre.map_values(f).push(
                input@.subrange(i + 2, i + 1 + n as int),
            ));
            if spec_parse_dialects(input@, 0) is Some {
                let q = spec_parse_dialects(input@, 0).unwrap();
                let rest = spec_parse_dialects(input@, i as int).unwrap();
                let rest2 = spec_parse_dialects(input@, i + 1 + n as int).unwrap();
                assert(rest =~= seq![input@.subrange(i + 2, i + 1 + n as int)] + rest2);
                assert(q =~= dialects@.map_values(f) + rest2);
            }
        }
        i = i + 1 + n;
    }
    proof {
        assert(spec_parse_dialects(input@, i as int) == Some(Seq::<Seq<u8>>::empty()));
        if spec_parse_dialects(input@, 0) is Some {
            assert(spec_parse_dialects(input@, 0).unwrap() =~= dialects@.map_values(
                |d: Vec<u8>| d@,
            ) + Seq::<Seq<u8>>::empty());
            assert(spec_parse_dialects(input@, 0).unwrap() =~= dialects@.map_values(
                |d: Vec<u8>| d@,
            ));
        }
    }
    Ok(SmbNegotiateProtocolRecord { dialects })
}

/// A decoded protocol-negotiation response: the index of the chosen
/// dialect.
#[derive(Debug, Clone, PartialEq, Eq)]
pub struct SmbNegotiateProtocolResponseRecord {
    pub dialect_idx: u16,
}

/// Decode a negotiation response payload: a 16-bit little-endian dialect
/// index; fewer than two bytes is incomplete.
pub fn parse_smb1_negotiate_protocol_response_record(input: &[u8]) -> (r: Result<
    SmbNegotiateProtocolResponseRecord,
    ParseError,
>)
    ensures
        match r {
            Ok(rd) => input@.len() >= 2 && rd.dialect_idx == le16_at(input@, 0),
            Err(e) => input@.len() < 2 && e == ParseError::Incomplete,
        },
{
    if input.len() < 2 {
        return Err(ParseError::Incomplete);
    }
    Ok(SmbNegotiateProtocolResponseRecord { dialect_idx: read_le16(input, 0) })
}

/// A decoded create request: creation options and the file name.
#[derive(Debug, Clone, PartialEq, Eq)]
pub struct SmbCreateAndxRequestRecord {
    pub create_options: u32,
    pub disposition: u32,
    pub file_name: Vec<u8>,
}

/// Decode a create request payload: 32-bit creation options, 32-bit
/// disposition, then the file name; fewer than eight bytes is incomplete.
pub fn parse_smb_create_andx_request_record(input: &[u8]) -> (r: Result<
    SmbCreateAndxRequestRecord,
    ParseError,
>)
    ensures
        match r {
            Ok(rd) => {
                &&& input@.len() >= 8
                &&& rd.create_options == le32_at(input@, 0)
                &&& rd.disposition == le32_at(input@, 4)
                &&& rd.file_name@ == input@.subrange(8, input@.len() as int)
            },
            Err(e) => input@.len() < 8 && e == ParseError::Incomplete,
        },
{
    if input.len() < 8 {
        return Err(ParseError::Incomplete);
    }
    let create_options = read_le32(input, 0);
    let disposition = read_le32(input, 4);
    let file_name = slice_to_vec(slice_subrange(input, 8, input.len()));
    Ok(SmbCreateAndxRequestRecord { create_options, disposition, file_name })
}

/// A decoded create response: the file handle the server assigned.
#[derive(Debug, Clone, PartialEq, Eq)]
pub struct SmbCreateAndxResponseRecord {
    pub fid: Vec<u8>,
}

/// Decode a create response payload: a two-byte file handle; fewer than
/// two bytes is incomplete.
pub fn parse_smb_create_andx_response_record(input: &[u8]) -> (r: Result<
    SmbCreateAndxResponseRecord,
    ParseError,
>)
    ensures
        match r {
            Ok(rd) => input@.len() >= 2 && rd.fid@ == input@.subrange(0, 2),
            Err(e) => input@.len() < 2 && e == ParseError::Incomplete,
        },
{
    if input.len() < 2 {
        return Err(ParseError::Incomplete);
    }
    Ok(SmbCreateAndxResponseRecord { fid: slice_to_vec(slice_subrange(input, 0, 2)) })
}

/// A decoded close request: the file handle being closed.
#[derive(Debug, Clone, PartialEq, Eq)]
pub struct SmbCloseRequestRecord {
    pub fid: Vec<u8>,
}

/// Decode a close request payload: a two-byte file handle; fewer than two
/// bytes is incomplete.
pub fn parse_smb1_close_request_record(input: &[u8]) -> (r: Result<
    SmbCloseRequestRecord,
    ParseError,
>)
    ensures
        match r {
            Ok(rd) => input@.len() >= 2 && rd.fid@ == input@.subrange(0, 2),
            Err(e) => input@.len() < 2 && e == ParseError::Incomplete,
        },
{
    if input.len() < 2 {
        return Err(ParseError::Incomplete);
    }
    Ok(SmbCloseRequestRecord { fid: slice_to_vec(slice_subrange(input, 0, 2)) })
}

/// A decoded session-setup request: the opaque security blob.
#[derive(Debug, Clone, PartialEq, Eq)]
pub struct SmbSetupAndxRecord {
    pub sec_blob: Vec<u8>,
}

/// Decode a session-setup request payload: the whole span is the security
/// blob.
pub fn parse_smb_setup_andx_record(input: &[u8]) -> (r: Result<SmbSetupAndxRecord, ParseError>)
    ensures
        r matches Ok(rd) && rd.sec_blob@ == input@,
{
    Ok(SmbSetupAndxRecord { sec_blob: slice_to_vec(input) })
}

/// A decoded tree-connect request: the share being connected to.
#[derive(Debug, Clone, PartialEq, Eq)]
pub struct SmbConnectTreeAndxRecord {
    pub share: Vec<u8>,
}

/// Decode a tree-connect request payload: the whole span is the share
/// name.
pub fn parse_smb_connect_tree_andx_record(input: &[u8]) -> (r: Result<
    SmbConnectTreeAndxRecord,
    ParseError,
>)
    ensures
        r matches Ok(rd) && rd.share@ == input@,
{
    Ok(SmbConnectTreeAndxRecord { share: slice_to_vec(input) })
}

/// A decoded tree-connect response: the service type granted.
#[derive(Debug, Clone, PartialEq, Eq)]
pub struct SmbConnectTreeAndxResponseRecord {
    pub service: Vec<u8>,
}

/// Decode a tree-connect response payload: the whole span is the service
/// name.
pub fn parse_smb_connect_tree_andx_response_record(input: &[u8]) -> (r: Result<
    SmbConnectTreeAndxResponseRecord,
    ParseError,
>)
    ensures
        r matches Ok(rd) && rd.service@ == input@,
{
    Ok(SmbConnectTreeAndxResponseRecord { service: slice_to_vec(input) })
}

/// The decimal rendering of a byte value, most significant digit first.
pub open spec fn spec_u8_decimal(c: u8) -> Seq<u8> {
    if c >= 100 {
        seq![(48 + c / 100) as u8, (48 + (c / 10) % 10) as u8, (48 + c % 10) as u8]
    } else if c >= 10 {
        seq![(48 + c / 10) as u8, (48 + c % 10) as u8]
    } else {
        seq![(48 + c) as u8]
    }
}

/// The decimal digits of a byte value.
fn u8_dec_bytes(c: u8) -> (r: Vec<u8>)
    ensures
        r@ == spec_u8_decimal(c),
        crate::events::bytes_are_ascii(r@),
{
    let mut v: Vec<u8> = Vec::new();
    if c >= 100 {
        v.push(48 + c / 100);
        v.push(48 + (c / 10) % 10);
        v.push(48 + c % 10);
    } else if c >= 10 {
        v.push(48 + c / 10);
        v.push(48 + c % 10);
    } else {
        v.push(48 + c);
    }
    assert(v@ =~= spec_u8_decimal(c));
    v
}

/// True of command codes the name table covers.
pub open spec fn spec_smb1_command_known(c: u8) -> bool {
    c == 0x00 || c == 0x01 || c == 0x02 || c == 0x03 || c == 0x04 || c == 0x05 || c == 0x06 || c
        == 0x07 || c == 0x08 || c == 0x09 || c == 0x0a || c == 0x0b || c == 0x0c || c == 0x0d || c
        == 0x0e || c == 0x0f || c == 0x10 || c == 0x11 || c == 0x12 || c == 0x13 || c == 0x14 || c
        == 0x24 || c == 0x25 || c == 0x2b || c == 0x2e || c == 0x2f || c == 0x32 || c == 0x33 || c
        == 0x34 || c == 0x71 || c == 0x72 || c == 0x73 || c == 0x74 || c == 0x75 || c == 0xa0 || c
        == 0xa2 || c == 0xa4
}

/// The name of a known command code.
pub open spec fn spec_smb1_command_name(c: u8) -> Seq<char> {
    if c == 0x00 {
        "SMB1_COMMAND_CREATE_DIRECTORY"@
    } else if c == 0x01 {
        "SMB1_COMMAND_DELETE_DIRECTORY"@
    } else if c == 0x02 {
        "SMB1_COMMAND_OPEN"@
    } else if c == 0x03 {
        "SMB1_COMMAND_CREATE"@
    } else if c == 0x04 {
        "SMB1_COMMAND_CLOSE"@
    } else if c == 0x05 {
        "SMB1_COMMAND_FLUSH"@
    } else if c == 0x06 {
        "SMB1_COMMAND_DELETE"@
    } else if c == 0x07 {
        "SMB1_COMMAND_RENAME"@
    } else if c == 0x08 {
        "SMB1_COMMAND_QUERY_INFORMATION"@
    } else if c == 0x09 {
        "SMB1_COMMAND_SET_INFORMATION"@
    } else if c == 0x0a {
        "SMB1_COMMAND_READ"@
    } else if c == 0x0b {
        "SMB1_COMMAND_WRITE"@
    } else if c == 0x0c {
        "SMB1_COMMAND_LOCK_BYTE_RANGE"@
    } else if c == 0x0d {
        "SMB1_COMMAND_UNLOCK_BYTE_RANGE"@
    } else if c == 0x0e {
        "SMB1_COMMAND_CREATE_TEMPORARY"@
    } else if c == 0x0f {
        "SMB1_COMMAND_CREATE_NEW"@
    } else if c == 0x10 {
        "SMB1_COMMAND_CHECK_DIRECTORY"@
    } else if c == 0x11 {
        "SMB1_COMMAND_PROCESS_EXIT"@
    } else if c == 0x12 {
        "SMB1_COMMAND_SEEK"@
    } else if c == 0x13 {
        "SMB1_COMMAND_LOCK_AND_READ"@
    } else if c == 0x14 {
        "SMB1_COMMAND_WRITE_AND_UNLOCK"@
    } else if c == 0x24 {
        "SMB1_COMMAND_LOCKING_ANDX"@
    } else if c == 0x25 {
        "SMB1_COMMAND_TRANS"@
    } else if c == 0x2b {
        "SMB1_COMMAND_ECHO"@
    } else if c == 0x2e {
        "SMB1_COMMAND_READ_ANDX"@
    } else if c == 0x2f {
        "SMB1_COMMAND_WRITE_ANDX"@
    } else if c == 0x32 {
        "SMB1_COMMAND_TRANS2"@
    } else if c == 0x33 {
        "SMB1_COMMAND_TRANS2_SECONDARY"@
    } else if c == 0x34 {
        "SMB1_COMMAND_FIND_CLOSE2"@
    } else if c == 0x71 {
        "SMB1_COMMAND_TREE_DISCONNECT"@
    } else if c == 0x72 {
        "SMB1_COMMAND_NEGOTIATE_PROTOCOL"@
    } else if c == 0x73 {
        "SMB1_COMMAND_SESSION_SETUP_ANDX"@
    } else if c == 0x74 {
        "SMB1_COMMAND_LOGOFF_ANDX"@
    } else if c == 0x75 {
        "SMB1_COMMAND_TREE_CONNECT_ANDX"@
    } else if c == 0xa0 {
        "SMB1_COMMAND_NT_TRANS"@
    } else if c == 0xa2 {
        "SMB1_COMMAND_NT_CREATE_ANDX"@
    } else {
        "SMB1_COMMAND_NT_CANCEL"@
    }
}

/// The printable name of a command code: the table entry for a known
/// code, the decimal value otherwise.
pub fn smb1_command_string(c: u8) -> (r: String)
    ensures
        spec_smb1_command_known(c) ==> r@ == spec_smb1_command_name(c),
        !spec_smb1_command_known(c) ==> encode_utf8(r@) == spec_u8_decimal(c),
{
    let s: &str = match c {
        SMB1_COMMAND_CREATE_DIRECTORY => "SMB1_COMMAND_CREATE_DIRECTORY",
        SMB1_COMMAND_DELETE_DIRECTORY => "SMB1_COMMAND_DELETE_DIRECTORY",
        SMB1_COMMAND_OPEN => "SMB1_COMMAND_OPEN",
        SMB1_COMMAND_CREATE => "SMB1_COMMAND_CREATE",
        SMB1_COMMAND_CLOSE => "SMB1_COMMAND_CLOSE",
        SMB1_COMMAND_FLUSH => "SMB1_COMMAND_FLUSH",
        SMB1_COMMAND_DELETE => "SMB1_COMMAND_DELETE",
        SMB1_COMMAND_RENAME => "SMB1_COMMAND_RENAME",
        SMB1_COMMAND_QUERY_INFORMATION => "SMB1_COMMAND_QUERY_INFORMATION",
        SMB1_COMMAND_SET_INFORMATION => "SMB1_COMMAND_SET_INFORMATION",
        SMB1_COMMAND_READ => "SMB1_COMMAND_READ",
        SMB1_COMMAND_WRITE => "SMB1_COMMAND_WRITE",
        SMB1_COMMAND_LOCK_BYTE_RANGE => "SMB1_COMMAND_LOCK_BYTE_RANGE",
        SMB1_COMMAND_UNLOCK_BYTE_RANGE => "SMB1_COMMAND_UNLOCK_BYTE_RANGE",
        SMB1_COMMAND_CREATE_TEMPORARY => "SMB1_COMMAND_CREATE_TEMPORARY",
        SMB1_COMMAND_CREATE_NEW => "SMB1_COMMAND_CREATE_NEW",
        SMB1_COMMAND_CHECK_DIRECTORY => "SMB1_COMMAND_CHECK_DIRECTORY",
        SMB1_COMMAND_PROCESS_EXIT => "SMB1_COMMAND_PROCESS_EXIT",
        SMB1_COMMAND_SEEK => "SMB1_COMMAND_SEEK",
        SMB1_COMMAND_LOCK_AND_READ => "SMB1_COMMAND_LOCK_AND_READ",
        SMB1_COMMAND_WRITE_AND_UNLOCK => "SMB1_COMMAND_WRITE_AND_UNLOCK",
        SMB1_COMMAND_LOCKING_ANDX => "SMB1_COMMAND_LOCKING_ANDX",
        SMB1_COMMAND_ECHO => "SMB1_COMMAND_ECHO",
        SMB1_COMMAND_READ_ANDX => "SMB1_COMMAND_READ_ANDX",
        SMB1_COMMAND_WRITE_ANDX => "SMB1_COMMAND_WRITE_ANDX",
        SMB1_COMMAND_TRANS => "SMB1_COMMAND_TRANS",
        SMB1_COMMAND_TRANS2 => "SMB1_COMMAND_TRANS2",
        SMB1_COMMAND_TRANS2_SECONDARY => "SMB1_COMMAND_TRANS2_SECONDARY",
        SMB1_COMMAND_FIND_CLOSE2 => "SMB1_COMMAND_FIND_CLOSE2",
        SMB1_COMMAND_TREE_DISCONNECT => "SMB1_COMMAND_TREE_DISCONNECT",
        SMB1_COMMAND_NEGOTIATE_PROTOCOL => "SMB1_COMMAND_NEGOTIATE_PROTOCOL",
        SMB1_COMMAND_SESSION_SETUP_ANDX => "SMB1_COMMAND_SESSION_SETUP_ANDX",
        SMB1_COMMAND_LOGOFF_ANDX => "SMB1_COMMAND_LOGOFF_ANDX",
        SMB1_COMMAND_TREE_CONNECT_ANDX => "SMB1_COMMAND_TREE_CONNECT_ANDX",
        SMB1_COMMAND_NT_TRANS => "SMB1_COMMAND_NT_TRANS",
        SMB1_COMMAND_NT_CREATE_ANDX => "SMB1_COMMAND_NT_CREATE_ANDX",
        SMB1_COMMAND_NT_CANCEL => "SMB1_COMMAND_NT_CANCEL",
        _ => {
            return crate::events::string_from_ascii_bytes(u8_dec_bytes(c));
        },
    };
    s.to_owned()
}

/// Whether a command opens a transaction of its own when no handler did.
pub fn smb1_create_new_tx(_cmd: u8) -> (r: bool)
    ensures
        r == true,
{
    true
}

/// The name bytes with NUL padding stripped.
pub open spec fn spec_strip_nul(s: Seq<u8>) -> Seq<u8>
    decreases s.len(),
{
    if s.len() == 0 {
        Seq::empty()
    } else if s.last() == 0 {
        spec_strip_nul(s.drop_last())
    } else {
        spec_strip_nul(s.drop_last()) + seq![s.last()]
    }
}

/// The bytes of the LANMAN pipe service name.
pub open spec fn spec_pipe_lanman_name() -> Seq<u8> {
    seq![92u8, 80u8, 73u8, 80u8, 69u8, 92u8, 76u8, 65u8, 78u8, 77u8, 65u8, 78u8]
}

/// The bytes of the bare pipe service name.
pub open spec fn spec_pipe_name() -> Seq<u8> {
    seq![92u8, 80u8, 73u8, 80u8, 69u8, 92u8]
}

/// The service a transaction name denotes and whether it tunnels the
/// embedded RPC protocol. A name that is not valid UTF-8 after stripping
/// its NUL padding reads as malformed.
pub open spec fn spec_service_for(name: Seq<u8>) -> (Seq<char>, bool) {
    let st = spec_strip_nul(name);
    if st == spec_pipe_lanman_name() {
        ("LANMAN"@, false)
    } else if st == spec_pipe_name() {
        ("PIPE"@, true)
    } else if !valid_utf8(st) {
        ("MALFORMED"@, false)
    } else {
        ("UNKNOWN"@, false)
    }
}

/// Decide whether the bytes form a valid UTF-8 encoding: well-formed
/// leading/continuation bit patterns, no overlong encodings, and nothing
/// in the surrogate range.
pub fn is_valid_utf8(s: &[u8]) -> (r: bool)
    ensures
        r == valid_utf8(s@),
{
    let len = s.len();
    let mut i: usize = 0;
    proof {
        assert(s@.subrange(0, len as int) =~= s@);
    }
    while i < len
        invariant
            0 <= i <= len,
            len == s@.len(),
            valid_utf8(s@) == valid_utf8(s@.subrange(i as int, len as int)),
        decreases len - i,
    {
        let ghost t = s@.subrange(i as int, len as int);
        let b0 = s[i];
        proof {
            assert(t.len() == len - i);
            assert(t[0] == b0);
        }
        if b0 <= 0x7f {
            proof {
                assert((b0 & 0x7f) < 0xd800usize as u32) by (bit_vector);
                assert(valid_first_scalar(t));
                assert(pop_first_scalar(t) =~= s@.subrange(i + 1, len as int));
            }
            i = i + 1;
        } else if 0xc2 <= b0 && b0 <= 0xdf {
            if len - i < 2 {
                proof {
                    assert(!valid_leading_and_continuation_bytes_first_codepoint(t));
                }
                return false;
            }
            let b1 = s[i + 1];
            proof {
                assert(t[1] == b1);
            }
            if !(0x80 <= b1 && b1 <= 0xbf) {
                proof {
                    assert(!valid_leading_and_continuation_bytes_first_codepoint(t));
                }
                return false;
            }
            proof {
                assert({
                    let cp = (((b0 & 0x1f) as u32) << 6) | ((b1 & 0x3f) as u32);
                    0x80 <= cp <= 0x7ff
                }) by (bit_vector)
                    requires
                        0xc2 <= b0 <= 0xdf,
                ;
                assert(valid_first_scalar(t));
                assert(pop_first_scalar(t) =~= s@.subrange(i + 2, len as int));
            }
            i = i + 2;
        } else if 0xe0 <= b0 && b0 <= 0xef {
            if len - i < 3 {
                proof {
                    assert(!valid_leading_and_continuation_bytes_first_codepoint(t));
                }
                return false;
            }
            let b1 = s[i + 1];
            let b2 = s[i + 2];
            proof {
                assert(t[1] == b1 && t[2] == b2);
            }
            if !(0x80 <= b1 && b1 <= 0xbf) || !(0x80 <= b2 && b2 <= 0xbf) {
                proof {
                    assert(!valid_leading_and_continuation_bytes_first_codepoint(t));
                }
                return false;
            }
            if b0 == 0xe0 && b1 < 0xa0 {
                proof {
                    assert({
                        let cp = (((b0 & 0x0f) as u32) << 12) | (((b1 & 0x3f) as u32) << 6) | ((b2
                            & 0x3f) as u32);
                        cp < 0x800
                    }) by (bit_vector)
                        requires
                            b0 == 0xe0 && 0x80 <= b1 < 0xa0,
                    ;
                    assert(!valid_first_scalar(t));
                }
                return false;
            }
            if b0 == 0xed && b1 >= 0xa0 {
                proof {
                    assert({
                        let cp = (((b0 & 0x0f) as u32) << 12) | (((b1 & 0x3f) as u32) << 6) | ((b2
                            & 0x3f) as u32);
                        0xd800 <= cp <= 0xdfff
                    }) by (bit_vector)
                        requires
                            b0 == 0xed && 0xa0 <= b1 <= 0xbf && 0x80 <= b2 <= 0xbf,
                    ;
                    assert(!valid_first_scalar(t));
                }
                return false;
            }
            proof {
                assert({
                    let cp = (((b0 & 0x0f) as u32) << 12) | (((b1 & 0x3f) as u32) << 6) | ((b2
                        & 0x3f) as u32);
                    0x800 <= cp <= 0xffff && !(0xd800 <= cp <= 0xdfff)
                }) by (bit_vector)
                    requires
                        0xe0 <= b0 <= 0xef && 0x80 <= b1 <= 0xbf && 0x80 <= b2 <= 0xbf && !(b0
                            == 0xe0 && b1 < 0xa0) && !(b0 == 0xed && b1 >= 0xa0),
                ;
                assert(valid_first_scalar(t));
                assert(pop_first_scalar(t) =~= s@.subrange(i + 3, len as int));
            }
            i = i + 3;
        } else if 0xf0 <= b0 && b0 <= 0xf4 {
            if len - i < 4 {
                proof {
                    assert(!valid_leading_and_continuation_bytes_first_codepoint(t));
                }
                return false;
            }
            let b1 = s[i + 1];
            let b2 = s[i + 2];
            let b3 = s[i + 3];
            proof {
                assert(t[1] == b1 && t[2] == b2 && t[3] == b3);
            }
            if !(0x80 <= b1 && b1 <= 0xbf) || !(0x80 <= b2 && b2 <= 0xbf) || !(0x80 <= b3 && b3
                <= 0xbf) {
                proof {
                    assert(!valid_leading_and_continuation_bytes_first_codepoint(t));
                }
                return false;
            }
            if (b0 == 0xf0 && b1 < 0x90) || (b0 == 0xf4 && b1 > 0x8f) {
                proof {
                    assert({
                        let cp = (((b0 & 0x07) as u32) << 18) | (((b1 & 0x3f) as u32) << 12) | (((
                        b2 & 0x3f) as u32) << 6) | ((b3 & 0x3f) as u32);
                        !(0x10000 <= cp <= 0x10ffff)
                    }) by (bit_vector)
                        requires
                            0x80 <= b1 <= 0xbf && ((b0 == 0xf0 && b1 < 0x90) || (b0 == 0xf4 && b1
                                > 0x8f)),
                    ;
                    assert(!valid_first_scalar(t));
                }
                return false;
            }
            proof {
                assert({
                    let cp = (((b0 & 0x07) as u32) << 18) | (((b1 & 0x3f) as u32) << 12) | (((b2
                        & 0x3f) as u32) << 6) | ((b3 & 0x3f) as u32);
                    0x10000 <= cp <= 0x10ffff
                }) by (bit_vector)
                    requires
                        0xf0 <= b0 <= 0xf4 && 0x80 <= b1 <= 0xbf && 0x80 <= b2 <= 0xbf && 0x80
                            <= b3 <= 0xbf && !(b0 == 0xf0 && b1 < 0x90) && !(b0 == 0xf4 && b1
                            > 0x8f),
                ;
                assert(valid_first_scalar(t));
                assert(pop_first_scalar(t) =~= s@.subrange(i + 4, len as int));
            }
            i = i + 4;
        } else {
            proof {
                if 0xc0 <= b0 <= 0xc1 {
                    if valid_leading_and_continuation_bytes_first_codepoint(t) {
                        let ghost b1 = t[1];
                        assert({
                            let cp = (((b0 & 0x1f) as u32) << 6) | ((b1 & 0x3f) as u32);
                            cp < 0x80
                        }) by (bit_vector)
                            requires
                                0xc0 <= b0 <= 0xc1,
                        ;
                        assert(!valid_first_scalar(t));
                    }
                } else if 0xf5 <= b0 && b0 <= 0xf7 {
                    if valid_leading_and_continuation_bytes_first_codepoint(t) {
                        let ghost b1 = t[1];
                        let ghost b2 = t[2];
                        let ghost b3 = t[3];
                        assert({
                            let cp = (((b0 & 0x07) as u32) << 18) | (((b1 & 0x3f) as u32) << 12)
                                | (((b2 & 0x3f) as u32) << 6) | ((b3 & 0x3f) as u32);
                            cp > 0x10ffff
                        }) by (bit_vector)
                            requires
                                0xf5 <= b0 <= 0xf7,
                        ;
                        assert(!valid_first_scalar(t));
                    }
                } else {
                    assert(!valid_leading_and_continuation_bytes_first_codepoint(t));
                }
            }
            return false;
        }
    }
    proof {
        assert(s@.subrange(i as int, len as int).len() == 0);
    }
    true
}


fn pipe_lanman_name() -> (r: Vec<u8>)
    ensures
        r@ == spec_pipe_lanman_name(),
{
    let mut v: Vec<u8> = Vec::new();
    v.push(92);
    v.push(80);
    v.push(73);
    v.push(80);
    v.push(69);
    v.push(92);
    v.push(76);
    v.push(65);
    v.push(78);
    v.push(77);
    v.push(65);
    v.push(78);
    assert(v@ =~= spec_pipe_lanman_name());
    v
}

fn pipe_name() -> (r: Vec<u8>)
    ensures
        r@ == spec_pipe_name(),
{
    let mut v: Vec<u8> = Vec::new();
    v.push(92);
    v.push(80);
    v.push(73);
    v.push(80);
    v.push(69);
    v.push(92);
    assert(v@ =~= spec_pipe_name());
    v
}

/// Resolve a transaction name (NUL padding ignored) to the service it
/// addresses, and whether that service tunnels the embedded RPC protocol.
pub fn get_service_for_nameslice(nameslice: &[u8]) -> (r: (&'static str, bool))
    ensures
        r.0@ == spec_service_for(nameslice@).0,
        r.1 == spec_service_for(nameslice@).1,
{
    let mut name: Vec<u8> = Vec::new();
    let mut i: usize = 0;
    while i < nameslice.len()
        invariant
            0 <= i <= nameslice@.len(),
            name@ == spec_strip_nul(nameslice@.subrange(0, i as int)),
        decreases nameslice@.len() - i,
    {
        let b = nameslice[i];
        proof {
            assert(nameslice@.subrange(0, i + 1 as int).drop_last() =~= nameslice@.subrange(
                0,
                i as int,
            ));
        }
        if b != 0 {
            name.push(b);
            assert(name@ =~= spec_strip_nul(nameslice@.subrange(0, i + 1 as int)));
        }
        i = i + 1;
    }
    assert(nameslice@.subrange(0, i as int) =~= nameslice@);
    if crate::bytes_eq(&name, &pipe_lanman_name()) {
        ("LANMAN", false)
    } else if crate::bytes_eq(&name, &pipe_name()) {
        ("PIPE", true)
    } else if !is_valid_utf8(name.as_slice()) {
        ("MALFORMED", false)
    } else {
        ("UNKNOWN", false)
    }
}

pub const SMBHDR_TYPE_GUID: u32 = 0;

pub const SMBHDR_TYPE_GENERICTX: u32 = 1;

pub const SMBHDR_TYPE_HEADER: u32 = 2;

pub const SMBHDR_TYPE_MAX_SIZE: u32 = 3;

pub const SMBHDR_TYPE_TXNAME: u32 = 4;

pub const SMBHDR_TYPE_SHARE: u32 = 5;

pub const SMBHDR_TYPE_TREE: u32 = 6;

pub const SMBHDR_TYPE_FILENAME: u32 = 7;

pub const SMBHDR_TYPE_OFFSET: u32 = 8;

pub const SMBHDR_TYPE_TRANS_FRAG: u32 = 9;

/// The composite correlation key: a key kind, the session, the tree, and
/// the multiplex identity. Keys match a response to its pending request.
#[derive(Clone, Copy, Debug, PartialEq, Eq, Structural, Hash)]
pub struct SMBCommonHdr {
    pub rec_type: u32,
    pub ssn_id: u64,
    pub tree_id: u32,
    pub msg_id: u64,
}

/// The key a record yields for a key kind: tree-scoped keys ignore the
/// multiplex identity, and the tree kind is keyed before its tree identity
/// is known.
pub open spec fn spec_hdr_from1(
    rec_type: u32,
    ssn_id: u32,
    tree_id: u16,
    multiplex_id: u16,
) -> SMBCommonHdr {
    SMBCommonHdr {
        rec_type,
        ssn_id: ssn_id as u64,
        tree_id: if rec_type == SMBHDR_TYPE_TREE {
            0
        } else {
            tree_id as u32
        },
        msg_id: if rec_type == SMBHDR_TYPE_TREE || rec_type == SMBHDR_TYPE_SHARE {
            0
        } else {
            multiplex_id as u64
        },
    }
}

impl SMBCommonHdr {
    /// Build a key directly from its parts.
    pub fn new(rec_type: u32, ssn_id: u64, tree_id: u32, msg_id: u64) -> (r: SMBCommonHdr)
        ensures
            r == (SMBCommonHdr { rec_type, ssn_id, tree_id, msg_id }),
    {
        SMBCommonHdr { rec_type, ssn_id, tree_id, msg_id }
    }

    /// Derive the key of the given kind from a record's header fields.
    pub fn from1(r: &SmbRecord, rec_type: u32) -> (k: SMBCommonHdr)
        ensures
            k == spec_hdr_from1(rec_type, r.ssn_id, r.tree_id, r.multiplex_id),
    {
        SMBCommonHdr {
            rec_type,
            ssn_id: r.ssn_id as u64,
            tree_id: if rec_type == SMBHDR_TYPE_TREE {
                0
            } else {
                r.tree_id as u32
            },
            msg_id: if rec_type == SMBHDR_TYPE_TREE || rec_type == SMBHDR_TYPE_SHARE {
                0
            } else {
                r.multiplex_id as u64
            },
        }
    }
}

/// The protocol version, command and status a transaction was driven by.
#[derive(Clone, Copy, Debug, PartialEq, Eq, Structural)]
pub struct SMBVerCmdStat {
    pub smb_ver: u8,
    pub smb1_cmd: u8,
    pub nt_status: u32,
    pub is_dos_error: bool,
}

impl SMBVerCmdStat {
    /// A fresh slot with no command recorded.
    pub fn new() -> (r: SMBVerCmdStat)
        ensures
            r == (SMBVerCmdStat { smb_ver: 0, smb1_cmd: 0, nt_status: 0, is_dos_error: false }),
    {
        SMBVerCmdStat { smb_ver: 0, smb1_cmd: 0, nt_status: 0, is_dos_error: false }
    }

    /// A slot recording one command of protocol version one.
    pub fn new1(cmd: u8) -> (r: SMBVerCmdStat)
        ensures
            r == (SMBVerCmdStat { smb_ver: 1, smb1_cmd: cmd, nt_status: 0, is_dos_error: false }),
    {
        SMBVerCmdStat { smb_ver: 1, smb1_cmd: cmd, nt_status: 0, is_dos_error: false }
    }

    /// A slot recording one command and its status.
    pub fn new1_with_ntstatus(cmd: u8, nt_status: u32) -> (r: SMBVerCmdStat)
        ensures
            r == (SMBVerCmdStat { smb_ver: 1, smb1_cmd: cmd, nt_status, is_dos_error: false }),
    {
        SMBVerCmdStat { smb_ver: 1, smb1_cmd: cmd, nt_status, is_dos_error: false }
    }

    /// Record a command of protocol version one.
    pub fn set_smb1_cmd(&mut self, cmd: u8)
        ensures
            *final(self) == (SMBVerCmdStat { smb_ver: 1, smb1_cmd: cmd, ..*old(self) }),
    {
        self.smb_ver = 1;
        self.smb1_cmd = cmd;
    }

    /// Record the status the server answered with.
    pub fn set_status(&mut self, nt_status: u32, is_dos_error: bool)
        ensures
            *final(self) == (SMBVerCmdStat { nt_status, is_dos_error, ..*old(self) }),
    {
        self.nt_status = nt_status;
        self.is_dos_error = is_dos_error;
    }
}

/// Anomaly events of this protocol.
#[derive(Clone, Copy, Debug, PartialEq, Eq, Structural)]
pub enum SMBEvent {
    MalformedData,
    DuplicateNegotiate,
}

/// The integer id of an event.
pub open spec fn spec_smb_event_id(e: SMBEvent) -> u8 {
    match e {
        SMBEvent::MalformedData => 0,
        SMBEvent::DuplicateNegotiate => 1,
    }
}

/// The integer id of an event.
pub fn smb_event_id(e: SMBEvent) -> (r: u8)
    ensures
        r == spec_smb_event_id(e),
{
    match e {
        SMBEvent::MalformedData => 0,
        SMBEvent::DuplicateNegotiate => 1,
    }
}

/// A share granted by the server, and whether it is the pipe service.
#[derive(Debug, Clone, PartialEq, Eq)]
pub struct SMBTree {
    pub name: Vec<u8>,
    pub is_pipe: bool,
}

impl SMBTree {
    /// Record a granted share.
    pub fn new(name: Vec<u8>, is_pipe: bool) -> (r: SMBTree)
        ensures
            r.name == name,
            r.is_pipe == is_pipe,
    {
        SMBTree { name, is_pipe }
    }
}

/// A pending read: the file handle and offset stored by a request, waiting
/// for the response that consumes them.
#[derive(Debug, Clone, PartialEq, Eq)]
pub struct SMBFileGUIDOffset {
    pub guid: Vec<u8>,
    pub offset: u64,
}

impl SMBFileGUIDOffset {
    /// Pair a file handle with the offset its data will land at.
    pub fn new(guid: Vec<u8>, offset: u64) -> (r: SMBFileGUIDOffset)
        ensures
            r.guid == guid,
            r.offset == offset,
    {
        SMBFileGUIDOffset { guid, offset }
    }
}

/// One ordered byte range fed towards the external file-reconstruction
/// sink.
#[derive(Debug, Clone, PartialEq, Eq)]
pub struct FileChunk {
    pub offset: u64,
    pub data: Vec<u8>,
}

/// Payload of a negotiation transaction: the dialects the client offered.
#[derive(Debug, Clone, PartialEq, Eq)]
pub struct SMBTransactionNegotiate {
    pub dialects: Vec<Vec<u8>>,
}

/// Payload of a tree-connect transaction.
#[derive(Debug, Clone, PartialEq, Eq)]
pub struct SMBTransactionTreeConnect {
    pub share_name: Vec<u8>,
    pub is_pipe: bool,
    pub tree_id: u32,
}

/// Payload of a create transaction.
#[derive(Debug, Clone, PartialEq, Eq)]
pub struct SMBTransactionCreate {
    pub file_name: Vec<u8>,
    pub disposition: u32,
    pub delete_on_close: bool,
    pub directory: bool,
}

/// Payload of a file transaction: the tracked handle and the ordered byte
/// ranges reconstructed so far.
#[derive(Debug, Clone, PartialEq, Eq)]
pub struct SMBTransactionFile {
    pub direction: Direction,
    pub guid: Vec<u8>,
    pub file_name: Vec<u8>,
    pub share_name: Vec<u8>,
    pub chunks: Vec<FileChunk>,
}

/// The protocol-specific payload of a transaction.
#[derive(Debug, Clone, PartialEq, Eq)]
pub enum SMBTransactionTypeData {
    NEGOTIATE(SMBTransactionNegotiate),
    TREECONNECT(SMBTransactionTreeConnect),
    CREATE(SMBTransactionCreate),
    FILE(SMBTransactionFile),
}

/// One request/response exchange: identity, correlation key, command and
/// status, per-direction completion flags, anomaly events, the
/// detection-state slot, and the command-specific payload.
#[derive(Debug)]
pub struct SMBTransaction {
    pub id: u64,
    pub vercmd: SMBVerCmdStat,
    pub hdr: SMBCommonHdr,
    pub request_done: bool,
    pub response_done: bool,
    pub events: Vec<u8>,
    pub de_state: Option<DetectEngineState>,
    pub type_data: Option<SMBTransactionTypeData>,
}

impl SMBTransaction {
    /// Progress of one direction: nonzero once that direction is done.
    /// Progress never regresses: the done flags are only ever raised.
    pub fn get_alstate_progress(&self, direction: Direction) -> (r: i32)
        ensures
            r == if (direction is ToServer && self.request_done) || (direction is ToClient
                && self.response_done) {
                1int
            } else {
                0int
            },
    {
        match direction {
            Direction::ToServer => if self.request_done {
                1
            } else {
                0
            },
            Direction::ToClient => if self.response_done {
                1
            } else {
                0
            },
        }
    }


    /// The detection-state handle attached to the transaction, if any.
    pub fn get_detect_state(&self) -> (r: Option<DetectEngineState>)
        ensures
            r == self.de_state,
    {
        self.de_state
    }

    /// Attach a detection-state handle; the transaction owns it until it
    /// is freed.
    pub fn set_detect_state(&mut self, de_state: DetectEngineState)
        ensures
            final(self).de_state == Some(de_state),
            final(self).id == old(self).id,
            final(self).vercmd == old(self).vercmd,
            final(self).hdr == old(self).hdr,
            final(self).request_done == old(self).request_done,
            final(self).response_done == old(self).response_done,
            final(self).events@ == old(self).events@,
            final(self).type_data == old(self).type_data,
    {
        self.de_state = Some(de_state);
    }

    /// Set one event on the transaction.
    pub fn set_event(&mut self, event: SMBEvent)
        ensures
            final(self).events@ == old(self).events@.push(spec_smb_event_id(event)),
            final(self).id == old(self).id,
            final(self).vercmd == old(self).vercmd,
            final(self).hdr == old(self).hdr,
            final(self).request_done == old(self).request_done,
            final(self).response_done == old(self).response_done,
            final(self).de_state == old(self).de_state,
            final(self).type_data == old(self).type_data,
    {
        let id = smb_event_id(event);
        self.events.push(id);
    }

    /// Append several events in order.
    pub fn set_events(&mut self, events: Vec<SMBEvent>)
        ensures
            final(self).events@ == old(self).events@ + events@.map_values(
                |e: SMBEvent| spec_smb_event_id(e),
            ),
            final(self).id == old(self).id,
            final(self).vercmd == old(self).vercmd,
            final(self).hdr == old(self).hdr,
            final(self).request_done == old(self).request_done,
            final(self).response_done == old(self).response_done,
            final(self).de_state == old(self).de_state,
            final(self).type_data == old(self).type_data,
    {
        let mut i: usize = 0;
        while i < events.len()
            invariant
                0 <= i <= events@.len(),
                self.events@ == old(self).events@ + events@.subrange(0, i as int).map_values(
                    |e: SMBEvent| spec_smb_event_id(e),
                ),
                self.id == old(self).id,
                self.vercmd == old(self).vercmd,
                self.hdr == old(self).hdr,
                self.request_done == old(self).request_done,
                self.response_done == old(self).response_done,
                self.de_state == old(self).de_state,
                self.type_data == old(self).type_data,
            decreases events@.len() - i,
        {
            let id = smb_event_id(events[i]);
            self.events.push(id);
            proof {
                let f = |e: SMBEvent| spec_smb_event_id(e);
                assert(events@.subrange(0, i + 1 as int).drop_last() =~= events@.subrange(
                    0,
                    i as int,
                ));
                assert(events@.subrange(0, i + 1 as int).map_values(f) =~= events@.subrange(
                    0,
                    i as int,
                ).map_values(f).push(f(events@[i as int])));
                assert(self.events@ =~= old(self).events@ + events@.subrange(
                    0,
                    i + 1 as int,
                ).map_values(f));
            }
            i = i + 1;
        }
        assert(events@.subrange(0, i as int) =~= events@);
    }

    /// Record the status the server answered with.
    pub fn set_status(&mut self, nt_status: u32, is_dos_error: bool)
        ensures
            final(self).vercmd == (SMBVerCmdStat { nt_status, is_dos_error, ..old(self).vercmd }),
            final(self).id == old(self).id,
            final(self).hdr == old(self).hdr,
            final(self).request_done == old(self).request_done,
            final(self).response_done == old(self).response_done,
            final(self).events@ == old(self).events@,
            final(self).de_state == old(self).de_state,
            final(self).type_data == old(self).type_data,
    {
        self.vercmd.set_status(nt_status, is_dos_error);
    }
}

/// The index of the first entry whose key equals `key`, or the length when
/// none does.
pub open spec fn spec_hdr_find<V>(
    entries: Seq<(SMBCommonHdr, V)>,
    key: SMBCommonHdr,
    from: int,
) -> int
    decreases entries.len() - from,
{
    if from < 0 || from >= entries.len() {
        entries.len() as int
    } else if entries[from].0 == key {
        from
    } else {
        spec_hdr_find(entries, key, from + 1)
    }
}

/// The entries after a replacing insert: an entry under the same key is
/// removed first, then the new pair is appended.
pub open spec fn spec_hdr_insert<V>(
    entries: Seq<(SMBCommonHdr, V)>,
    key: SMBCommonHdr,
    value: V,
) -> Seq<(SMBCommonHdr, V)> {
    let j = spec_hdr_find(entries, key, 0);
    if j < entries.len() {
        entries.remove(j).push((key, value))
    } else {
        entries.push((key, value))
    }
}

/// Find the first entry under `key`.
fn hdr_map_find<V>(entries: &Vec<(SMBCommonHdr, V)>, key: SMBCommonHdr) -> (r: Option<usize>)
    ensures
        ({
            let j = spec_hdr_find(entries@, key, 0);
            match r {
                Some(i) => i == j && j < entries@.len(),
                None => j == entries@.len(),
            }
        }),
{
    let mut i: usize = 0;
    while i < entries.len()
        invariant
            0 <= i <= entries@.len(),
            spec_hdr_find(entries@, key, 0) == spec_hdr_find(entries@, key, i as int),
        decreases entries@.len() - i,
    {
        if entries[i].0 == key {
            return Some(i);
        }
        i = i + 1;
    }
    None
}

/// Insert a pair, replacing any entry under the same key.
fn hdr_map_insert<V>(entries: &mut Vec<(SMBCommonHdr, V)>, key: SMBCommonHdr, value: V)
    ensures
        final(entries)@ == spec_hdr_insert(old(entries)@, key, value),
{
    let found = hdr_map_find(entries, key);
    match found {
        Some(j) => {
            entries.remove(j);
            entries.push((key, value));
        },
        None => {
            entries.push((key, value));
        },
    }
}

/// Remove and return the entry under `key`, if present.
fn hdr_map_remove<V>(entries: &mut Vec<(SMBCommonHdr, V)>, key: SMBCommonHdr) -> (r: Option<V>)
    ensures
        ({
            let j = spec_hdr_find(old(entries)@, key, 0);
            if j < old(entries)@.len() {
                &&& final(entries)@ == old(entries)@.remove(j)
                &&& r matches Some(v) && v == old(entries)@[j].1
            } else {
                &&& final(entries)@ == old(entries)@
                &&& r is None
            }
        }),
{
    let found = hdr_map_find(entries, key);
    match found {
        Some(j) => {
            let pair = entries.remove(j);
            Some(pair.1)
        },
        None => None,
    }
}

/// Borrow the value under `key`, if present.
fn hdr_map_get<'a, V>(entries: &'a Vec<(SMBCommonHdr, V)>, key: SMBCommonHdr) -> (r: Option<
    &'a V,
>)
    ensures
        ({
            let j = spec_hdr_find(entries@, key, 0);
            match r {
                Some(v) => j < entries@.len() && *v == entries@[j].1,
                None => j == entries@.len(),
            }
        }),
{
    let found = hdr_map_find(entries, key);
    match found {
        Some(j) => Some(&entries[j].1),
        None => None,
    }
}

/// The index of the first entry whose byte-vector key views as `key`, or
/// the length when none does.
pub open spec fn spec_guid_find<V>(entries: Seq<(Vec<u8>, V)>, key: Seq<u8>, from: int) -> int
    decreases entries.len() - from,
{
    if from < 0 || from >= entries.len() {
        entries.len() as int
    } else if entries[from].0@ == key {
        from
    } else {
        spec_guid_find(entries, key, from + 1)
    }
}

/// The entries after a replacing insert under a byte-vector key.
pub open spec fn spec_guid_insert<V>(entries: Seq<(Vec<u8>, V)>, key: Vec<u8>, value: V) -> Seq<
    (Vec<u8>, V),
> {
    let j = spec_guid_find(entries, key@, 0);
    if j < entries.len() {
        entries.remove(j).push((key, value))
    } else {
        entries.push((key, value))
    }
}

/// Find the first entry under a byte-vector key.
fn guid_map_find<V>(entries: &Vec<(Vec<u8>, V)>, key: &Vec<u8>) -> (r: Option<usize>)
    ensures
        ({
            let j = spec_guid_find(entries@, key@, 0);
            match r {
                Some(i) => i == j && j < entries@.len(),
                None => j == entries@.len(),
            }
        }),
{
    let mut i: usize = 0;
    while i < entries.len()
        invariant
            0 <= i <= entries@.len(),
            spec_guid_find(entries@, key@, 0) == spec_guid_find(entries@, key@, i as int),
        decreases entries@.len() - i,
    {
        if crate::bytes_eq(&entries[i].0, key) {
            return Some(i);
        }
        i = i + 1;
    }
    None
}

/// Insert a pair under a byte-vector key, replacing any entry under the
/// same key.
fn guid_map_insert<V>(entries: &mut Vec<(Vec<u8>, V)>, key: Vec<u8>, value: V)
    ensures
        final(entries)@ == spec_guid_insert(old(entries)@, key, value),
{
    let found = guid_map_find(entries, &key);
    match found {
        Some(j) => {
            entries.remove(j);
            entries.push((key, value));
        },
        None => {
            entries.push((key, value));
        },
    }
}

/// Borrow the value under a byte-vector key, if present.
fn guid_map_get<'a, V>(entries: &'a Vec<(Vec<u8>, V)>, key: &Vec<u8>) -> (r: Option<&'a V>)
    ensures
        ({
            let j = spec_guid_find(entries@, key@, 0);
            match r {
                Some(v) => j < entries@.len() && *v == entries@[j].1,
                None => j == entries@.len(),
            }
        }),
{
    let found = guid_map_find(entries, key);
    match found {
        Some(j) => Some(&entries[j].1),
        None => None,
    }
}

/// One record delegated to the embedded RPC protocol's own ingestion entry
/// point: the raw payload bytes, the direction, and the version/command
/// tag. This is a delegation boundary, not a fallthrough.
#[derive(Debug, Clone, PartialEq, Eq)]
pub struct TunnelRecord {
    pub direction: Direction,
    pub vercmd: SMBVerCmdStat,
    pub hdr: SMBCommonHdr,
    pub fid: Vec<u8>,
    pub data: Vec<u8>,
}

/// Transaction identity is strictly increasing within a state and never
/// reused: in a well-formed table every identity is at most the counter,
/// so the identity the next record may open a transaction under is above
/// every identity that is in use or ever was.
pub proof fn lemma_smb_tx_id_never_reused(txs: Seq<SMBTransaction>, tx_id: u64)
    requires
        spec_wf_txs(txs, tx_id),
        tx_id < u64::MAX,
    ensures
        forall|i: int| 0 <= i < txs.len() ==> (#[trigger] txs[i].id) < tx_id + 1,
{
}

/// Key of the partial-response store: a correlation key together with a
/// file handle.
#[derive(Debug, Clone, PartialEq, Eq)]
pub struct SMBHashKeyHdrGuid {
    pub hdr: SMBCommonHdr,
    pub guid: Vec<u8>,
}

impl SMBHashKeyHdrGuid {
    /// Pair a correlation key with a file handle.
    pub fn new(hdr: SMBCommonHdr, guid: Vec<u8>) -> (r: SMBHashKeyHdrGuid)
        ensures
            r.hdr == hdr,
            r.guid == guid,
    {
        SMBHashKeyHdrGuid { hdr, guid }
    }
}

/// The index of the first entry whose key has this correlation key and
/// file handle, or the length when none does.
pub open spec fn spec_hdrguid_find<V>(
    entries: Seq<(SMBHashKeyHdrGuid, V)>,
    hdr: SMBCommonHdr,
    guid: Seq<u8>,
    from: int,
) -> int
    decreases entries.len() - from,
{
    if from < 0 || from >= entries.len() {
        entries.len() as int
    } else if entries[from].0.hdr == hdr && entries[from].0.guid@ == guid {
        from
    } else {
        spec_hdrguid_find(entries, hdr, guid, from + 1)
    }
}

/// The entries after a replacing insert under a composite key.
pub open spec fn spec_hdrguid_insert<V>(
    entries: Seq<(SMBHashKeyHdrGuid, V)>,
    key: SMBHashKeyHdrGuid,
    value: V,
) -> Seq<(SMBHashKeyHdrGuid, V)> {
    let j = spec_hdrguid_find(entries, key.hdr, key.guid@, 0);
    if j < entries.len() {
        entries.remove(j).push((key, value))
    } else {
        entries.push((key, value))
    }
}

/// Insert a pair under a composite key, replacing any entry under the
/// same key.
fn hdrguid_map_insert<V>(entries: &mut Vec<(SMBHashKeyHdrGuid, V)>, key: SMBHashKeyHdrGuid, value: V)
    ensures
        final(entries)@ == spec_hdrguid_insert(old(entries)@, key, value),
{
    let mut i: usize = 0;
    while i < entries.len() && !(entries[i].0.hdr == key.hdr && crate::bytes_eq(
        &entries[i].0.guid,
        &key.guid,
    ))
        invariant
            0 <= i <= entries@.len(),
            spec_hdrguid_find(entries@, key.hdr, key.guid@, 0) == spec_hdrguid_find(
                entries@,
                key.hdr,
                key.guid@,
                i as int,
            ),
        decreases entries@.len() - i,
    {
        i = i + 1;
    }
    if i < entries.len() {
        entries.remove(i);
        entries.push((key, value));
    } else {
        entries.push((key, value));
    }
}

/// Identities in a transaction table rise strictly with order, and every
/// identity was assigned at or below the counter.
pub open spec fn spec_wf_txs(txs: Seq<SMBTransaction>, tx_id: u64) -> bool {
    &&& forall|i: int, j: int| 0 <= i < j < txs.len() ==> txs[i].id < txs[j].id
    &&& forall|i: int| 0 <= i < txs.len() ==> #[trigger] txs[i].id <= tx_id
}

/// One per-flow state of the protocol: the identity counter, the
/// transaction table, the correlation maps, the file-tracking bookkeeping,
/// the flow-wide event list, and the queue of records delegated to the
/// embedded RPC protocol.
#[derive(Debug)]
pub struct SMBState {
    pub tx_id: u64,
    pub transactions: Vec<SMBTransaction>,
    pub ssn2vec_map: Vec<(SMBCommonHdr, Vec<u8>)>,
    pub ssn2vecoffset_map: Vec<(SMBCommonHdr, SMBFileGUIDOffset)>,
    pub ssn2tree_map: Vec<(SMBCommonHdr, SMBTree)>,
    pub ssn2maxsize_map: Vec<(SMBCommonHdr, u16)>,
    pub guid2name_map: Vec<(Vec<u8>, Vec<u8>)>,
    pub ssnguid2vec_map: Vec<(SMBHashKeyHdrGuid, Vec<u8>)>,
    pub dialect_vec: Option<Vec<u8>>,
    pub skip_ts: u32,
    pub skip_tc: u32,
    pub file_ts_left: u32,
    pub file_tc_left: u32,
    pub file_ts_guid: Vec<u8>,
    pub file_tc_guid: Vec<u8>,
    pub state_events: Vec<u8>,
    pub tunnel: Vec<TunnelRecord>,
}

/// The six correlation maps are unchanged between two states.
pub open spec fn same_maps(a: SMBState, b: SMBState) -> bool {
    &&& b.ssn2vec_map@ == a.ssn2vec_map@
    &&& b.ssn2vecoffset_map@ == a.ssn2vecoffset_map@
    &&& b.ssn2tree_map@ == a.ssn2tree_map@
    &&& b.ssn2maxsize_map@ == a.ssn2maxsize_map@
    &&& b.guid2name_map@ == a.guid2name_map@
    &&& b.ssnguid2vec_map@ == a.ssnguid2vec_map@
}

/// The transaction table and its counter are unchanged between two
/// states.
pub open spec fn same_txs(a: SMBState, b: SMBState) -> bool {
    &&& b.tx_id == a.tx_id
    &&& b.transactions@ == a.transactions@
}

/// The file-tracking bookkeeping is unchanged between two states.
pub open spec fn same_file_state(a: SMBState, b: SMBState) -> bool {
    &&& b.skip_ts == a.skip_ts
    &&& b.skip_tc == a.skip_tc
    &&& b.file_ts_left == a.file_ts_left
    &&& b.file_tc_left == a.file_tc_left
    &&& b.file_ts_guid@ == a.file_ts_guid@
    &&& b.file_tc_guid@ == a.file_tc_guid@
}

/// The dialect, flow-wide events and delegation queue are unchanged
/// between two states.
pub open spec fn same_misc(a: SMBState, b: SMBState) -> bool {
    &&& b.dialect_vec == a.dialect_vec
    &&& b.state_events@ == a.state_events@
    &&& b.tunnel@ == a.tunnel@
}

/// The index of the first transaction with this command and correlation
/// key, or the length when none matches.
pub open spec fn spec_find_generic_tx(
    txs: Seq<SMBTransaction>,
    smb_ver: u8,
    cmd: u8,
    key: SMBCommonHdr,
    from: int,
) -> int
    decreases txs.len() - from,
{
    if from < 0 || from >= txs.len() {
        txs.len() as int
    } else if txs[from].vercmd.smb_ver == smb_ver && txs[from].vercmd.smb1_cmd == cmd
        && txs[from].hdr == key {
        from
    } else {
        spec_find_generic_tx(txs, smb_ver, cmd, key, from + 1)
    }
}

/// The index of the first negotiation transaction of the given protocol
/// version, or the length when none exists.
pub open spec fn spec_find_negotiate_tx(txs: Seq<SMBTransaction>, smb_ver: u8, from: int) -> int
    decreases txs.len() - from,
{
    if from < 0 || from >= txs.len() {
        txs.len() as int
    } else if txs[from].vercmd.smb_ver == smb_ver && txs[from].type_data matches Some(
        SMBTransactionTypeData::NEGOTIATE(_),
    ) {
        from
    } else {
        spec_find_negotiate_tx(txs, smb_ver, from + 1)
    }
}

/// The index of the first tree-connect transaction under this key, or the
/// length when none exists.
pub open spec fn spec_find_treeconnect_tx(txs: Seq<SMBTransaction>, key: SMBCommonHdr, from: int) -> int
    decreases txs.len() - from,
{
    if from < 0 || from >= txs.len() {
        txs.len() as int
    } else if txs[from].hdr == key && txs[from].type_data matches Some(
        SMBTransactionTypeData::TREECONNECT(_),
    ) {
        from
    } else {
        spec_find_treeconnect_tx(txs, key, from + 1)
    }
}

/// The index of the first file transaction tracking this handle in this
/// direction, or the length when none exists.
pub open spec fn spec_find_file_tx(
    txs: Seq<SMBTransaction>,
    guid: Seq<u8>,
    direction: Direction,
    from: int,
) -> int
    decreases txs.len() - from,
{
    if from < 0 || from >= txs.len() {
        txs.len() as int
    } else if txs[from].type_data matches Some(SMBTransactionTypeData::FILE(f)) && f.guid@ == guid
        && f.direction == direction {
        from
    } else {
        spec_find_file_tx(txs, guid, direction, from + 1)
    }
}


/// The hdr-key find scan stays within the entries.
proof fn lemma_hdr_find_bounds<V>(entries: Seq<(SMBCommonHdr, V)>, key: SMBCommonHdr, from: int)
    requires
        0 <= from <= entries.len(),
    ensures
        from <= spec_hdr_find(entries, key, from) <= entries.len(),
        spec_hdr_find(entries, key, from) < entries.len() ==> entries[spec_hdr_find(
            entries,
            key,
            from,
        )].0 == key,
    decreases entries.len() - from,
{
    if from < entries.len() && entries[from].0 != key {
        lemma_hdr_find_bounds(entries, key, from + 1);
    }
}

/// A replacing insert yields exactly the map the insert description
/// names: the new pair stands last over the base with the key removed.
proof fn lemma_hdr_insert_described<V>(old_m: Seq<(SMBCommonHdr, V)>, key: SMBCommonHdr, value: V)
    ensures
        hdr_map_inserted(old_m, spec_hdr_insert(old_m, key, value), key),
        spec_hdr_insert(old_m, key, value).last().1 == value,
        spec_hdr_insert(old_m, key, value).last().0 == key,
{
    lemma_hdr_find_bounds(old_m, key, 0);
    let j = spec_hdr_find(old_m, key, 0);
    let base = if j < old_m.len() {
        old_m.remove(j)
    } else {
        old_m
    };
    assert(base.push((key, value)).subrange(0, base.len() as int) =~= base);
}

/// The byte-key find scan stays within the entries.
proof fn lemma_guid_find_bounds<V>(entries: Seq<(Vec<u8>, V)>, key: Seq<u8>, from: int)
    requires
        0 <= from <= entries.len(),
    ensures
        from <= spec_guid_find(entries, key, from) <= entries.len(),
        spec_guid_find(entries, key, from) < entries.len() ==> entries[spec_guid_find(
            entries,
            key,
            from,
        )].0@ == key,
    decreases entries.len() - from,
{
    if from < entries.len() && entries[from].0@ != key {
        lemma_guid_find_bounds(entries, key, from + 1);
    }
}

/// A replacing insert under a byte-vector key yields exactly the map the
/// insert description names.
proof fn lemma_guid_insert_described<V>(old_m: Seq<(Vec<u8>, V)>, key: Vec<u8>, value: V)
    ensures
        ({
            let new_m = spec_guid_insert(old_m, key, value);
            let j = spec_guid_find(old_m, key@, 0);
            let base = if j < old_m.len() {
                old_m.remove(j)
            } else {
                old_m
            };
            &&& new_m.len() == base.len() + 1
            &&& new_m.subrange(0, base.len() as int) == base
            &&& new_m.last().0 == key
            &&& new_m.last().1 == value
        }),
{
    lemma_guid_find_bounds(old_m, key@, 0);
    let j = spec_guid_find(old_m, key@, 0);
    let base = if j < old_m.len() {
        old_m.remove(j)
    } else {
        old_m
    };
    assert(base.push((key, value)).subrange(0, base.len() as int) =~= base);
}

/// What the file-transaction find scan finds tracks the handle in the
/// direction.
proof fn lemma_find_file_tx_props(
    txs: Seq<SMBTransaction>,
    guid: Seq<u8>,
    direction: Direction,
    from: int,
)
    requires
        0 <= from <= txs.len(),
    ensures
        from <= spec_find_file_tx(txs, guid, direction, from) <= txs.len(),
        spec_find_file_tx(txs, guid, direction, from) < txs.len() ==> (txs[spec_find_file_tx(
            txs,
            guid,
            direction,
            from,
        )].type_data matches Some(SMBTransactionTypeData::FILE(f)) && f.guid@ == guid
            && f.direction == direction),
    decreases txs.len() - from,
{
    if from < txs.len() && !(txs[from].type_data matches Some(SMBTransactionTypeData::FILE(f))
        && f.guid@ == guid && f.direction == direction) {
        lemma_find_file_tx_props(txs, guid, direction, from + 1);
    }
}

/// What the negotiation-transaction find scan finds carries negotiation
/// data of the version.
proof fn lemma_find_negotiate_tx_props(txs: Seq<SMBTransaction>, smb_ver: u8, from: int)
    requires
        0 <= from <= txs.len(),
    ensures
        from <= spec_find_negotiate_tx(txs, smb_ver, from) <= txs.len(),
        spec_find_negotiate_tx(txs, smb_ver, from) < txs.len() ==> (txs[spec_find_negotiate_tx(
            txs,
            smb_ver,
            from,
        )].vercmd.smb_ver == smb_ver && txs[spec_find_negotiate_tx(
            txs,
            smb_ver,
            from,
        )].type_data matches Some(SMBTransactionTypeData::NEGOTIATE(_))),
    decreases txs.len() - from,
{
    if from < txs.len() && !(txs[from].vercmd.smb_ver == smb_ver && txs[from].type_data matches
    Some(SMBTransactionTypeData::NEGOTIATE(_))) {
        lemma_find_negotiate_tx_props(txs, smb_ver, from + 1);
    }
}

/// What the tree-connect find scan finds carries tree-connect data under
/// the key.
proof fn lemma_find_treeconnect_tx_props(txs: Seq<SMBTransaction>, key: SMBCommonHdr, from: int)
    requires
        0 <= from <= txs.len(),
    ensures
        from <= spec_find_treeconnect_tx(txs, key, from) <= txs.len(),
        spec_find_treeconnect_tx(txs, key, from) < txs.len() ==> (txs[spec_find_treeconnect_tx(
            txs,
            key,
            from,
        )].hdr == key && txs[spec_find_treeconnect_tx(txs, key, from)].type_data matches Some(
            SMBTransactionTypeData::TREECONNECT(_),
        )),
    decreases txs.len() - from,
{
    if from < txs.len() && !(txs[from].hdr == key && txs[from].type_data matches Some(
        SMBTransactionTypeData::TREECONNECT(_),
    )) {
        lemma_find_treeconnect_tx_props(txs, key, from + 1);
    }
}

impl SMBState {
    /// A fresh state: no transactions, empty maps, nothing delegated.
    pub fn new() -> (r: SMBState)
        ensures
            r.tx_id == 0,
            r.transactions@.len() == 0,
            r.ssn2vec_map@.len() == 0,
            r.ssn2vecoffset_map@.len() == 0,
            r.ssn2tree_map@.len() == 0,
            r.ssn2maxsize_map@.len() == 0,
            r.guid2name_map@.len() == 0,
            r.ssnguid2vec_map@.len() == 0,
            r.dialect_vec is None,
            r.skip_ts == 0 && r.skip_tc == 0,
            r.file_ts_left == 0 && r.file_tc_left == 0,
            r.file_ts_guid@.len() == 0 && r.file_tc_guid@.len() == 0,
            r.state_events@.len() == 0,
            r.tunnel@.len() == 0,
            spec_wf_txs(r.transactions@, r.tx_id),
    {
        SMBState {
            tx_id: 0,
            transactions: Vec::new(),
            ssn2vec_map: Vec::new(),
            ssn2vecoffset_map: Vec::new(),
            ssn2tree_map: Vec::new(),
            ssn2maxsize_map: Vec::new(),
            guid2name_map: Vec::new(),
            ssnguid2vec_map: Vec::new(),
            dialect_vec: None,
            skip_ts: 0,
            skip_tc: 0,
            file_ts_left: 0,
            file_tc_left: 0,
            file_ts_guid: Vec::new(),
            file_tc_guid: Vec::new(),
            state_events: Vec::new(),
            tunnel: Vec::new(),
        }
    }

    /// Record a flow-wide anomaly event: input violated expectations
    /// before any transaction context existed.
    pub fn set_event(&mut self, event: SMBEvent)
        ensures
            final(self).state_events@ == old(self).state_events@.push(spec_smb_event_id(event)),
            same_txs(*old(self), *final(self)),
            same_maps(*old(self), *final(self)),
            same_file_state(*old(self), *final(self)),
            final(self).dialect_vec == old(self).dialect_vec,
            final(self).tunnel@ == old(self).tunnel@,
    {
        let id = smb_event_id(event);
        self.state_events.push(id);
    }

    /// A fresh transaction under the next identity; it is not yet in the
    /// table.
    fn new_tx_raw(&mut self) -> (r: SMBTransaction)
        requires
            old(self).tx_id < u64::MAX,
        ensures
            final(self).tx_id == old(self).tx_id + 1,
            final(self).transactions@ == old(self).transactions@,
            same_maps(*old(self), *final(self)),
            same_file_state(*old(self), *final(self)),
            same_misc(*old(self), *final(self)),
            r.id == old(self).tx_id + 1,
            r.vercmd == SMBVerCmdStat::spec_new(),
            r.hdr == (SMBCommonHdr { rec_type: 0, ssn_id: 0, tree_id: 0, msg_id: 0 }),
            !r.request_done && !r.response_done,
            r.events@.len() == 0,
            r.de_state is None,
            r.type_data is None,
    {
        self.tx_id = self.tx_id + 1;
        SMBTransaction {
            id: self.tx_id,
            vercmd: SMBVerCmdStat::new(),
            hdr: SMBCommonHdr { rec_type: 0, ssn_id: 0, tree_id: 0, msg_id: 0 },
            request_done: false,
            response_done: false,
            events: Vec::new(),
            de_state: None,
            type_data: None,
        }
    }

    /// Find the first transaction with this command and correlation key.
    pub fn get_generic_tx(&self, smb_ver: u8, cmd: u8, key: &SMBCommonHdr) -> (r: Option<usize>)
        ensures
            ({
                let j = spec_find_generic_tx(self.transactions@, smb_ver, cmd, *key, 0);
                match r {
                    Some(i) => i == j && j < self.transactions@.len(),
                    None => j == self.transactions@.len(),
                }
            }),
    {
        let mut i: usize = 0;
        while i < self.transactions.len()
            invariant
                0 <= i <= self.transactions@.len(),
                spec_find_generic_tx(self.transactions@, smb_ver, cmd, *key, 0)
                    == spec_find_generic_tx(self.transactions@, smb_ver, cmd, *key, i as int),
            decreases self.transactions@.len() - i,
        {
            let tx = &self.transactions[i];
            if tx.vercmd.smb_ver == smb_ver && tx.vercmd.smb1_cmd == cmd && tx.hdr == *key {
                return Some(i);
            }
            i = i + 1;
        }
        None
    }

    /// Find the negotiation transaction of the given protocol version.
    pub fn get_negotiate_tx(&self, smb_ver: u8) -> (r: Option<usize>)
        ensures
            ({
                let j = spec_find_negotiate_tx(self.transactions@, smb_ver, 0);
                match r {
                    Some(i) => i == j && j < self.transactions@.len(),
                    None => j == self.transactions@.len(),
                }
            }),
    {
        let mut i: usize = 0;
        while i < self.transactions.len()
            invariant
                0 <= i <= self.transactions@.len(),
                spec_find_negotiate_tx(self.transactions@, smb_ver, 0) == spec_find_negotiate_tx(
                    self.transactions@,
                    smb_ver,
                    i as int,
                ),
            decreases self.transactions@.len() - i,
        {
            let tx = &self.transactions[i];
            let is_neg = match tx.type_data {
                Some(SMBTransactionTypeData::NEGOTIATE(_)) => true,
                _ => false,
            };
            if tx.vercmd.smb_ver == smb_ver && is_neg {
                return Some(i);
            }
            i = i + 1;
        }
        None
    }

    /// Find the tree-connect transaction under this key.
    pub fn get_treeconnect_tx(&self, key: &SMBCommonHdr) -> (r: Option<usize>)
        ensures
            ({
                let j = spec_find_treeconnect_tx(self.transactions@, *key, 0);
                match r {
                    Some(i) => i == j && j < self.transactions@.len(),
                    None => j == self.transactions@.len(),
                }
            }),
    {
        let mut i: usize = 0;
        while i < self.transactions.len()
            invariant
                0 <= i <= self.transactions@.len(),
                spec_find_treeconnect_tx(self.transactions@, *key, 0) == spec_find_treeconnect_tx(
                    self.transactions@,
                    *key,
                    i as int,
                ),
            decreases self.transactions@.len() - i,
        {
            let tx = &self.transactions[i];
            let is_tc = match tx.type_data {
                Some(SMBTransactionTypeData::TREECONNECT(_)) => true,
                _ => false,
            };
            if tx.hdr == *key && is_tc {
                return Some(i);
            }
            i = i + 1;
        }
        None
    }

    /// Find the file transaction tracking this handle in this direction.
    pub fn get_file_tx_by_guid(&self, guid: &Vec<u8>, direction: Direction) -> (r: Option<usize>)
        ensures
            ({
                let j = spec_find_file_tx(self.transactions@, guid@, direction, 0);
                match r {
                    Some(i) => i == j && j < self.transactions@.len(),
                    None => j == self.transactions@.len(),
                }
            }),
    {
        let mut i: usize = 0;
        while i < self.transactions.len()
            invariant
                0 <= i <= self.transactions@.len(),
                spec_find_file_tx(self.transactions@, guid@, direction, 0) == spec_find_file_tx(
                    self.transactions@,
                    guid@,
                    direction,
                    i as int,
                ),
            decreases self.transactions@.len() - i,
        {
            let tx = &self.transactions[i];
            let matches_file = match &tx.type_data {
                Some(SMBTransactionTypeData::FILE(f)) => {
                    if crate::bytes_eq(&f.guid, guid) && f.direction == direction {
                        true
                    } else {
                        false
                    }
                },
                _ => false,
            };
            if matches_file {
                return Some(i);
            }
            i = i + 1;
        }
        None
    }

    /// The index of the last transaction, when it matches this command.
    pub fn get_last_tx(&self, smb_ver: u8, cmd: u8) -> (r: Option<usize>)
        ensures
            ({
                let txs = self.transactions@;
                match r {
                    Some(i) => i == txs.len() - 1 && txs.len() > 0 && txs[txs.len()
                        - 1].vercmd.smb_ver == smb_ver && txs[txs.len() - 1].vercmd.smb1_cmd == cmd,
                    None => txs.len() == 0 || !(txs[txs.len() - 1].vercmd.smb_ver == smb_ver && txs[
                        txs.len() - 1].vercmd.smb1_cmd == cmd),
                }
            }),
    {
        let n = self.transactions.len();
        if n == 0 {
            return None;
        }
        let tx = &self.transactions[n - 1];
        if tx.vercmd.smb_ver == smb_ver && tx.vercmd.smb1_cmd == cmd {
            Some(n - 1)
        } else {
            None
        }
    }

    /// Look up a transaction by identity.
    pub fn get_tx(&self, tx_id: u64) -> (r: Option<&SMBTransaction>)
        ensures
            match r {
                Some(tx) => exists|i: int|
                    0 <= i < self.transactions@.len() && (#[trigger] self.transactions@[i]).id
                        == tx_id && *tx == self.transactions@[i],
                None => forall|i: int|
                    0 <= i < self.transactions@.len() ==> (#[trigger] self.transactions@[i]).id
                        != tx_id,
            },
    {
        let mut i: usize = 0;
        while i < self.transactions.len()
            invariant
                0 <= i <= self.transactions@.len(),
                forall|k: int| 0 <= k < i ==> (#[trigger] self.transactions@[k]).id != tx_id,
            decreases self.transactions@.len() - i,
        {
            if self.transactions[i].id == tx_id {
                return Some(&self.transactions[i]);
            }
            i = i + 1;
        }
        None
    }

    /// Free the transaction with the given identity, if present; the rest
    /// of the table keeps its order.
    pub fn free_tx(&mut self, tx_id: u64)
        requires
            spec_wf_txs(old(self).transactions@, old(self).tx_id),
        ensures
            spec_wf_txs(final(self).transactions@, final(self).tx_id),
            final(self).tx_id == old(self).tx_id,
            same_maps(*old(self), *final(self)),
            same_file_state(*old(self), *final(self)),
            same_misc(*old(self), *final(self)),
            ({
                let txs = old(self).transactions@;
                if exists|i: int| 0 <= i < txs.len() && (#[trigger] txs[i].id) == tx_id {
                    let j = choose|j: int| 0 <= j < txs.len() && (#[trigger] txs[j].id) == tx_id;
                    final(self).transactions@ =~= txs.remove(j)
                } else {
                    final(self).transactions@ == txs
                }
            }),
    {
        let mut i: usize = 0;
        let len = self.transactions.len();
        while i < len && self.transactions[i].id != tx_id
            invariant
                0 <= i <= len,
                len == self.transactions@.len(),
                forall|k: int| 0 <= k < i ==> (#[trigger] self.transactions@[k]).id != tx_id,
            decreases len - i,
        {
            i = i + 1;
        }
        if i < len {
            self.transactions.remove(i);
            proof {
                let txs = old(self).transactions@;
                let j = choose|j: int| 0 <= j < txs.len() && (#[trigger] txs[j].id) == tx_id;
                assert(j == i) by {
                    if j != i {
                        if j < i {
                            assert(txs[j].id < txs[i as int].id);
                        } else {
                            assert(txs[i as int].id < txs[j].id);
                        }
                    }
                }
                assert(self.transactions@ =~= txs.remove(i as int));
            }
        }
    }

    /// The number of identities handed out so far.
    pub fn get_tx_count(&self) -> (r: u64)
        ensures
            r == self.tx_id,
    {
        self.tx_id
    }
}

impl SMBVerCmdStat {
    /// The slot `SMBVerCmdStat::new` returns.
    pub open spec fn spec_new() -> SMBVerCmdStat {
        SMBVerCmdStat { smb_ver: 0, smb1_cmd: 0, nt_status: 0, is_dos_error: false }
    }
}

/// The little-endian bytes of a session identity, appended to file
/// handles so that handles from different sessions never collide.
pub open spec fn spec_u32_bytes(u: u32) -> Seq<u8> {
    seq![(u & 0xff) as u8, ((u >> 8) & 0xff) as u8, ((u >> 16) & 0xff) as u8, ((u >> 24) & 0xff) as u8]
}

/// The little-endian bytes of a 32-bit value.
pub fn u32_as_bytes(u: u32) -> (r: Vec<u8>)
    ensures
        r@ == spec_u32_bytes(u),
{
    let mut v: Vec<u8> = Vec::new();
    v.push((u & 0xff) as u8);
    v.push(((u >> 8) & 0xff) as u8);
    v.push(((u >> 16) & 0xff) as u8);
    v.push(((u >> 24) & 0xff) as u8);
    assert(v@ =~= spec_u32_bytes(u));
    v
}

/// A file handle qualified by its session: the handle bytes followed by
/// the session identity bytes.
pub open spec fn spec_fid_key(fid: Seq<u8>, ssn_id: u32) -> Seq<u8> {
    fid + spec_u32_bytes(ssn_id)
}

/// Qualify a file handle with its session identity.
pub fn fid_with_ssn(fid: &Vec<u8>, ssn_id: u32) -> (r: Vec<u8>)
    ensures
        r@ == spec_fid_key(fid@, ssn_id),
{
    let mut v = crate::clone_bytes(fid);
    let tail = u32_as_bytes(ssn_id);
    v.extend_from_slice(tail.as_slice());
    assert(v@ =~= spec_fid_key(fid@, ssn_id));
    v
}

/// Appending a transaction under the next identity keeps the table
/// well-formed.
proof fn lemma_wf_push(txs: Seq<SMBTransaction>, cnt: u64, t: SMBTransaction)
    requires
        spec_wf_txs(txs, cnt),
        cnt < u64::MAX,
        t.id == cnt + 1,
    ensures
        spec_wf_txs(txs.push(t), (cnt + 1) as u64),
{
    let newtxs = txs.push(t);
    assert forall|i: int, j: int| 0 <= i < j < newtxs.len() implies newtxs[i].id < newtxs[j].id by {
        if j < newtxs.len() - 1 {
            assert(newtxs[i] == txs[i] && newtxs[j] == txs[j]);
        } else {
            assert(newtxs[i] == txs[i]);
            assert(txs[i].id <= cnt);
        }
    }
    assert forall|i: int| 0 <= i < newtxs.len() implies (#[trigger] newtxs[i]).id <= cnt + 1 by {
        if i < newtxs.len() - 1 {
            assert(newtxs[i] == txs[i]);
            assert(txs[i].id <= cnt);
        }
    }
}

/// Replacing a transaction by one with the same identity keeps the table
/// well-formed.
proof fn lemma_wf_update(txs: Seq<SMBTransaction>, cnt: u64, j: int, t: SMBTransaction)
    requires
        spec_wf_txs(txs, cnt),
        0 <= j < txs.len(),
        t.id == txs[j].id,
    ensures
        spec_wf_txs(txs.update(j, t), cnt),
{
    let newtxs = txs.update(j, t);
    assert forall|i: int, k: int| 0 <= i < k < newtxs.len() implies newtxs[i].id < newtxs[k].id by {
        assert(newtxs[i].id == txs[i].id && newtxs[k].id == txs[k].id);
    }
    assert forall|i: int| 0 <= i < newtxs.len() implies (#[trigger] newtxs[i]).id <= cnt by {
        assert(newtxs[i].id == txs[i].id);
        assert(txs[i].id <= cnt);
    }
}

/// A map grew by a replacing insert under `key`: any entry under the key
/// is gone, the rest keep their order, and the new entry stands last.
pub open spec fn hdr_map_inserted<V>(
    old_m: Seq<(SMBCommonHdr, V)>,
    new_m: Seq<(SMBCommonHdr, V)>,
    key: SMBCommonHdr,
) -> bool {
    let j = spec_hdr_find(old_m, key, 0);
    let base = if j < old_m.len() {
        old_m.remove(j)
    } else {
        old_m
    };
    &&& new_m.len() == base.len() + 1
    &&& new_m.subrange(0, base.len() as int) == base
    &&& new_m.last().0 == key
}

/// The generic-transaction tail: a transaction under the next identity
/// was appended, keyed by the record's composite key (with the given
/// session identity), carrying the listed events, with the response
/// pre-completed for commands that expect none.
pub open spec fn generic_tx_appended(
    a: SMBState,
    b: SMBState,
    r: SmbRecord,
    key_ssn_id: u32,
    events: Seq<u8>,
    no_response: bool,
) -> bool {
    &&& b.tx_id == a.tx_id + 1
    &&& b.transactions@.len() == a.transactions@.len() + 1
    &&& b.transactions@.subrange(0, a.transactions@.len() as int) == a.transactions@
    &&& ({
        let t = b.transactions@.last();
        &&& t.id == a.tx_id + 1
        &&& t.vercmd == (SMBVerCmdStat {
            smb_ver: 1,
            smb1_cmd: r.command,
            nt_status: 0,
            is_dos_error: false,
        })
        &&& t.hdr == (SMBCommonHdr {
            rec_type: SMBHDR_TYPE_GENERICTX,
            ssn_id: key_ssn_id as u64,
            tree_id: r.tree_id as u32,
            msg_id: r.multiplex_id as u64,
        })
        &&& t.request_done == false
        &&& t.response_done == no_response
        &&& t.events@ == events
        &&& t.de_state is None
        &&& t.type_data is None
    })
}

/// The event list a decode failure leaves on the tail transaction.
pub open spec fn malformed_events() -> Seq<u8> {
    seq![spec_smb_event_id(SMBEvent::MalformedData)]
}

/// What a read request does: on a good decode, the pending-offset map
/// gains the session-qualified handle and offset under the record's
/// offset key; a bad decode leaves the malformed-data event on the tail
/// transaction. A generic transaction is appended either way.
pub open spec fn spec_read_andx_request_post(a: SMBState, b: SMBState, r: SmbRecord) -> bool {
    &&& same_file_state(a, b)
    &&& same_misc(a, b)
    &&& b.ssn2vec_map@ == a.ssn2vec_map@
    &&& b.ssn2tree_map@ == a.ssn2tree_map@
    &&& b.ssn2maxsize_map@ == a.ssn2maxsize_map@
    &&& b.guid2name_map@ == a.guid2name_map@
    &&& b.ssnguid2vec_map@ == a.ssnguid2vec_map@
    &&& match spec_parse_read_andx_request(r.data@) {
        Some((fid, offset)) => {
            let key = spec_hdr_from1(SMBHDR_TYPE_OFFSET, r.ssn_id, r.tree_id, r.multiplex_id);
            &&& hdr_map_inserted(a.ssn2vecoffset_map@, b.ssn2vecoffset_map@, key)
            &&& b.ssn2vecoffset_map@.last().1.guid@ == spec_fid_key(fid, r.ssn_id)
            &&& b.ssn2vecoffset_map@.last().1.offset == offset
            &&& generic_tx_appended(a, b, r, r.ssn_id, Seq::empty(), false)
        },
        None => {
            &&& b.ssn2vecoffset_map@ == a.ssn2vecoffset_map@
            &&& generic_tx_appended(a, b, r, r.ssn_id, malformed_events(), false)
        },
    }
}

/// Relation between a file transaction before and after a chunk of data
/// landed: the chunk list grew by the new ordered byte range and every
/// other field is kept.
pub open spec fn file_tx_chunk_added(t: SMBTransaction, t2: SMBTransaction, offset: u64, data: Seq<u8>) -> bool {
    &&& t2.id == t.id
    &&& t2.vercmd == t.vercmd
    &&& t2.hdr == t.hdr
    &&& t2.request_done == t.request_done
    &&& t2.response_done == t.response_done
    &&& t2.events@ == t.events@
    &&& t2.de_state == t.de_state
    &&& match (t.type_data, t2.type_data) {
        (Some(SMBTransactionTypeData::FILE(f)), Some(SMBTransactionTypeData::FILE(f2))) => {
            &&& f2.direction == f.direction
            &&& f2.guid@ == f.guid@
            &&& f2.file_name@ == f.file_name@
            &&& f2.share_name@ == f.share_name@
            &&& f2.chunks@.len() == f.chunks@.len() + 1
            &&& f2.chunks@.subrange(0, f.chunks@.len() as int) == f.chunks@
            &&& f2.chunks@.last().offset == offset
            &&& f2.chunks@.last().data@ == data
        },
        _ => false,
    }
}

/// A fresh file transaction was appended under the next identity,
/// tracking the given handle in the given direction with one chunk.
pub open spec fn file_tx_appended(
    a: SMBState,
    b: SMBState,
    cmd: u8,
    guid: Seq<u8>,
    file_name: Seq<u8>,
    share_name: Seq<u8>,
    direction: Direction,
    offset: u64,
    data: Seq<u8>,
) -> bool {
    &&& b.tx_id == a.tx_id + 1
    &&& b.transactions@.len() == a.transactions@.len() + 1
    &&& b.transactions@.subrange(0, a.transactions@.len() as int) == a.transactions@
    &&& ({
        let t = b.transactions@.last();
        &&& t.id == a.tx_id + 1
        &&& t.vercmd == (SMBVerCmdStat {
            smb_ver: 1,
            smb1_cmd: cmd,
            nt_status: 0,
            is_dos_error: false,
        })
        &&& t.request_done == false
        &&& t.response_done == false
        &&& t.events@.len() == 0
        &&& t.de_state is None
        &&& match t.type_data {
            Some(SMBTransactionTypeData::FILE(f)) => {
                &&& f.direction == direction
                &&& f.guid@ == guid
                &&& f.file_name@ == file_name
                &&& f.share_name@ == share_name
                &&& f.chunks@.len() == 1
                &&& f.chunks@[0].offset == offset
                &&& f.chunks@[0].data@ == data
            },
            _ => false,
        }
    })
}

/// The name the handle map assigns to a session-qualified handle, or the
/// empty name.
pub open spec fn spec_guid_name(entries: Seq<(Vec<u8>, Vec<u8>)>, guid: Seq<u8>) -> Seq<u8> {
    let j = spec_guid_find(entries, guid, 0);
    if j < entries.len() {
        entries[j].1@
    } else {
        Seq::empty()
    }
}

/// The share the tree map assigns to a record's share key, as a name and
/// pipe flag; an unknown tree reads as an empty, non-pipe share.
pub open spec fn spec_tree_of(entries: Seq<(SMBCommonHdr, SMBTree)>, key: SMBCommonHdr) -> (
    Seq<u8>,
    bool,
) {
    let j = spec_hdr_find(entries, key, 0);
    if j < entries.len() {
        (entries[j].1.name@, entries[j].1.is_pipe)
    } else {
        (Seq::empty(), false)
    }
}

/// A record was delegated to the embedded RPC protocol: the queue grew by
/// exactly this record.
pub open spec fn tunnel_appended(
    a: SMBState,
    b: SMBState,
    direction: Direction,
    vercmd: SMBVerCmdStat,
    hdr: SMBCommonHdr,
    fid: Seq<u8>,
    data: Seq<u8>,
) -> bool {
    &&& b.tunnel@.len() == a.tunnel@.len() + 1
    &&& b.tunnel@.subrange(0, a.tunnel@.len() as int) == a.tunnel@
    &&& b.tunnel@.last().direction == direction
    &&& b.tunnel@.last().vercmd == vercmd
    &&& b.tunnel@.last().hdr == hdr
    &&& b.tunnel@.last().fid@ == fid
    &&& b.tunnel@.last().data@ == data
}

/// The data-present count of a write or read record, capped at the
/// 32-bit range the declared length uses.
pub open spec fn spec_present32(len: nat) -> u32 {
    if len > 0xffffffff {
        0xffffffffu32
    } else {
        len as u32
    }
}

/// The byte count still owed after this record: the declared length minus
/// the data present, saturating at zero on adversarial declared lengths.
pub open spec fn spec_left_of(declared: u32, present: nat) -> u32 {
    if declared > spec_present32(present) {
        (declared - spec_present32(present)) as u32
    } else {
        0
    }
}

/// What a write request does: on a good decode, the data lands in the
/// matching to-server file transaction, or is delegated to the embedded
/// RPC protocol when the share is the pipe service, or opens a fresh file
/// transaction; the to-server file bookkeeping records the handle and the
/// bytes still owed. A bad decode records a flow-wide malformed-data
/// event. No generic transaction is appended here.
pub open spec fn spec_write_request_post(a: SMBState, b: SMBState, r: SmbRecord) -> bool {
    &&& b.ssn2vec_map@ == a.ssn2vec_map@
    &&& b.ssn2vecoffset_map@ == a.ssn2vecoffset_map@
    &&& b.ssn2tree_map@ == a.ssn2tree_map@
    &&& b.ssn2maxsize_map@ == a.ssn2maxsize_map@
    &&& b.guid2name_map@ == a.guid2name_map@
    &&& b.ssnguid2vec_map@ == a.ssnguid2vec_map@
    &&& b.dialect_vec == a.dialect_vec
    &&& b.skip_ts == a.skip_ts
    &&& b.skip_tc == a.skip_tc
    &&& b.file_tc_left == a.file_tc_left
    &&& b.file_tc_guid@ == a.file_tc_guid@
    &&& match spec_parse_write_request(r.data@) {
        Some((fid, offset, len, data)) => {
            let file_fid = spec_fid_key(fid, r.ssn_id);
            let j = spec_find_file_tx(a.transactions@, file_fid, Direction::ToServer, 0);
            let share_key = spec_hdr_from1(SMBHDR_TYPE_SHARE, r.ssn_id, r.tree_id, r.multiplex_id);
            let tree = spec_tree_of(a.ssn2tree_map@, share_key);
            &&& b.state_events@ == a.state_events@
            &&& b.file_ts_left == spec_left_of(len, data.len())
            &&& b.file_ts_guid@ == file_fid
            &&& if j < a.transactions@.len() {
                &&& b.tx_id == a.tx_id
                &&& b.transactions@.len() == a.transactions@.len()
                &&& (forall|k: int|
                    0 <= k < a.transactions@.len() && k != j ==> b.transactions@[k]
                        == a.transactions@[k])
                &&& file_tx_chunk_added(a.transactions@[j], b.transactions@[j], offset, data)
                &&& b.tunnel@ == a.tunnel@
            } else if tree.1 {
                &&& same_txs(a, b)
                &&& tunnel_appended(
                    a,
                    b,
                    Direction::ToServer,
                    SMBVerCmdStat {
                        smb_ver: 1,
                        smb1_cmd: r.command,
                        nt_status: r.nt_status,
                        is_dos_error: false,
                    },
                    spec_hdr_from1(SMBHDR_TYPE_HEADER, r.ssn_id, r.tree_id, r.multiplex_id),
                    Seq::empty(),
                    data,
                )
            } else {
                &&& file_tx_appended(
                    a,
                    b,
                    SMB1_COMMAND_WRITE_ANDX,
                    file_fid,
                    spec_guid_name(a.guid2name_map@, file_fid),
                    tree.0,
                    Direction::ToServer,
                    offset,
                    data,
                )
                &&& b.tunnel@ == a.tunnel@
            }
        },
        None => {
            &&& same_txs(a, b)
            &&& b.tunnel@ == a.tunnel@
            &&& b.file_ts_left == a.file_ts_left
            &&& b.file_ts_guid@ == a.file_ts_guid@
            &&& b.state_events@ == a.state_events@.push(spec_smb_event_id(SMBEvent::MalformedData))
        },
    }
}

/// What a transaction-command request does: on a good decode, a present
/// pipe handle is stored under the record's handle key; when the name
/// addresses the pipe service, the name is stored under the name key, a
/// positive maximum response size is stored under the size key, and the
/// payload is delegated to the embedded RPC protocol. A bad decode
/// records a flow-wide malformed-data event. No generic transaction is
/// appended here.
pub open spec fn spec_trans_request_post(a: SMBState, b: SMBState, r: SmbRecord) -> bool {
    &&& same_txs(a, b)
    &&& same_file_state(a, b)
    &&& b.dialect_vec == a.dialect_vec
    &&& b.ssn2vecoffset_map@ == a.ssn2vecoffset_map@
    &&& b.ssn2tree_map@ == a.ssn2tree_map@
    &&& b.guid2name_map@ == a.guid2name_map@
    &&& b.ssnguid2vec_map@ == a.ssnguid2vec_map@
    &&& match spec_parse_trans_request(r.data@) {
        Some((max_data_cnt, pipe_fid, txname, data)) => {
            let guid_key = spec_hdr_from1(SMBHDR_TYPE_GUID, r.ssn_id, r.tree_id, r.multiplex_id);
            let is_dcerpc = spec_service_for(txname).1;
            let txname_key = spec_hdr_from1(SMBHDR_TYPE_TXNAME, r.ssn_id, r.tree_id, r.multiplex_id);
            let size_key = spec_hdr_from1(
                SMBHDR_TYPE_MAX_SIZE,
                r.ssn_id,
                r.tree_id,
                r.multiplex_id,
            );
            &&& b.state_events@ == a.state_events@
            &&& match pipe_fid {
                Some(f) => {
                    if is_dcerpc {
                        exists|mid: Seq<(SMBCommonHdr, Vec<u8>)>|
                            {
                                &&& #[trigger] hdr_map_inserted(a.ssn2vec_map@, mid, guid_key)
                                &&& mid.last().1@ == f
                                &&& hdr_map_inserted(mid, b.ssn2vec_map@, txname_key)
                                &&& b.ssn2vec_map@.last().1@ == txname
                            }
                    } else {
                        &&& hdr_map_inserted(a.ssn2vec_map@, b.ssn2vec_map@, guid_key)
                        &&& b.ssn2vec_map@.last().1@ == f
                    }
                },
                None => {
                    if is_dcerpc {
                        &&& hdr_map_inserted(a.ssn2vec_map@, b.ssn2vec_map@, txname_key)
                        &&& b.ssn2vec_map@.last().1@ == txname
                    } else {
                        b.ssn2vec_map@ == a.ssn2vec_map@
                    }
                },
            }
            &&& if is_dcerpc {
                &&& if max_data_cnt > 0 {
                    &&& hdr_map_inserted(a.ssn2maxsize_map@, b.ssn2maxsize_map@, size_key)
                    &&& b.ssn2maxsize_map@.last().1 == max_data_cnt
                } else {
                    b.ssn2maxsize_map@ == a.ssn2maxsize_map@
                }
                &&& tunnel_appended(
                    a,
                    b,
                    Direction::ToServer,
                    SMBVerCmdStat {
                        smb_ver: 1,
                        smb1_cmd: r.command,
                        nt_status: 0,
                        is_dos_error: false,
                    },
                    spec_hdr_from1(SMBHDR_TYPE_HEADER, r.ssn_id, r.tree_id, r.multiplex_id),
                    Seq::empty(),
                    data,
                )
            } else {
                &&& b.ssn2maxsize_map@ == a.ssn2maxsize_map@
                &&& b.tunnel@ == a.tunnel@
            }
        },
        None => {
            &&& b.ssn2vec_map@ == a.ssn2vec_map@
            &&& b.ssn2maxsize_map@ == a.ssn2maxsize_map@
            &&& b.tunnel@ == a.tunnel@
            &&& b.state_events@ == a.state_events@.push(spec_smb_event_id(SMBEvent::MalformedData))
        },
    }
}

/// Relation between a transaction before and after one event was set:
/// the event list grew by the event's id and every other field is kept.
pub open spec fn tx_event_added(t: SMBTransaction, t2: SMBTransaction, e: SMBEvent) -> bool {
    &&& t2.id == t.id
    &&& t2.vercmd == t.vercmd
    &&& t2.hdr == t.hdr
    &&& t2.request_done == t.request_done
    &&& t2.response_done == t.response_done
    &&& t2.events@ == t.events@.push(spec_smb_event_id(e))
    &&& t2.de_state == t.de_state
    &&& t2.type_data == t.type_data
}

/// What a negotiation request does: a duplicate negotiation sets the
/// duplicate-negotiate event on the existing negotiation transaction;
/// otherwise a negotiation transaction holding the offered dialects is
/// appended with its request side done. A bad decode leaves the
/// malformed-data event on an appended generic transaction.
pub open spec fn spec_negotiate_request_post(a: SMBState, b: SMBState, r: SmbRecord) -> bool {
    &&& same_maps(a, b)
    &&& same_file_state(a, b)
    &&& same_misc(a, b)
    &&& match spec_parse_dialects(r.data@, 0) {
        Some(ds) => {
            let j = spec_find_negotiate_tx(a.transactions@, 1, 0);
            if j < a.transactions@.len() {
                &&& b.tx_id == a.tx_id
                &&& b.transactions@.len() == a.transactions@.len()
                &&& (forall|k: int|
                    0 <= k < a.transactions@.len() && k != j ==> b.transactions@[k]
                        == a.transactions@[k])
                &&& tx_event_added(
                    a.transactions@[j],
                    b.transactions@[j],
                    SMBEvent::DuplicateNegotiate,
                )
            } else {
                &&& b.tx_id == a.tx_id + 1
                &&& b.transactions@.len() == a.transactions@.len() + 1
                &&& b.transactions@.subrange(0, a.transactions@.len() as int) == a.transactions@
                &&& ({
                    let t = b.transactions@.last();
                    &&& t.id == a.tx_id + 1
                    &&& t.vercmd == (SMBVerCmdStat {
                        smb_ver: 1,
                        smb1_cmd: SMB1_COMMAND_NEGOTIATE_PROTOCOL,
                        nt_status: 0,
                        is_dos_error: false,
                    })
                    &&& t.request_done == true
                    &&& t.response_done == false
                    &&& t.events@.len() == 0
                    &&& t.de_state is None
                    &&& match t.type_data {
                        Some(SMBTransactionTypeData::NEGOTIATE(n)) => {
                            &&& n.dialects@.len() == ds.len()
                            &&& forall|k: int|
                                0 <= k < ds.len() ==> (#[trigger] n.dialects@[k])@ == ds[k]
                        },
                        _ => false,
                    }
                })
            }
        },
        None => generic_tx_appended(a, b, r, r.ssn_id, malformed_events(), false),
    }
}

/// What a create request does: on a good decode, the file name is stored
/// under the record's filename key and a create transaction carrying the
/// name, disposition and option bits is appended; a bad decode leaves the
/// malformed-data event on an appended generic transaction.
pub open spec fn spec_create_request_post(a: SMBState, b: SMBState, r: SmbRecord) -> bool {
    &&& same_file_state(a, b)
    &&& same_misc(a, b)
    &&& b.ssn2vecoffset_map@ == a.ssn2vecoffset_map@
    &&& b.ssn2tree_map@ == a.ssn2tree_map@
    &&& b.ssn2maxsize_map@ == a.ssn2maxsize_map@
    &&& b.guid2name_map@ == a.guid2name_map@
    &&& b.ssnguid2vec_map@ == a.ssnguid2vec_map@
    &&& if r.data@.len() >= 8 {
        let create_options = le32_at(r.data@, 0);
        let disposition = le32_at(r.data@, 4);
        let file_name = r.data@.subrange(8, r.data@.len() as int);
        let name_key = spec_hdr_from1(SMBHDR_TYPE_FILENAME, r.ssn_id, r.tree_id, r.multiplex_id);
        &&& hdr_map_inserted(a.ssn2vec_map@, b.ssn2vec_map@, name_key)
        &&& b.ssn2vec_map@.last().1@ == file_name
        &&& b.tx_id == a.tx_id + 1
        &&& b.transactions@.len() == a.transactions@.len() + 1
        &&& b.transactions@.subrange(0, a.transactions@.len() as int) == a.transactions@
        &&& ({
            let t = b.transactions@.last();
            &&& t.id == a.tx_id + 1
            &&& t.vercmd == (SMBVerCmdStat {
                smb_ver: 1,
                smb1_cmd: r.command,
                nt_status: 0,
                is_dos_error: false,
            })
            &&& t.hdr == spec_hdr_from1(
                SMBHDR_TYPE_GENERICTX,
                r.ssn_id,
                r.tree_id,
                r.multiplex_id,
            )
            &&& t.request_done == true
            &&& t.response_done == false
            &&& t.events@.len() == 0
            &&& t.de_state is None
            &&& match t.type_data {
                Some(SMBTransactionTypeData::CREATE(c)) => {
                    &&& c.file_name@ == file_name
                    &&& c.disposition == disposition
                    &&& c.delete_on_close == ((create_options & 0x1000) != 0)
                    &&& c.directory == ((create_options & 0x1) != 0)
                },
                _ => false,
            }
        })
    } else {
        &&& b.ssn2vec_map@ == a.ssn2vec_map@
        &&& generic_tx_appended(a, b, r, r.ssn_id, malformed_events(), false)
    }
}

/// The tree-connect share name: NUL padding stripped, and the leading
/// type marker dropped when anything follows it.
pub open spec fn spec_share_name(share: Seq<u8>) -> Seq<u8> {
    let st = spec_strip_nul(share);
    if st.len() > 1 {
        st.subrange(1, st.len() as int)
    } else {
        st
    }
}

/// What a tree-connect request does: a tree-connect transaction keyed
/// before the tree identity is known is appended, carrying the share
/// name, with its request side done.
pub open spec fn spec_treeconnect_request_post(a: SMBState, b: SMBState, r: SmbRecord) -> bool {
    &&& same_maps(a, b)
    &&& same_file_state(a, b)
    &&& same_misc(a, b)
    &&& b.tx_id == a.tx_id + 1
    &&& b.transactions@.len() == a.transactions@.len() + 1
    &&& b.transactions@.subrange(0, a.transactions@.len() as int) == a.transactions@
    &&& ({
        let t = b.transactions@.last();
        &&& t.id == a.tx_id + 1
        &&& t.vercmd == (SMBVerCmdStat {
            smb_ver: 1,
            smb1_cmd: SMB1_COMMAND_TREE_CONNECT_ANDX,
            nt_status: 0,
            is_dos_error: false,
        })
        &&& t.hdr == spec_hdr_from1(SMBHDR_TYPE_TREE, r.ssn_id, r.tree_id, r.multiplex_id)
        &&& t.request_done == true
        &&& t.response_done == false
        &&& t.events@.len() == 0
        &&& t.de_state is None
        &&& match t.type_data {
            Some(SMBTransactionTypeData::TREECONNECT(tc)) => {
                &&& tc.share_name@ == spec_share_name(r.data@)
                &&& tc.is_pipe == false
                &&& tc.tree_id == 0
            },
            _ => false,
        }
    })
}

/// What a tree-disconnect request does: the record's share key leaves the
/// tree map, and a generic transaction is appended.
pub open spec fn spec_treedisconnect_request_post(a: SMBState, b: SMBState, r: SmbRecord) -> bool {
    &&& same_file_state(a, b)
    &&& same_misc(a, b)
    &&& b.ssn2vec_map@ == a.ssn2vec_map@
    &&& b.ssn2vecoffset_map@ == a.ssn2vecoffset_map@
    &&& b.ssn2maxsize_map@ == a.ssn2maxsize_map@
    &&& b.guid2name_map@ == a.guid2name_map@
    &&& b.ssnguid2vec_map@ == a.ssnguid2vec_map@
    &&& ({
        let key = spec_hdr_from1(SMBHDR_TYPE_SHARE, r.ssn_id, r.tree_id, r.multiplex_id);
        let j = spec_hdr_find(a.ssn2tree_map@, key, 0);
        if j < a.ssn2tree_map@.len() {
            b.ssn2tree_map@ == a.ssn2tree_map@.remove(j)
        } else {
            b.ssn2tree_map@ == a.ssn2tree_map@
        }
    })
    &&& generic_tx_appended(a, b, r, r.ssn_id, Seq::empty(), false)
}

/// Relation between a file transaction before and after its handle was
/// closed: both directions become done unless the request side already
/// was, and the tracked handle is cleared so it can be reused.
pub open spec fn file_tx_closed(t: SMBTransaction, t2: SMBTransaction) -> bool {
    &&& t2.id == t.id
    &&& t2.vercmd == t.vercmd
    &&& t2.hdr == t.hdr
    &&& t2.events@ == t.events@
    &&& t2.de_state == t.de_state
    &&& if !t.request_done {
        t2.request_done == true && t2.response_done == true
    } else {
        t2.request_done == t.request_done && t2.response_done == t.response_done
    }
    &&& match (t.type_data, t2.type_data) {
        (Some(SMBTransactionTypeData::FILE(f)), Some(SMBTransactionTypeData::FILE(f2))) => {
            &&& f2.direction == f.direction
            &&& f2.guid@.len() == 0
            &&& f2.file_name@ == f.file_name@
            &&& f2.share_name@ == f.share_name@
            &&& f2.chunks@ == f.chunks@
        },
        _ => false,
    }
}

/// One close pass over the table: the first file transaction tracking the
/// handle in the given direction is closed, the rest are kept.
pub open spec fn txs_close_pass(
    old_txs: Seq<SMBTransaction>,
    new_txs: Seq<SMBTransaction>,
    guid: Seq<u8>,
    direction: Direction,
) -> bool {
    let j = spec_find_file_tx(old_txs, guid, direction, 0);
    if j < old_txs.len() {
        &&& new_txs.len() == old_txs.len()
        &&& (forall|k: int| 0 <= k < old_txs.len() && k != j ==> new_txs[k] == old_txs[k])
        &&& file_tx_closed(old_txs[j], new_txs[j])
    } else {
        new_txs == old_txs
    }
}

/// What a close request does: on a good decode, the file transactions
/// tracking the handle in either direction are closed (a handle can have
/// one per direction); a bad decode leaves the malformed-data event on
/// the tail transaction. A generic transaction is appended either way.
pub open spec fn spec_close_request_post(a: SMBState, b: SMBState, r: SmbRecord) -> bool {
    &&& same_maps(a, b)
    &&& same_file_state(a, b)
    &&& same_misc(a, b)
    &&& if r.data@.len() >= 2 {
        let fid = spec_fid_key(r.data@.subrange(0, 2), r.ssn_id);
        &&& b.tx_id == a.tx_id + 1
        &&& b.transactions@.len() == a.transactions@.len() + 1
        &&& exists|mid: Seq<SMBTransaction>|
            {
                &&& #[trigger] txs_close_pass(a.transactions@, mid, fid, Direction::ToServer)
                &&& txs_close_pass(
                    mid,
                    b.transactions@.subrange(0, a.transactions@.len() as int),
                    fid,
                    Direction::ToClient,
                )
            }
        &&& ({
            let t = b.transactions@.last();
            &&& t.id == a.tx_id + 1
            &&& t.vercmd == (SMBVerCmdStat {
                smb_ver: 1,
                smb1_cmd: r.command,
                nt_status: 0,
                is_dos_error: false,
            })
            &&& t.hdr == spec_hdr_from1(
                SMBHDR_TYPE_GENERICTX,
                r.ssn_id,
                r.tree_id,
                r.multiplex_id,
            )
            &&& t.request_done == false
            &&& t.response_done == false
            &&& t.events@.len() == 0
            &&& t.de_state is None
            &&& t.type_data is None
        })
    } else {
        generic_tx_appended(a, b, r, r.ssn_id, malformed_events(), false)
    }
}

/// What every other request does: only the generic transaction tail runs.
/// A session-setup request resets the key's session identity; commands
/// that inherently expect no response have their response side
/// pre-completed.
pub open spec fn spec_generic_request_post(
    a: SMBState,
    b: SMBState,
    r: SmbRecord,
    key_ssn_id: u32,
    no_response: bool,
) -> bool {
    &&& same_maps(a, b)
    &&& same_file_state(a, b)
    &&& same_misc(a, b)
    &&& generic_tx_appended(a, b, r, key_ssn_id, Seq::empty(), no_response)
}

impl SMBState {
    /// Append the generic tail transaction for a record: keyed by the
    /// record's composite key, carrying the events the dispatch
    /// collected, with the response pre-completed for commands that
    /// expect none.
    fn append_generic_tx(
        &mut self,
        r: &SmbRecord,
        key_ssn_id: u32,
        events: Vec<SMBEvent>,
        no_response: bool,
    )
        requires
            spec_wf_txs(old(self).transactions@, old(self).tx_id),
            old(self).tx_id < u64::MAX,
        ensures
            spec_wf_txs(final(self).transactions@, final(self).tx_id),
            same_maps(*old(self), *final(self)),
            same_file_state(*old(self), *final(self)),
            same_misc(*old(self), *final(self)),
            generic_tx_appended(
                *old(self),
                *final(self),
                *r,
                key_ssn_id,
                events@.map_values(|e: SMBEvent| spec_smb_event_id(e)),
                no_response,
            ),
    {
        let mut tx = self.new_tx_raw();
        tx.vercmd.set_smb1_cmd(r.command);
        tx.hdr = SMBCommonHdr::new(
            SMBHDR_TYPE_GENERICTX,
            key_ssn_id as u64,
            r.tree_id as u32,
            r.multiplex_id as u64,
        );
        tx.set_events(events);
        if no_response {
            tx.response_done = true;
        }
        proof {
            lemma_wf_push(self.transactions@, old(self).tx_id, tx);
        }
        let ghost pre = self.transactions@;
        self.transactions.push(tx);
        proof {
            assert(self.transactions@.subrange(0, pre.len() as int) =~= pre);
            assert(spec_wf_txs(self.transactions@, self.tx_id));
        }
    }
}

/// Append one ordered byte range to a file transaction's chunk list.
fn file_tx_add_chunk(tx: &mut SMBTransaction, offset: u64, data: Vec<u8>)
    requires
        old(tx).type_data matches Some(SMBTransactionTypeData::FILE(_)),
    ensures
        file_tx_chunk_added(*old(tx), *final(tx), offset, data@),
{
    match &mut tx.type_data {
        Some(SMBTransactionTypeData::FILE(tdf)) => {
            let ghost pre = tdf.chunks@;
            tdf.chunks.push(FileChunk { offset, data });
            proof {
                assert(tdf.chunks@.subrange(0, pre.len() as int) =~= pre);
            }
        },
        _ => {
            proof {
                assert(false);
            }
        },
    }
}

/// Handle a write request record: feed the data to the matching file
/// transaction, delegate it to the embedded RPC protocol for pipe
/// shares, or open a fresh file transaction; record how many declared
/// bytes are still owed (saturating at zero on adversarial lengths).
pub fn smb1_write_request_record(state: &mut SMBState, r: &SmbRecord)
    requires
        spec_wf_txs(old(state).transactions@, old(state).tx_id),
        old(state).tx_id < u64::MAX,
    ensures
        spec_wf_txs(final(state).transactions@, final(state).tx_id),
        spec_write_request_post(*old(state), *final(state), *r),
{
    let parsed = parse_smb1_write_request_record(r.data.as_slice());
    match parsed {
        Ok(rd) => {
            let present: u32 = if rd.data.len() > 0xffffffffusize {
                0xffffffff
            } else {
                rd.data.len() as u32
            };
            let file_fid = fid_with_ssn(&rd.fid, r.ssn_id);
            let found = state.get_file_tx_by_guid(&file_fid, Direction::ToServer);
            match found {
                Some(j) => {
                    let ghost pre = state.transactions@;
                    proof {
                        lemma_find_file_tx_props(pre, file_fid@, Direction::ToServer, 0);
                    }
                    let mut tx = state.transactions.remove(j);
                    file_tx_add_chunk(&mut tx, rd.offset, rd.data);
                    state.transactions.insert(j, tx);
                    proof {
                        assert(state.transactions@.len() == pre.len());
                        assert(forall|k: int|
                            0 <= k < pre.len() && k != j ==> state.transactions@[k] == pre[k]);
                        assert(file_tx_chunk_added(
                            pre[j as int],
                            state.transactions@[j as int],
                            rd.offset,
                            r.data@.subrange(14, r.data@.len() as int),
                        ));
                        lemma_wf_update(
                            pre,
                            state.tx_id,
                            j as int,
                            state.transactions@[j as int],
                        );
                        assert(state.transactions@ =~= pre.update(
                            j as int,
                            state.transactions@[j as int],
                        ));
                    }
                },
                None => {
                    let share_key = SMBCommonHdr::from1(r, SMBHDR_TYPE_SHARE);
                    let tree = hdr_map_get(&state.ssn2tree_map, share_key);
                    let (share_name, is_pipe) = match tree {
                        Some(t) => (crate::clone_bytes(&t.name), t.is_pipe),
                        None => (Vec::new(), false),
                    };
                    if is_pipe {
                        let ghost pre = state.tunnel@;
                        state.tunnel.push(
                            TunnelRecord {
                                direction: Direction::ToServer,
                                vercmd: SMBVerCmdStat::new1_with_ntstatus(r.command, r.nt_status),
                                hdr: SMBCommonHdr::from1(r, SMBHDR_TYPE_HEADER),
                                fid: Vec::new(),
                                data: rd.data,
                            },
                        );
                        proof {
                            assert(state.tunnel@.subrange(0, pre.len() as int) =~= pre);
                        }
                    } else {
                        let file_name = {
                            let n = guid_map_get(&state.guid2name_map, &file_fid);
                            match n {
                                Some(nm) => crate::clone_bytes(nm),
                                None => Vec::new(),
                            }
                        };
                        let mut chunks: Vec<FileChunk> = Vec::new();
                        chunks.push(FileChunk { offset: rd.offset, data: rd.data });
                        let ghost cnt0 = state.tx_id;
                        let mut tx = state.new_tx_raw();
                        tx.vercmd.set_smb1_cmd(SMB1_COMMAND_WRITE_ANDX);
                        tx.type_data = Some(
                            SMBTransactionTypeData::FILE(
                                SMBTransactionFile {
                                    direction: Direction::ToServer,
                                    guid: crate::clone_bytes(&file_fid),
                                    file_name,
                                    share_name,
                                    chunks,
                                },
                            ),
                        );
                        proof {
                            lemma_wf_push(state.transactions@, cnt0, tx);
                        }
                        let ghost pre = state.transactions@;
                        state.transactions.push(tx);
                        proof {
                            assert(state.transactions@.subrange(0, pre.len() as int) =~= pre);
                        }
                    }
                },
            }
            state.file_ts_left = if rd.len > present {
                rd.len - present
            } else {
                0
            };
            state.file_ts_guid = file_fid;
        },
        Err(_) => {
            state.set_event(SMBEvent::MalformedData);
        },
    }
}

/// Handle a transaction-command request record: remember the pipe handle
/// and transaction name, remember the maximum response size the client
/// accepts, and delegate the payload to the embedded RPC protocol when
/// the name addresses the pipe service.
pub fn smb1_trans_request_record(state: &mut SMBState, r: &SmbRecord)
    requires
        spec_wf_txs(old(state).transactions@, old(state).tx_id),
        old(state).tx_id < u64::MAX,
    ensures
        spec_wf_txs(final(state).transactions@, final(state).tx_id),
        spec_trans_request_post(*old(state), *final(state), *r),
{
    let parsed = parse_smb_trans_request_record(r.data.as_slice());
    match parsed {
        Ok(rd) => {
            let ghost m0 = state.ssn2vec_map@;
            match &rd.pipe_fid {
                Some(f) => {
                    let guid_key = SMBCommonHdr::from1(r, SMBHDR_TYPE_GUID);
                    let stored = crate::clone_bytes(f);
                    proof {
                        lemma_hdr_insert_described(m0, guid_key, stored);
                    }
                    hdr_map_insert(&mut state.ssn2vec_map, guid_key, stored);
                },
                None => {},
            }
            let ghost mid = state.ssn2vec_map@;
            let service = get_service_for_nameslice(rd.txname.as_slice());
            let is_dcerpc = service.1;
            if is_dcerpc {
                let txn_key = SMBCommonHdr::from1(r, SMBHDR_TYPE_TXNAME);
                let stored_name = crate::clone_bytes(&rd.txname);
                proof {
                    lemma_hdr_insert_described(mid, txn_key, stored_name);
                }
                hdr_map_insert(&mut state.ssn2vec_map, txn_key, stored_name);
                if rd.max_data_cnt > 0 {
                    let size_key = SMBCommonHdr::from1(r, SMBHDR_TYPE_MAX_SIZE);
                    proof {
                        lemma_hdr_insert_described(
                            state.ssn2maxsize_map@,
                            size_key,
                            rd.max_data_cnt,
                        );
                    }
                    hdr_map_insert(&mut state.ssn2maxsize_map, size_key, rd.max_data_cnt);
                }
                let ghost pre = state.tunnel@;
                state.tunnel.push(
                    TunnelRecord {
                        direction: Direction::ToServer,
                        vercmd: SMBVerCmdStat::new1(r.command),
                        hdr: SMBCommonHdr::from1(r, SMBHDR_TYPE_HEADER),
                        fid: Vec::new(),
                        data: rd.data,
                    },
                );
                proof {
                    assert(state.tunnel@.subrange(0, pre.len() as int) =~= pre);
                    if rd.pipe_fid is Some {
                        assert(hdr_map_inserted(
                            m0,
                            mid,
                            spec_hdr_from1(SMBHDR_TYPE_GUID, r.ssn_id, r.tree_id, r.multiplex_id),
                        ));
                    }
                }
            }
        },
        Err(_) => {
            state.set_event(SMBEvent::MalformedData);
        },
    }
}

/// What one request record does to the state, by command.
pub open spec fn spec_smb1_request_post(a: SMBState, b: SMBState, r: SmbRecord) -> bool {
    if r.command == SMB1_COMMAND_READ_ANDX {
        spec_read_andx_request_post(a, b, r)
    } else if r.command == SMB1_COMMAND_WRITE_ANDX || r.command == SMB1_COMMAND_WRITE {
        spec_write_request_post(a, b, r)
    } else if r.command == SMB1_COMMAND_TRANS {
        spec_trans_request_post(a, b, r)
    } else if r.command == SMB1_COMMAND_NEGOTIATE_PROTOCOL {
        spec_negotiate_request_post(a, b, r)
    } else if r.command == SMB1_COMMAND_NT_CREATE_ANDX {
        spec_create_request_post(a, b, r)
    } else if r.command == SMB1_COMMAND_TREE_CONNECT_ANDX {
        spec_treeconnect_request_post(a, b, r)
    } else if r.command == SMB1_COMMAND_TREE_DISCONNECT {
        spec_treedisconnect_request_post(a, b, r)
    } else if r.command == SMB1_COMMAND_CLOSE {
        spec_close_request_post(a, b, r)
    } else if r.command == SMB1_COMMAND_SESSION_SETUP_ANDX {
        spec_generic_request_post(a, b, r, 0, false)
    } else if r.command == SMB1_COMMAND_NT_CANCEL || r.command == SMB1_COMMAND_TRANS2_SECONDARY {
        spec_generic_request_post(a, b, r, r.ssn_id, true)
    } else {
        spec_generic_request_post(a, b, r, r.ssn_id, false)
    }
}

/// The tree-connect share name of a record's payload.
fn share_name_of(share: &[u8]) -> (r: Vec<u8>)
    ensures
        r@ == spec_share_name(share@),
{
    let mut name: Vec<u8> = Vec::new();
    let mut i: usize = 0;
    while i < share.len()
        invariant
            0 <= i <= share@.len(),
            name@ == spec_strip_nul(share@.subrange(0, i as int)),
        decreases share@.len() - i,
    {
        let b = share[i];
        proof {
            assert(share@.subrange(0, i + 1 as int).drop_last() =~= share@.subrange(0, i as int));
        }
        if b != 0 {
            name.push(b);
            assert(name@ =~= spec_strip_nul(share@.subrange(0, i + 1 as int)));
        }
        i = i + 1;
    }
    assert(share@.subrange(0, i as int) =~= share@);
    if name.len() > 1 {
        name.remove(0);
    }
    name
}

/// One close pass over the table: close the first file transaction
/// tracking the handle in the given direction, if any.
fn close_file_tx_pass(state: &mut SMBState, guid: &Vec<u8>, direction: Direction)
    requires
        spec_wf_txs(old(state).transactions@, old(state).tx_id),
    ensures
        spec_wf_txs(final(state).transactions@, final(state).tx_id),
        final(state).tx_id == old(state).tx_id,
        txs_close_pass(old(state).transactions@, final(state).transactions@, guid@, direction),
        same_maps(*old(state), *final(state)),
        same_file_state(*old(state), *final(state)),
        same_misc(*old(state), *final(state)),
{
    let found = state.get_file_tx_by_guid(guid, direction);
    match found {
        Some(j) => {
            let ghost pre = state.transactions@;
            proof {
                lemma_find_file_tx_props(pre, guid@, direction, 0);
            }
            let mut tx = state.transactions.remove(j);
            if !tx.request_done {
                tx.request_done = true;
                tx.response_done = true;
            }
            match &mut tx.type_data {
                Some(SMBTransactionTypeData::FILE(tdf)) => {
                    tdf.guid.clear();
                },
                _ => {
                    proof {
                        assert(false);
                    }
                },
            }
            state.transactions.insert(j, tx);
            proof {
                assert(state.transactions@.len() == pre.len());
                assert(forall|k: int|
                    0 <= k < pre.len() && k != j ==> state.transactions@[k] == pre[k]);
                assert(file_tx_closed(pre[j as int], state.transactions@[j as int]));
                lemma_wf_update(pre, state.tx_id, j as int, state.transactions@[j as int]);
                assert(state.transactions@ =~= pre.update(j as int, state.transactions@[j as int]));
            }
        },
        None => {},
    }
}

/// Dispatch one request record to its command handler, then append the
/// generic tail transaction for commands whose handler did not open one.
/// A decode failure attaches the malformed-data anomaly to the tail
/// transaction (or to the flow) and the session continues.
pub fn smb1_request_record(state: &mut SMBState, r: &SmbRecord) -> (res: u32)
    requires
        spec_wf_txs(old(state).transactions@, old(state).tx_id),
        old(state).tx_id < u64::MAX,
    ensures
        res == 0,
        spec_wf_txs(final(state).transactions@, final(state).tx_id),
        spec_smb1_request_post(*old(state), *final(state), *r),
{
    let ghost a = *old(state);
    if r.command == SMB1_COMMAND_READ_ANDX {
        let parsed = parse_smb_read_andx_request_record(r.data.as_slice());
        match parsed {
            Ok(rr) => {
                let fid_key = SMBCommonHdr::from1(r, SMBHDR_TYPE_OFFSET);
                let fidoff = SMBFileGUIDOffset::new(fid_with_ssn(&rr.fid, r.ssn_id), rr.offset);
                proof {
                    lemma_hdr_insert_described(state.ssn2vecoffset_map@, fid_key, fidoff);
                }
                hdr_map_insert(&mut state.ssn2vecoffset_map, fid_key, fidoff);
                let events: Vec<SMBEvent> = Vec::new();
                proof {
                    assert(events@.map_values(|e: SMBEvent| spec_smb_event_id(e))
                        =~= Seq::<u8>::empty());
                }
                state.append_generic_tx(r, r.ssn_id, events, false);
            },
            Err(_) => {
                let mut events: Vec<SMBEvent> = Vec::new();
                events.push(SMBEvent::MalformedData);
                proof {
                    assert(events@.map_values(|e: SMBEvent| spec_smb_event_id(e))
                        =~= malformed_events());
                }
                state.append_generic_tx(r, r.ssn_id, events, false);
            },
        }
    } else if r.command == SMB1_COMMAND_WRITE_ANDX || r.command == SMB1_COMMAND_WRITE {
        smb1_write_request_record(state, r);
    } else if r.command == SMB1_COMMAND_TRANS {
        smb1_trans_request_record(state, r);
    } else if r.command == SMB1_COMMAND_NEGOTIATE_PROTOCOL {
        let parsed = parse_smb1_negotiate_protocol_record(r.data.as_slice());
        match parsed {
            Ok(pr) => {
                let found = state.get_negotiate_tx(1);
                match found {
                    Some(j) => {
                        let ghost pre = state.transactions@;
                        proof {
                            lemma_find_negotiate_tx_props(pre, 1, 0);
                        }
                        let mut tx = state.transactions.remove(j);
                        tx.set_event(SMBEvent::DuplicateNegotiate);
                        state.transactions.insert(j, tx);
                        proof {
                            assert(state.transactions@.len() == pre.len());
                            assert(forall|k: int|
                                0 <= k < pre.len() && k != j ==> state.transactions@[k] == pre[k]);
                            assert(tx_event_added(
                                pre[j as int],
                                state.transactions@[j as int],
                                SMBEvent::DuplicateNegotiate,
                            ));
                            lemma_wf_update(
                                pre,
                                state.tx_id,
                                j as int,
                                state.transactions@[j as int],
                            );
                            assert(state.transactions@ =~= pre.update(
                                j as int,
                                state.transactions@[j as int],
                            ));
                        }
                    },
                    None => {
                        let ghost cnt0 = state.tx_id;
                        let mut tx = state.new_tx_raw();
                        tx.vercmd.set_smb1_cmd(SMB1_COMMAND_NEGOTIATE_PROTOCOL);
                        tx.request_done = true;
                        tx.type_data = Some(
                            SMBTransactionTypeData::NEGOTIATE(
                                SMBTransactionNegotiate { dialects: pr.dialects },
                            ),
                        );
                        proof {
                            lemma_wf_push(state.transactions@, cnt0, tx);
                        }
                        let ghost pre = state.transactions@;
                        state.transactions.push(tx);
                        proof {
                            assert(state.transactions@.subrange(0, pre.len() as int) =~= pre);
                        }
                    },
                }
            },
            Err(_) => {
                let mut events: Vec<SMBEvent> = Vec::new();
                events.push(SMBEvent::MalformedData);
                proof {
                    assert(events@.map_values(|e: SMBEvent| spec_smb_event_id(e))
                        =~= malformed_events());
                }
                state.append_generic_tx(r, r.ssn_id, events, false);
            },
        }
    } else if r.command == SMB1_COMMAND_NT_CREATE_ANDX {
        let parsed = parse_smb_create_andx_request_record(r.data.as_slice());
        match parsed {
            Ok(cr) => {
                let del = cr.create_options & 0x1000 != 0;
                let dir = cr.create_options & 0x1 != 0;
                let name_key = SMBCommonHdr::from1(r, SMBHDR_TYPE_FILENAME);
                let stored = crate::clone_bytes(&cr.file_name);
                proof {
                    lemma_hdr_insert_described(state.ssn2vec_map@, name_key, stored);
                }
                hdr_map_insert(&mut state.ssn2vec_map, name_key, stored);
                let ghost cnt0 = state.tx_id;
                let mut tx = state.new_tx_raw();
                tx.vercmd.set_smb1_cmd(r.command);
                tx.hdr = SMBCommonHdr::from1(r, SMBHDR_TYPE_GENERICTX);
                tx.request_done = true;
                tx.type_data = Some(
                    SMBTransactionTypeData::CREATE(
                        SMBTransactionCreate {
                            file_name: cr.file_name,
                            disposition: cr.disposition,
                            delete_on_close: del,
                            directory: dir,
                        },
                    ),
                );
                proof {
                    lemma_wf_push(state.transactions@, cnt0, tx);
                }
                let ghost pre = state.transactions@;
                state.transactions.push(tx);
                proof {
                    assert(state.transactions@.subrange(0, pre.len() as int) =~= pre);
                }
            },
            Err(_) => {
                let mut events: Vec<SMBEvent> = Vec::new();
                events.push(SMBEvent::MalformedData);
                proof {
                    assert(events@.map_values(|e: SMBEvent| spec_smb_event_id(e))
                        =~= malformed_events());
                }
                state.append_generic_tx(r, r.ssn_id, events, false);
            },
        }
    } else if r.command == SMB1_COMMAND_TREE_CONNECT_ANDX {
        let name_val = share_name_of(r.data.as_slice());
        let name_key = SMBCommonHdr::from1(r, SMBHDR_TYPE_TREE);
        let ghost cnt0 = state.tx_id;
        let mut tx = state.new_tx_raw();
        tx.vercmd.set_smb1_cmd(SMB1_COMMAND_TREE_CONNECT_ANDX);
        tx.hdr = name_key;
        tx.request_done = true;
        tx.type_data = Some(
            SMBTransactionTypeData::TREECONNECT(
                SMBTransactionTreeConnect { share_name: name_val, is_pipe: false, tree_id: 0 },
            ),
        );
        proof {
            lemma_wf_push(state.transactions@, cnt0, tx);
        }
        let ghost pre = state.transactions@;
        state.transactions.push(tx);
        proof {
            assert(state.transactions@.subrange(0, pre.len() as int) =~= pre);
        }
    } else if r.command == SMB1_COMMAND_TREE_DISCONNECT {
        let tree_key = SMBCommonHdr::from1(r, SMBHDR_TYPE_SHARE);
        let _removed = hdr_map_remove(&mut state.ssn2tree_map, tree_key);
        let events: Vec<SMBEvent> = Vec::new();
        proof {
            assert(events@.map_values(|e: SMBEvent| spec_smb_event_id(e)) =~= Seq::<u8>::empty());
        }
        state.append_generic_tx(r, r.ssn_id, events, false);
    } else if r.command == SMB1_COMMAND_CLOSE {
        let parsed = parse_smb1_close_request_record(r.data.as_slice());
        match parsed {
            Ok(cd) => {
                let fid = fid_with_ssn(&cd.fid, r.ssn_id);
                close_file_tx_pass(state, &fid, Direction::ToServer);
                let ghost midtxs = state.transactions@;
                close_file_tx_pass(state, &fid, Direction::ToClient);
                let ghost donetxs = state.transactions@;
                let events: Vec<SMBEvent> = Vec::new();
                proof {
                    assert(events@.map_values(|e: SMBEvent| spec_smb_event_id(e))
                        =~= Seq::<u8>::empty());
                }
                state.append_generic_tx(r, r.ssn_id, events, false);
                proof {
                    assert(state.transactions@.subrange(0, a.transactions@.len() as int)
                        =~= donetxs);
                    assert(txs_close_pass(a.transactions@, midtxs, fid@, Direction::ToServer));
                    assert(txs_close_pass(
                        midtxs,
                        state.transactions@.subrange(0, a.transactions@.len() as int),
                        fid@,
                        Direction::ToClient,
                    ));
                }
            },
            Err(_) => {
                let mut events: Vec<SMBEvent> = Vec::new();
                events.push(SMBEvent::MalformedData);
                proof {
                    assert(events@.map_values(|e: SMBEvent| spec_smb_event_id(e))
                        =~= malformed_events());
                }
                state.append_generic_tx(r, r.ssn_id, events, false);
            },
        }
    } else if r.command == SMB1_COMMAND_SESSION_SETUP_ANDX {
        let events: Vec<SMBEvent> = Vec::new();
        proof {
            assert(events@.map_values(|e: SMBEvent| spec_smb_event_id(e)) =~= Seq::<u8>::empty());
        }
        state.append_generic_tx(r, 0, events, false);
    } else if r.command == SMB1_COMMAND_NT_CANCEL || r.command == SMB1_COMMAND_TRANS2_SECONDARY {
        let events: Vec<SMBEvent> = Vec::new();
        proof {
            assert(events@.map_values(|e: SMBEvent| spec_smb_event_id(e)) =~= Seq::<u8>::empty());
        }
        state.append_generic_tx(r, r.ssn_id, events, true);
    } else {
        let events: Vec<SMBEvent> = Vec::new();
        proof {
            assert(events@.map_values(|e: SMBEvent| spec_smb_event_id(e)) =~= Seq::<u8>::empty());
        }
        state.append_generic_tx(r, r.ssn_id, events, false);
    }
    0
}

/// Relation between a transaction before and after a response completed
/// it: the status lands in the command slot, the response side is done
/// (and the request side too, when the completion implies it), and the
/// listed events are appended.
pub open spec fn tx_completed_rel(
    t: SMBTransaction,
    t2: SMBTransaction,
    nt_status: u32,
    is_dos_error: bool,
    events: Seq<u8>,
    set_req: bool,
) -> bool {
    &&& t2.id == t.id
    &&& t2.hdr == t.hdr
    &&& t2.de_state == t.de_state
    &&& t2.type_data == t.type_data
    &&& t2.vercmd == (SMBVerCmdStat { nt_status, is_dos_error, ..t.vercmd })
    &&& t2.request_done == (set_req || t.request_done)
    &&& t2.response_done == true
    &&& t2.events@ == t.events@ + events
}

/// The response tail: when no handler owned the record, the matching
/// still-open transaction is completed — the last transaction for
/// commands synchronised by order, the generic transaction under the
/// record's key otherwise. An unmatched response completes nothing.
pub open spec fn txs_response_tail(
    old_txs: Seq<SMBTransaction>,
    new_txs: Seq<SMBTransaction>,
    r: SmbRecord,
    events: Seq<u8>,
    sync: bool,
) -> bool {
    if sync {
        if old_txs.len() > 0 && old_txs.last().vercmd.smb_ver == 1 && old_txs.last().vercmd.smb1_cmd
            == r.command {
            &&& new_txs.len() == old_txs.len()
            &&& (forall|k: int|
                0 <= k < old_txs.len() - 1 ==> #[trigger] new_txs[k] == old_txs[k])
            &&& tx_completed_rel(
                old_txs.last(),
                new_txs.last(),
                r.nt_status,
                r.is_dos_error,
                events,
                false,
            )
        } else {
            new_txs == old_txs
        }
    } else {
        let key = spec_hdr_from1(SMBHDR_TYPE_GENERICTX, r.ssn_id, r.tree_id, r.multiplex_id);
        let j = spec_find_generic_tx(old_txs, 1, r.command, key, 0);
        if j < old_txs.len() {
            &&& new_txs.len() == old_txs.len()
            &&& (forall|k: int| 0 <= k < old_txs.len() && k != j ==> new_txs[k] == old_txs[k])
            &&& tx_completed_rel(
                old_txs[j],
                new_txs[j],
                r.nt_status,
                r.is_dos_error,
                events,
                true,
            )
        } else {
            new_txs == old_txs
        }
    }
}

/// The generic completion pass a read response always runs first: the
/// generic transaction under the record's key, if any, is completed in
/// both directions with the response's status.
pub open spec fn txs_generic_complete(
    old_txs: Seq<SMBTransaction>,
    new_txs: Seq<SMBTransaction>,
    r: SmbRecord,
) -> bool {
    txs_response_tail(old_txs, new_txs, r, Seq::empty(), false)
}

/// What a transaction-command response does: the pipe handle stored by
/// the request is consumed; a buffer-overflow status parks the partial
/// data under the fragment key for later, while any other status consumes
/// the stored transaction name and, when it addressed the pipe service,
/// delegates the response data to the embedded RPC protocol.
pub open spec fn spec_trans_response_post(a: SMBState, b: SMBState, r: SmbRecord) -> bool {
    &&& same_txs(a, b)
    &&& same_file_state(a, b)
    &&& b.dialect_vec == a.dialect_vec
    &&& b.state_events@ == a.state_events@
    &&& b.ssn2vecoffset_map@ == a.ssn2vecoffset_map@
    &&& b.ssn2tree_map@ == a.ssn2tree_map@
    &&& b.ssn2maxsize_map@ == a.ssn2maxsize_map@
    &&& b.guid2name_map@ == a.guid2name_map@
    &&& ({
        let guid_key = spec_hdr_from1(SMBHDR_TYPE_GUID, r.ssn_id, r.tree_id, r.multiplex_id);
        let j1 = spec_hdr_find(a.ssn2vec_map@, guid_key, 0);
        let mid = if j1 < a.ssn2vec_map@.len() {
            a.ssn2vec_map@.remove(j1)
        } else {
            a.ssn2vec_map@
        };
        let fid: Seq<u8> = if j1 < a.ssn2vec_map@.len() {
            a.ssn2vec_map@[j1].1@
        } else {
            Seq::empty()
        };
        if r.nt_status == SMB_NTSTATUS_BUFFER_OVERFLOW {
            let frag_key = spec_hdr_from1(
                SMBHDR_TYPE_TRANS_FRAG,
                r.ssn_id,
                r.tree_id,
                r.multiplex_id,
            );
            let jf = spec_hdrguid_find(a.ssnguid2vec_map@, frag_key, fid, 0);
            let base = if jf < a.ssnguid2vec_map@.len() {
                a.ssnguid2vec_map@.remove(jf)
            } else {
                a.ssnguid2vec_map@
            };
            &&& b.ssn2vec_map@ == mid
            &&& b.ssnguid2vec_map@.len() == base.len() + 1
            &&& b.ssnguid2vec_map@.subrange(0, base.len() as int) == base
            &&& b.ssnguid2vec_map@.last().0.hdr == frag_key
            &&& b.ssnguid2vec_map@.last().0.guid@ == fid
            &&& b.ssnguid2vec_map@.last().1@ == r.data@
            &&& b.tunnel@ == a.tunnel@
        } else {
            let txname_key = spec_hdr_from1(
                SMBHDR_TYPE_TXNAME,
                r.ssn_id,
                r.tree_id,
                r.multiplex_id,
            );
            let j2 = spec_hdr_find(mid, txname_key, 0);
            let is_dcerpc = j2 < mid.len() && spec_service_for(mid[j2].1@).1;
            &&& b.ssnguid2vec_map@ == a.ssnguid2vec_map@
            &&& b.ssn2vec_map@ == (if j2 < mid.len() {
                mid.remove(j2)
            } else {
                mid
            })
            &&& if is_dcerpc {
                tunnel_appended(
                    a,
                    b,
                    Direction::ToClient,
                    SMBVerCmdStat {
                        smb_ver: 1,
                        smb1_cmd: r.command,
                        nt_status: r.nt_status,
                        is_dos_error: false,
                    },
                    spec_hdr_from1(SMBHDR_TYPE_HEADER, r.ssn_id, r.tree_id, r.multiplex_id),
                    fid,
                    r.data@,
                )
            } else {
                b.tunnel@ == a.tunnel@
            }
        }
    })
}

/// What a read response does, after the generic completion pass: a
/// pending (handle, offset) entry stored by the read request is consumed
/// and the data lands in the matching to-client file transaction (opening
/// one if needed), or is delegated to the embedded RPC protocol for pipe
/// shares; a response with no pending entry is the unknown-left-over
/// case — the engine records how many declared bytes to skip, saturating
/// at zero, and touches nothing else. Failed statuses and short payloads
/// stop after the generic pass (the latter with a flow-wide
/// malformed-data event).
pub open spec fn spec_read_response_post(a: SMBState, b: SMBState, r: SmbRecord) -> bool {
    exists|mid_txs: Seq<SMBTransaction>|
        {
            &&& #[trigger] txs_generic_complete(a.transactions@, mid_txs, r)
            &&& spec_read_response_rest(a, mid_txs, b, r)
        }
}

/// The read-response work after the generic completion pass, starting
/// from the table that pass produced.
pub open spec fn spec_read_response_rest(
    a: SMBState,
    mid_txs: Seq<SMBTransaction>,
    b: SMBState,
    r: SmbRecord,
) -> bool {
    &&& b.tx_id == a.tx_id || b.tx_id == a.tx_id + 1
    &&& b.ssn2vec_map@ == a.ssn2vec_map@
    &&& b.ssn2tree_map@ == a.ssn2tree_map@
    &&& b.ssn2maxsize_map@ == a.ssn2maxsize_map@
    &&& b.guid2name_map@ == a.guid2name_map@
    &&& b.ssnguid2vec_map@ == a.ssnguid2vec_map@
    &&& b.dialect_vec == a.dialect_vec
    &&& b.skip_ts == a.skip_ts
    &&& b.file_ts_left == a.file_ts_left
    &&& b.file_ts_guid@ == a.file_ts_guid@
    &&& if r.nt_status != SMB_NTSTATUS_SUCCESS {
        &&& b.transactions@ == mid_txs
        &&& b.tx_id == a.tx_id
        &&& b.ssn2vecoffset_map@ == a.ssn2vecoffset_map@
        &&& b.skip_tc == a.skip_tc
        &&& b.file_tc_left == a.file_tc_left
        &&& b.file_tc_guid@ == a.file_tc_guid@
        &&& b.state_events@ == a.state_events@
        &&& b.tunnel@ == a.tunnel@
    } else {
        match spec_parse_read_andx_response(r.data@) {
            Some((len, data)) => {
                let fid_key = spec_hdr_from1(
                    SMBHDR_TYPE_OFFSET,
                    r.ssn_id,
                    r.tree_id,
                    r.multiplex_id,
                );
                let jp = spec_hdr_find(a.ssn2vecoffset_map@, fid_key, 0);
                &&& b.state_events@ == a.state_events@
                &&& if jp < a.ssn2vecoffset_map@.len() {
                    let offset = a.ssn2vecoffset_map@[jp].1.offset;
                    let file_fid = a.ssn2vecoffset_map@[jp].1.guid@;
                    let share_key = spec_hdr_from1(
                        SMBHDR_TYPE_SHARE,
                        r.ssn_id,
                        r.tree_id,
                        r.multiplex_id,
                    );
                    let tree = spec_tree_of(a.ssn2tree_map@, share_key);
                    &&& b.ssn2vecoffset_map@ == a.ssn2vecoffset_map@.remove(jp)
                    &&& b.skip_tc == a.skip_tc
                    &&& b.file_tc_left == spec_left_of(len, data.len())
                    &&& b.file_tc_guid@ == file_fid
                    &&& if !tree.1 {
                        let jf = spec_find_file_tx(mid_txs, file_fid, Direction::ToClient, 0);
                        &&& b.tunnel@ == a.tunnel@
                        &&& if jf < mid_txs.len() {
                            &&& b.tx_id == a.tx_id
                            &&& b.transactions@.len() == mid_txs.len()
                            &&& (forall|k: int|
                                0 <= k < mid_txs.len() && k != jf ==> b.transactions@[k]
                                    == mid_txs[k])
                            &&& file_tx_chunk_added(
                                mid_txs[jf],
                                b.transactions@[jf],
                                offset,
                                data,
                            )
                        } else {
                            &&& b.tx_id == a.tx_id + 1
                            &&& b.transactions@.len() == mid_txs.len() + 1
                            &&& b.transactions@.subrange(0, mid_txs.len() as int) == mid_txs
                            &&& ({
                                let t = b.transactions@.last();
                                &&& t.id == a.tx_id + 1
                                &&& t.vercmd == (SMBVerCmdStat {
                                    smb_ver: 1,
                                    smb1_cmd: SMB1_COMMAND_READ_ANDX,
                                    nt_status: 0,
                                    is_dos_error: false,
                                })
                                &&& t.request_done == false
                                &&& t.response_done == false
                                &&& t.events@.len() == 0
                                &&& t.de_state is None
                                &&& match t.type_data {
                                    Some(SMBTransactionTypeData::FILE(f)) => {
                                        &&& f.direction == Direction::ToClient
                                        &&& f.guid@ == file_fid
                                        &&& f.file_name@ == spec_guid_name(
                                            a.guid2name_map@,
                                            file_fid,
                                        )
                                        &&& f.share_name@ == tree.0
                                        &&& f.chunks@.len() == 1
                                        &&& f.chunks@[0].offset == offset
                                        &&& f.chunks@[0].data@ == data
                                    },
                                    _ => false,
                                }
                            })
                        }
                    } else {
                        &&& b.tx_id == a.tx_id
                        &&& b.transactions@ == mid_txs
                        &&& tunnel_appended(
                            a,
                            b,
                            Direction::ToClient,
                            SMBVerCmdStat {
                                smb_ver: 1,
                                smb1_cmd: r.command,
                                nt_status: 0,
                                is_dos_error: false,
                            },
                            spec_hdr_from1(SMBHDR_TYPE_HEADER, r.ssn_id, r.tree_id, r.multiplex_id),
                            if file_fid.len() > 2 {
                                file_fid.subrange(0, 2)
                            } else {
                                Seq::empty()
                            },
                            data,
                        )
                    }
                } else {
                    &&& b.tx_id == a.tx_id
                    &&& b.transactions@ == mid_txs
                    &&& b.ssn2vecoffset_map@ == a.ssn2vecoffset_map@
                    &&& b.skip_tc == spec_left_of(len, data.len())
                    &&& b.file_tc_left == a.file_tc_left
                    &&& b.file_tc_guid@ == a.file_tc_guid@
                    &&& b.tunnel@ == a.tunnel@
                }
            },
            None => {
                &&& b.tx_id == a.tx_id
                &&& b.transactions@ == mid_txs
                &&& b.ssn2vecoffset_map@ == a.ssn2vecoffset_map@
                &&& b.skip_tc == a.skip_tc
                &&& b.file_tc_left == a.file_tc_left
                &&& b.file_tc_guid@ == a.file_tc_guid@
                &&& b.tunnel@ == a.tunnel@
                &&& b.state_events@ == a.state_events@.push(
                    spec_smb_event_id(SMBEvent::MalformedData),
                )
            },
        }
    }
}

impl SMBState {
    /// Complete the still-open transaction a response belongs to: the
    /// last transaction for order-synchronised commands, the generic
    /// transaction under the record's key otherwise.
    fn response_tail(&mut self, r: &SmbRecord, events: Vec<SMBEvent>, sync: bool)
        requires
            spec_wf_txs(old(self).transactions@, old(self).tx_id),
        ensures
            spec_wf_txs(final(self).transactions@, final(self).tx_id),
            final(self).tx_id == old(self).tx_id,
            txs_response_tail(
                old(self).transactions@,
                final(self).transactions@,
                *r,
                events@.map_values(|e: SMBEvent| spec_smb_event_id(e)),
                sync,
            ),
            same_maps(*old(self), *final(self)),
            same_file_state(*old(self), *final(self)),
            same_misc(*old(self), *final(self)),
    {
        let found = if sync {
            self.get_last_tx(1, r.command)
        } else {
            let key = SMBCommonHdr::from1(r, SMBHDR_TYPE_GENERICTX);
            self.get_generic_tx(1, r.command, &key)
        };
        match found {
            Some(j) => {
                let ghost pre = self.transactions@;
                let mut tx = self.transactions.remove(j);
                if !sync {
                    tx.request_done = true;
                }
                tx.response_done = true;
                tx.set_status(r.nt_status, r.is_dos_error);
                tx.set_events(events);
                self.transactions.insert(j, tx);
                proof {
                    assert(self.transactions@.len() == pre.len());
                    assert(forall|k: int|
                        0 <= k < pre.len() && k != j ==> self.transactions@[k] == pre[k]);
                    assert(tx_completed_rel(
                        pre[j as int],
                        self.transactions@[j as int],
                        r.nt_status,
                        r.is_dos_error,
                        events@.map_values(|e: SMBEvent| spec_smb_event_id(e)),
                        !sync,
                    ));
                    lemma_wf_update(pre, self.tx_id, j as int, self.transactions@[j as int]);
                    assert(self.transactions@ =~= pre.update(
                        j as int,
                        self.transactions@[j as int],
                    ));
                }
            },
            None => {},
        }
    }
}

/// The generic completion pass of a read response.
fn smb1_read_response_record_generic(state: &mut SMBState, r: &SmbRecord)
    requires
        spec_wf_txs(old(state).transactions@, old(state).tx_id),
    ensures
        spec_wf_txs(final(state).transactions@, final(state).tx_id),
        final(state).tx_id == old(state).tx_id,
        txs_generic_complete(old(state).transactions@, final(state).transactions@, *r),
        same_maps(*old(state), *final(state)),
        same_file_state(*old(state), *final(state)),
        same_misc(*old(state), *final(state)),
{
    let events: Vec<SMBEvent> = Vec::new();
    proof {
        assert(events@.map_values(|e: SMBEvent| spec_smb_event_id(e)) =~= Seq::<u8>::empty());
    }
    state.response_tail(r, events, false);
}

/// Handle a read response record: run the generic completion pass, then
/// consume the pending (handle, offset) entry and feed the data to the
/// file transaction or the embedded RPC protocol; with no pending entry,
/// record the declared bytes to skip (saturating at zero) and move on.
pub fn smb1_read_response_record(state: &mut SMBState, r: &SmbRecord)
    requires
        spec_wf_txs(old(state).transactions@, old(state).tx_id),
        old(state).tx_id < u64::MAX,
    ensures
        spec_wf_txs(final(state).transactions@, final(state).tx_id),
        spec_read_response_post(*old(state), *final(state), *r),
{
    let ghost a = *old(state);
    smb1_read_response_record_generic(state, r);
    let ghost mid_txs = state.transactions@;
    if r.nt_status != SMB_NTSTATUS_SUCCESS {
        proof {
            assert(txs_generic_complete(a.transactions@, mid_txs, *r));
            assert(spec_read_response_rest(a, mid_txs, *state, *r));
        }
        return ;
    }
    let parsed = parse_smb_read_andx_response_record(r.data.as_slice());
    match parsed {
        Ok(rd) => {
            let present: u32 = if rd.data.len() > 0xffffffffusize {
                0xffffffff
            } else {
                rd.data.len() as u32
            };
            let left: u32 = if rd.len > present {
                rd.len - present
            } else {
                0
            };
            let fid_key = SMBCommonHdr::from1(r, SMBHDR_TYPE_OFFSET);
            let pending = hdr_map_remove(&mut state.ssn2vecoffset_map, fid_key);
            match pending {
                Some(o) => {
                    let offset = o.offset;
                    let file_fid = o.guid;
                    let tree_key = SMBCommonHdr::from1(r, SMBHDR_TYPE_SHARE);
                    let tree = hdr_map_get(&state.ssn2tree_map, tree_key);
                    let (is_pipe, share_name) = match tree {
                        Some(t) => (t.is_pipe, crate::clone_bytes(&t.name)),
                        None => (false, Vec::new()),
                    };
                    if !is_pipe {
                        let found = state.get_file_tx_by_guid(&file_fid, Direction::ToClient);
                        match found {
                            Some(jf) => {
                                let ghost pre = state.transactions@;
                                proof {
                                    lemma_find_file_tx_props(
                                        pre,
                                        file_fid@,
                                        Direction::ToClient,
                                        0,
                                    );
                                }
                                let mut tx = state.transactions.remove(jf);
                                file_tx_add_chunk(&mut tx, offset, rd.data);
                                state.transactions.insert(jf, tx);
                                proof {
                                    assert(state.transactions@.len() == pre.len());
                                    assert(forall|k: int|
                                        0 <= k < pre.len() && k != jf ==> state.transactions@[k]
                                            == pre[k]);
                                    lemma_wf_update(
                                        pre,
                                        state.tx_id,
                                        jf as int,
                                        state.transactions@[jf as int],
                                    );
                                    assert(state.transactions@ =~= pre.update(
                                        jf as int,
                                        state.transactions@[jf as int],
                                    ));
                                }
                            },
                            None => {
                                let file_name = {
                                    let n = guid_map_get(&state.guid2name_map, &file_fid);
                                    match n {
                                        Some(nm) => crate::clone_bytes(nm),
                                        None => Vec::new(),
                                    }
                                };
                                let mut chunks: Vec<FileChunk> = Vec::new();
                                chunks.push(FileChunk { offset, data: rd.data });
                                let ghost cnt0 = state.tx_id;
                                let mut tx = state.new_tx_raw();
                                tx.vercmd.set_smb1_cmd(SMB1_COMMAND_READ_ANDX);
                                tx.type_data = Some(
                                    SMBTransactionTypeData::FILE(
                                        SMBTransactionFile {
                                            direction: Direction::ToClient,
                                            guid: crate::clone_bytes(&file_fid),
                                            file_name,
                                            share_name,
                                            chunks,
                                        },
                                    ),
                                );
                                proof {
                                    lemma_wf_push(state.transactions@, cnt0, tx);
                                }
                                let ghost pre = state.transactions@;
                                state.transactions.push(tx);
                                proof {
                                    assert(state.transactions@.subrange(0, pre.len() as int)
                                        =~= pre);
                                }
                            },
                        }
                    } else {
                        let pure_fid = if file_fid.len() > 2 {
                            vstd::slice::slice_to_vec(
                                vstd::slice::slice_subrange(file_fid.as_slice(), 0, 2),
                            )
                        } else {
                            Vec::new()
                        };
                        let ghost pre = state.tunnel@;
                        state.tunnel.push(
                            TunnelRecord {
                                direction: Direction::ToClient,
                                vercmd: SMBVerCmdStat::new1(r.command),
                                hdr: SMBCommonHdr::from1(r, SMBHDR_TYPE_HEADER),
                                fid: pure_fid,
                                data: rd.data,
                            },
                        );
                        proof {
                            assert(state.tunnel@.subrange(0, pre.len() as int) =~= pre);
                        }
                    }
                    state.file_tc_left = left;
                    state.file_tc_guid = file_fid;
                },
                None => {
                    state.skip_tc = left;
                },
            }
        },
        Err(_) => {
            state.set_event(SMBEvent::MalformedData);
        },
    }
    proof {
        assert(txs_generic_complete(a.transactions@, mid_txs, *r));
        assert(spec_read_response_rest(a, mid_txs, *state, *r));
    }
}

/// Handle a transaction-command response record: consume the stored pipe
/// handle, park partial data on a buffer-overflow status, and otherwise
/// delegate pipe-service data to the embedded RPC protocol.
pub fn smb1_trans_response_record(state: &mut SMBState, r: &SmbRecord)
    requires
        spec_wf_txs(old(state).transactions@, old(state).tx_id),
    ensures
        spec_wf_txs(final(state).transactions@, final(state).tx_id),
        spec_trans_response_post(*old(state), *final(state), *r),
{
    let rd = match parse_smb_trans_response_record(r.data.as_slice()) {
        Ok(rd) => rd,
        Err(_) => {
            proof {
                assert(false);
            }
            return ;
        },
    };
    let guid_key = SMBCommonHdr::from1(r, SMBHDR_TYPE_GUID);
    let removed = hdr_map_remove(&mut state.ssn2vec_map, guid_key);
    let fid = match removed {
        Some(f) => f,
        None => Vec::new(),
    };
    if r.nt_status == SMB_NTSTATUS_BUFFER_OVERFLOW {
        let frag_key = SMBCommonHdr::from1(r, SMBHDR_TYPE_TRANS_FRAG);
        hdrguid_map_insert(
            &mut state.ssnguid2vec_map,
            SMBHashKeyHdrGuid::new(frag_key, fid),
            rd.data,
        );
        proof {
            let base_j = spec_hdrguid_find(
                old(state).ssnguid2vec_map@,
                frag_key,
                state.ssnguid2vec_map@.last().0.guid@,
                0,
            );
            let base = if base_j < old(state).ssnguid2vec_map@.len() {
                old(state).ssnguid2vec_map@.remove(base_j)
            } else {
                old(state).ssnguid2vec_map@
            };
            assert(state.ssnguid2vec_map@.subrange(0, base.len() as int) =~= base);
        }
    } else {
        let txn_key = SMBCommonHdr::from1(r, SMBHDR_TYPE_TXNAME);
        let name = hdr_map_remove(&mut state.ssn2vec_map, txn_key);
        let is_dcerpc = match &name {
            Some(s) => {
                let service = get_service_for_nameslice(s.as_slice());
                service.1
            },
            None => false,
        };
        if is_dcerpc {
            let ghost pre = state.tunnel@;
            state.tunnel.push(
                TunnelRecord {
                    direction: Direction::ToClient,
                    vercmd: SMBVerCmdStat::new1_with_ntstatus(r.command, r.nt_status),
                    hdr: SMBCommonHdr::from1(r, SMBHDR_TYPE_HEADER),
                    fid,
                    data: rd.data,
                },
            );
            proof {
                assert(state.tunnel@.subrange(0, pre.len() as int) =~= pre);
            }
        }
    }
}

/// The service name that marks a pipe share in a tree-connect response.
pub open spec fn spec_ipc_service() -> Seq<u8> {
    seq![73u8, 80u8, 67u8]
}

/// What a negotiation response does: the negotiation transaction is
/// completed with the response's status and the chosen dialect is
/// recorded — unless the dialect index falls outside the offered list,
/// which is malformed data on that transaction. With no negotiation
/// transaction, or a short payload, the response tail runs instead.
pub open spec fn spec_negotiate_response_post(a: SMBState, b: SMBState, r: SmbRecord) -> bool {
    &&& same_maps(a, b)
    &&& same_file_state(a, b)
    &&& b.state_events@ == a.state_events@
    &&& b.tunnel@ == a.tunnel@
    &&& b.tx_id == a.tx_id
    &&& if r.data@.len() >= 2 {
        let idx = le16_at(r.data@, 0);
        let j = spec_find_negotiate_tx(a.transactions@, 1, 0);
        if j < a.transactions@.len() {
            let t = a.transactions@[j];
            let got = t.type_data matches Some(SMBTransactionTypeData::NEGOTIATE(n)) && (
            idx as int) < n.dialects@.len();
            &&& b.transactions@.len() == a.transactions@.len()
            &&& (forall|k: int|
                0 <= k < a.transactions@.len() && k != j ==> b.transactions@[k]
                    == a.transactions@[k])
            &&& ({
                let t2 = b.transactions@[j];
                &&& t2.id == t.id
                &&& t2.hdr == t.hdr
                &&& t2.de_state == t.de_state
                &&& t2.type_data == t.type_data
                &&& t2.request_done == t.request_done
                &&& t2.response_done == true
                &&& t2.vercmd == (SMBVerCmdStat {
                    nt_status: r.nt_status,
                    is_dos_error: r.is_dos_error,
                    ..t.vercmd
                })
                &&& t2.events@ == if got {
                    t.events@
                } else {
                    t.events@.push(spec_smb_event_id(SMBEvent::MalformedData))
                }
            })
            &&& match t.type_data {
                Some(SMBTransactionTypeData::NEGOTIATE(n)) => {
                    if (idx as int) < n.dialects@.len() {
                        b.dialect_vec matches Some(v) && v@ == n.dialects@[idx as int]@
                    } else {
                        b.dialect_vec == a.dialect_vec
                    }
                },
                _ => b.dialect_vec == a.dialect_vec,
            }
        } else {
            &&& txs_response_tail(a.transactions@, b.transactions@, r, Seq::empty(), false)
            &&& b.dialect_vec == a.dialect_vec
        }
    } else {
        &&& txs_response_tail(a.transactions@, b.transactions@, r, malformed_events(), false)
        &&& b.dialect_vec == a.dialect_vec
    }
}

/// What a tree-connect response does: a failed status completes the
/// pending tree-connect transaction with the tree identity the server
/// named; a successful one additionally marks whether the share is the
/// pipe service, re-keys the transaction to the response's header key,
/// and records the granted share in the tree map.
pub open spec fn spec_treeconnect_response_post(a: SMBState, b: SMBState, r: SmbRecord) -> bool {
    &&& same_file_state(a, b)
    &&& b.state_events@ == a.state_events@
    &&& b.tunnel@ == a.tunnel@
    &&& b.dialect_vec == a.dialect_vec
    &&& b.tx_id == a.tx_id
    &&& b.ssn2vec_map@ == a.ssn2vec_map@
    &&& b.ssn2vecoffset_map@ == a.ssn2vecoffset_map@
    &&& b.ssn2maxsize_map@ == a.ssn2maxsize_map@
    &&& b.guid2name_map@ == a.guid2name_map@
    &&& b.ssnguid2vec_map@ == a.ssnguid2vec_map@
    &&& ({
        let name_key = spec_hdr_from1(SMBHDR_TYPE_TREE, r.ssn_id, r.tree_id, r.multiplex_id);
        let j = spec_find_treeconnect_tx(a.transactions@, name_key, 0);
        if r.nt_status != SMB_NTSTATUS_SUCCESS {
            &&& b.ssn2tree_map@ == a.ssn2tree_map@
            &&& if j < a.transactions@.len() {
                let t = a.transactions@[j];
                &&& b.transactions@.len() == a.transactions@.len()
                &&& (forall|k: int|
                    0 <= k < a.transactions@.len() && k != j ==> b.transactions@[k]
                        == a.transactions@[k])
                &&& ({
                    let t2 = b.transactions@[j];
                    &&& t2.id == t.id
                    &&& t2.hdr == t.hdr
                    &&& t2.de_state == t.de_state
                    &&& t2.request_done == t.request_done
                    &&& t2.response_done == true
                    &&& t2.events@ == t.events@
                    &&& t2.vercmd == (SMBVerCmdStat {
                        nt_status: r.nt_status,
                        is_dos_error: r.is_dos_error,
                        ..t.vercmd
                    })
                    &&& match (t.type_data, t2.type_data) {
                        (
                            Some(SMBTransactionTypeData::TREECONNECT(tc)),
                            Some(SMBTransactionTypeData::TREECONNECT(tc2)),
                        ) => {
                            &&& tc2.share_name@ == tc.share_name@
                            &&& tc2.is_pipe == tc.is_pipe
                            &&& tc2.tree_id == r.tree_id as u32
                        },
                        _ => false,
                    }
                })
            } else {
                b.transactions@ == a.transactions@
            }
        } else {
            let is_pipe = r.data@ == spec_ipc_service();
            if j < a.transactions@.len() {
                let t = a.transactions@[j];
                &&& b.transactions@.len() == a.transactions@.len()
                &&& (forall|k: int|
                    0 <= k < a.transactions@.len() && k != j ==> b.transactions@[k]
                        == a.transactions@[k])
                &&& ({
                    let t2 = b.transactions@[j];
                    &&& t2.id == t.id
                    &&& t2.hdr == spec_hdr_from1(
                        SMBHDR_TYPE_HEADER,
                        r.ssn_id,
                        r.tree_id,
                        r.multiplex_id,
                    )
                    &&& t2.de_state == t.de_state
                    &&& t2.request_done == t.request_done
                    &&& t2.response_done == true
                    &&& t2.events@ == t.events@
                    &&& t2.vercmd == (SMBVerCmdStat {
                        nt_status: r.nt_status,
                        is_dos_error: r.is_dos_error,
                        ..t.vercmd
                    })
                    &&& match (t.type_data, t2.type_data) {
                        (
                            Some(SMBTransactionTypeData::TREECONNECT(tc)),
                            Some(SMBTransactionTypeData::TREECONNECT(tc2)),
                        ) => {
                            &&& tc2.share_name@ == tc.share_name@
                            &&& tc2.is_pipe == is_pipe
                            &&& tc2.tree_id == r.tree_id as u32
                        },
                        _ => false,
                    }
                })
                &&& ({
                    let share_key = spec_hdr_from1(
                        SMBHDR_TYPE_SHARE,
                        r.ssn_id,
                        r.tree_id,
                        r.multiplex_id,
                    );
                    &&& hdr_map_inserted(a.ssn2tree_map@, b.ssn2tree_map@, share_key)
                    &&& match (t.type_data, b.ssn2tree_map@.last().1) {
                        (Some(SMBTransactionTypeData::TREECONNECT(tc)), tree) => {
                            tree.name@ == tc.share_name@ && tree.is_pipe == is_pipe
                        },
                        _ => false,
                    }
                })
            } else {
                &&& b.transactions@ == a.transactions@
                &&& b.ssn2tree_map@ == a.ssn2tree_map@
            }
        }
    })
}

/// What a create response does: the file name stored by the request is
/// consumed and, with its NUL padding stripped, recorded under the
/// session-qualified handle the server assigned; then the response tail
/// completes the request's transaction. A short payload leaves the
/// malformed-data event on the completed transaction instead.
pub open spec fn spec_create_response_post(a: SMBState, b: SMBState, r: SmbRecord) -> bool {
    &&& same_file_state(a, b)
    &&& b.state_events@ == a.state_events@
    &&& b.tunnel@ == a.tunnel@
    &&& b.dialect_vec == a.dialect_vec
    &&& b.tx_id == a.tx_id
    &&& b.ssn2vecoffset_map@ == a.ssn2vecoffset_map@
    &&& b.ssn2tree_map@ == a.ssn2tree_map@
    &&& b.ssn2maxsize_map@ == a.ssn2maxsize_map@
    &&& b.ssnguid2vec_map@ == a.ssnguid2vec_map@
    &&& if r.data@.len() >= 2 {
        let guid_key = spec_hdr_from1(SMBHDR_TYPE_FILENAME, r.ssn_id, r.tree_id, r.multiplex_id);
        let jf = spec_hdr_find(a.ssn2vec_map@, guid_key, 0);
        &&& txs_response_tail(a.transactions@, b.transactions@, r, Seq::empty(), false)
        &&& if jf < a.ssn2vec_map@.len() {
            let p = a.ssn2vec_map@[jf].1@;
            let fid = spec_fid_key(r.data@.subrange(0, 2), r.ssn_id);
            let jg = spec_guid_find(a.guid2name_map@, fid, 0);
            let base = if jg < a.guid2name_map@.len() {
                a.guid2name_map@.remove(jg)
            } else {
                a.guid2name_map@
            };
            &&& b.ssn2vec_map@ == a.ssn2vec_map@.remove(jf)
            &&& b.guid2name_map@.len() == base.len() + 1
            &&& b.guid2name_map@.subrange(0, base.len() as int) == base
            &&& b.guid2name_map@.last().0@ == fid
            &&& b.guid2name_map@.last().1@ == spec_strip_nul(p)
        } else {
            &&& b.ssn2vec_map@ == a.ssn2vec_map@
            &&& b.guid2name_map@ == a.guid2name_map@
        }
    } else {
        &&& b.ssn2vec_map@ == a.ssn2vec_map@
        &&& b.guid2name_map@ == a.guid2name_map@
        &&& txs_response_tail(a.transactions@, b.transactions@, r, malformed_events(), false)
    }
}

/// What one response record does to the state, by command.
pub open spec fn spec_smb1_response_post(a: SMBState, b: SMBState, r: SmbRecord) -> bool {
    if r.command == SMB1_COMMAND_READ_ANDX {
        spec_read_response_post(a, b, r)
    } else if r.command == SMB1_COMMAND_NEGOTIATE_PROTOCOL {
        spec_negotiate_response_post(a, b, r)
    } else if r.command == SMB1_COMMAND_TREE_CONNECT_ANDX {
        spec_treeconnect_response_post(a, b, r)
    } else if r.command == SMB1_COMMAND_TREE_DISCONNECT {
        &&& same_file_state(a, b)
        &&& b.state_events@ == a.state_events@
        &&& b.tunnel@ == a.tunnel@
        &&& b.dialect_vec == a.dialect_vec
        &&& b.tx_id == a.tx_id
        &&& b.ssn2vec_map@ == a.ssn2vec_map@
        &&& b.ssn2vecoffset_map@ == a.ssn2vecoffset_map@
        &&& b.ssn2maxsize_map@ == a.ssn2maxsize_map@
        &&& b.guid2name_map@ == a.guid2name_map@
        &&& b.ssnguid2vec_map@ == a.ssnguid2vec_map@
        &&& ({
            let key = spec_hdr_from1(SMBHDR_TYPE_SHARE, r.ssn_id, r.tree_id, r.multiplex_id);
            let j = spec_hdr_find(a.ssn2tree_map@, key, 0);
            if j < a.ssn2tree_map@.len() {
                b.ssn2tree_map@ == a.ssn2tree_map@.remove(j)
            } else {
                b.ssn2tree_map@ == a.ssn2tree_map@
            }
        })
        &&& txs_response_tail(a.transactions@, b.transactions@, r, Seq::empty(), false)
    } else if r.command == SMB1_COMMAND_NT_CREATE_ANDX {
        spec_create_response_post(a, b, r)
    } else if r.command == SMB1_COMMAND_TRANS {
        spec_trans_response_post(a, b, r)
    } else if r.command == SMB1_COMMAND_SESSION_SETUP_ANDX || r.command
        == SMB1_COMMAND_LOGOFF_ANDX {
        &&& same_maps(a, b)
        &&& same_file_state(a, b)
        &&& same_misc(a, b)
        &&& b.tx_id == a.tx_id
        &&& txs_response_tail(a.transactions@, b.transactions@, r, Seq::empty(), true)
    } else {
        &&& same_maps(a, b)
        &&& same_file_state(a, b)
        &&& same_misc(a, b)
        &&& b.tx_id == a.tx_id
        &&& txs_response_tail(a.transactions@, b.transactions@, r, Seq::empty(), false)
    }
}

/// Dispatch one response record to its command handler, completing the
/// matching still-open transaction. An unmatched response completes
/// nothing; a decode failure attaches the malformed-data anomaly and the
/// session continues.
pub fn smb1_response_record(state: &mut SMBState, r: &SmbRecord) -> (res: u32)
    requires
        spec_wf_txs(old(state).transactions@, old(state).tx_id),
        old(state).tx_id < u64::MAX,
    ensures
        res == 0,
        spec_wf_txs(final(state).transactions@, final(state).tx_id),
        spec_smb1_response_post(*old(state), *final(state), *r),
{
    let ghost a = *old(state);
    if r.command == SMB1_COMMAND_READ_ANDX {
        smb1_read_response_record(state, r);
    } else if r.command == SMB1_COMMAND_NEGOTIATE_PROTOCOL {
        let parsed = parse_smb1_negotiate_protocol_response_record(r.data.as_slice());
        match parsed {
            Ok(pr) => {
                let found = state.get_negotiate_tx(1);
                match found {
                    Some(j) => {
                        let ghost pre = state.transactions@;
                        proof {
                            lemma_find_negotiate_tx_props(pre, 1, 0);
                        }
                        let mut tx = state.transactions.remove(j);
                        tx.set_status(r.nt_status, r.is_dos_error);
                        tx.response_done = true;
                        let dialect: Option<Vec<u8>> = match &tx.type_data {
                            Some(SMBTransactionTypeData::NEGOTIATE(x)) => {
                                if (pr.dialect_idx as usize) < x.dialects.len() {
                                    Some(crate::clone_bytes(&x.dialects[pr.dialect_idx as usize]))
                                } else {
                                    None
                                }
                            },
                            _ => None,
                        };
                        match dialect {
                            Some(d) => {
                                state.dialect_vec = Some(d);
                            },
                            None => {
                                tx.set_event(SMBEvent::MalformedData);
                            },
                        }
                        state.transactions.insert(j, tx);
                        proof {
                            assert(state.transactions@.len() == pre.len());
                            assert(forall|k: int|
                                0 <= k < pre.len() && k != j ==> state.transactions@[k] == pre[k]);
                            lemma_wf_update(
                                pre,
                                state.tx_id,
                                j as int,
                                state.transactions@[j as int],
                            );
                            assert(state.transactions@ =~= pre.update(
                                j as int,
                                state.transactions@[j as int],
                            ));
                        }
                    },
                    None => {
                        let events: Vec<SMBEvent> = Vec::new();
                        proof {
                            assert(events@.map_values(|e: SMBEvent| spec_smb_event_id(e))
                                =~= Seq::<u8>::empty());
                        }
                        state.response_tail(r, events, false);
                    },
                }
            },
            Err(_) => {
                let mut events: Vec<SMBEvent> = Vec::new();
                events.push(SMBEvent::MalformedData);
                proof {
                    assert(events@.map_values(|e: SMBEvent| spec_smb_event_id(e))
                        =~= malformed_events());
                }
                state.response_tail(r, events, false);
            },
        }
    } else if r.command == SMB1_COMMAND_TREE_CONNECT_ANDX {
        let name_key = SMBCommonHdr::from1(r, SMBHDR_TYPE_TREE);
        let found = state.get_treeconnect_tx(&name_key);
        if r.nt_status != SMB_NTSTATUS_SUCCESS {
            match found {
                Some(j) => {
                    let ghost pre = state.transactions@;
                    proof {
                        lemma_find_treeconnect_tx_props(pre, name_key, 0);
                    }
                    let mut tx = state.transactions.remove(j);
                    match &mut tx.type_data {
                        Some(SMBTransactionTypeData::TREECONNECT(tdn)) => {
                            tdn.tree_id = r.tree_id as u32;
                        },
                        _ => {
                            proof {
                                assert(false);
                            }
                        },
                    }
                    tx.set_status(r.nt_status, r.is_dos_error);
                    tx.response_done = true;
                    state.transactions.insert(j, tx);
                    proof {
                        assert(state.transactions@.len() == pre.len());
                        assert(forall|k: int|
                            0 <= k < pre.len() && k != j ==> state.transactions@[k] == pre[k]);
                        lemma_wf_update(
                            pre,
                            state.tx_id,
                            j as int,
                            state.transactions@[j as int],
                        );
                        assert(state.transactions@ =~= pre.update(
                            j as int,
                            state.transactions@[j as int],
                        ));
                    }
                },
                None => {},
            }
            return 0;
        }
        let record = match parse_smb_connect_tree_andx_response_record(r.data.as_slice()) {
            Ok(tr) => tr,
            Err(_) => {
                proof {
                    assert(false);
                }
                return 0;
            },
        };
        let ipc = {
            let mut v: Vec<u8> = Vec::new();
            v.push(73);
            v.push(80);
            v.push(67);
            assert(v@ =~= spec_ipc_service());
            v
        };
        let is_pipe = crate::bytes_eq(&record.service, &ipc);
        match found {
            Some(j) => {
                let ghost pre = state.transactions@;
                proof {
                    lemma_find_treeconnect_tx_props(pre, name_key, 0);
                }
                let mut tx = state.transactions.remove(j);
                let mut share_name: Vec<u8> = Vec::new();
                match &mut tx.type_data {
                    Some(SMBTransactionTypeData::TREECONNECT(tdn)) => {
                        tdn.is_pipe = is_pipe;
                        tdn.tree_id = r.tree_id as u32;
                        share_name = crate::clone_bytes(&tdn.share_name);
                    },
                    _ => {
                        proof {
                            assert(false);
                        }
                    },
                }
                tx.hdr = SMBCommonHdr::from1(r, SMBHDR_TYPE_HEADER);
                tx.set_status(r.nt_status, r.is_dos_error);
                tx.response_done = true;
                state.transactions.insert(j, tx);
                let tree = SMBTree::new(share_name, is_pipe);
                let tree_key = SMBCommonHdr::from1(r, SMBHDR_TYPE_SHARE);
                proof {
                    lemma_hdr_insert_described(state.ssn2tree_map@, tree_key, tree);
                }
                hdr_map_insert(&mut state.ssn2tree_map, tree_key, tree);
                proof {
                    assert(state.transactions@.len() == pre.len());
                    assert(forall|k: int|
                        0 <= k < pre.len() && k != j ==> state.transactions@[k] == pre[k]);
                    lemma_wf_update(pre, state.tx_id, j as int, state.transactions@[j as int]);
                    assert(state.transactions@ =~= pre.update(
                        j as int,
                        state.transactions@[j as int],
                    ));
                }
            },
            None => {},
        }
    } else if r.command == SMB1_COMMAND_TREE_DISCONNECT {
        let tree_key = SMBCommonHdr::from1(r, SMBHDR_TYPE_SHARE);
        let _removed = hdr_map_remove(&mut state.ssn2tree_map, tree_key);
        let events: Vec<SMBEvent> = Vec::new();
        proof {
            assert(events@.map_values(|e: SMBEvent| spec_smb_event_id(e)) =~= Seq::<u8>::empty());
        }
        state.response_tail(r, events, false);
    } else if r.command == SMB1_COMMAND_NT_CREATE_ANDX {
        let parsed = parse_smb_create_andx_response_record(r.data.as_slice());
        match parsed {
            Ok(cr) => {
                let guid_key = SMBCommonHdr::from1(r, SMBHDR_TYPE_FILENAME);
                let removed = hdr_map_remove(&mut state.ssn2vec_map, guid_key);
                match removed {
                    Some(p) => {
                        let stripped = strip_nul_bytes(p.as_slice());
                        let fid = fid_with_ssn(&cr.fid, r.ssn_id);
                        proof {
                            lemma_guid_insert_described(state.guid2name_map@, fid, stripped);
                        }
                        guid_map_insert(&mut state.guid2name_map, fid, stripped);
                    },
                    None => {},
                }
                let events: Vec<SMBEvent> = Vec::new();
                proof {
                    assert(events@.map_values(|e: SMBEvent| spec_smb_event_id(e))
                        =~= Seq::<u8>::empty());
                }
                state.response_tail(r, events, false);
            },
            Err(_) => {
                let mut events: Vec<SMBEvent> = Vec::new();
                events.push(SMBEvent::MalformedData);
                proof {
                    assert(events@.map_values(|e: SMBEvent| spec_smb_event_id(e))
                        =~= malformed_events());
                }
                state.response_tail(r, events, false);
            },
        }
    } else if r.command == SMB1_COMMAND_TRANS {
        smb1_trans_response_record(state, r);
    } else if r.command == SMB1_COMMAND_SESSION_SETUP_ANDX || r.command
        == SMB1_COMMAND_LOGOFF_ANDX {
        let events: Vec<SMBEvent> = Vec::new();
        proof {
            assert(events@.map_values(|e: SMBEvent| spec_smb_event_id(e)) =~= Seq::<u8>::empty());
        }
        state.response_tail(r, events, true);
    } else {
        let events: Vec<SMBEvent> = Vec::new();
        proof {
            assert(events@.map_values(|e: SMBEvent| spec_smb_event_id(e)) =~= Seq::<u8>::empty());
        }
        state.response_tail(r, events, false);
    }
    0
}

/// The bytes with NUL padding stripped.
fn strip_nul_bytes(s: &[u8]) -> (r: Vec<u8>)
    ensures
        r@ == spec_strip_nul(s@),
{
    let mut out: Vec<u8> = Vec::new();
    let mut i: usize = 0;
    while i < s.len()
        invariant
            0 <= i <= s@.len(),
            out@ == spec_strip_nul(s@.subrange(0, i as int)),
        decreases s@.len() - i,
    {
        let b = s[i];
        proof {
            assert(s@.subrange(0, i + 1 as int).drop_last() =~= s@.subrange(0, i as int));
        }
        if b != 0 {
            out.push(b);
            assert(out@ =~= spec_strip_nul(s@.subrange(0, i + 1 as int)));
        }
        i = i + 1;
    }
    assert(s@.subrange(0, i as int) =~= s@);
    out
}

} // verus!
