use dpi_core::smb1::{
    get_service_for_nameslice, is_valid_utf8, smb1_command_string, smb1_request_record,
    smb1_response_record, SMBState, SMBTransactionTypeData, SmbRecord,
    SMB1_COMMAND_NEGOTIATE_PROTOCOL, SMB1_COMMAND_READ_ANDX, SMB1_COMMAND_TRANS,
    SMB1_COMMAND_WRITE_ANDX,
};
use dpi_core::Direction;

fn record(command: u8, nt_status: u32, data: Vec<u8>) -> SmbRecord {
    SmbRecord {
        command,
        ssn_id: 0x11223344,
        tree_id: 5,
        multiplex_id: 9,
        user_id: 1,
        nt_status,
        is_dos_error: false,
        data,
    }
}

fn write_payload(fid: [u8; 2], offset: u64, len: u32, data: &[u8]) -> Vec<u8> {
    let mut v = Vec::new();
    v.extend_from_slice(&fid);
    v.extend_from_slice(&offset.to_le_bytes());
    v.extend_from_slice(&len.to_le_bytes());
    v.extend_from_slice(data);
    v
}

fn read_response_payload(len: u32, data: &[u8]) -> Vec<u8> {
    let mut v = Vec::new();
    v.extend_from_slice(&len.to_le_bytes());
    v.extend_from_slice(data);
    v
}

#[test]
fn test_command_string_table() {
    assert_eq!(
        "SMB1_COMMAND_NEGOTIATE_PROTOCOL",
        smb1_command_string(SMB1_COMMAND_NEGOTIATE_PROTOCOL)
    );
    assert_eq!("SMB1_COMMAND_READ_ANDX", smb1_command_string(0x2e));
    assert_eq!("21", smb1_command_string(21));
    assert_eq!("255", smb1_command_string(255));
}

#[test]
fn test_service_for_nameslice() {
    assert_eq!(("LANMAN", false), get_service_for_nameslice(b"\\PIPE\\LANMAN"));
    assert_eq!(("PIPE", true), get_service_for_nameslice(b"\\PIPE\\\0\0"));
    assert_eq!(("UNKNOWN", false), get_service_for_nameslice(b"\\SOMETHING"));
}

#[test]
fn test_write_request_opens_file_tx() {
    let mut state = SMBState::new();
    let r = record(
        SMB1_COMMAND_WRITE_ANDX,
        0,
        write_payload([0xaa, 0xbb], 64, 10, &[1, 2, 3, 4]),
    );
    assert_eq!(0, smb1_request_record(&mut state, &r));
    assert_eq!(1, state.transactions.len());
    match &state.transactions[0].type_data {
        Some(SMBTransactionTypeData::FILE(f)) => {
            assert_eq!(Direction::ToServer, f.direction);
            assert_eq!(1, f.chunks.len());
            assert_eq!(64, f.chunks[0].offset);
            assert_eq!(vec![1, 2, 3, 4], f.chunks[0].data);
        }
        other => panic!("expected a file transaction, got {:?}", other),
    }
    // 10 bytes declared, 4 present: 6 still owed.
    assert_eq!(6, state.file_ts_left);

    // a second write to the same handle lands in the same transaction
    let r2 = record(
        SMB1_COMMAND_WRITE_ANDX,
        0,
        write_payload([0xaa, 0xbb], 68, 2, &[5, 6]),
    );
    assert_eq!(0, smb1_request_record(&mut state, &r2));
    assert_eq!(1, state.transactions.len());
    match &state.transactions[0].type_data {
        Some(SMBTransactionTypeData::FILE(f)) => {
            assert_eq!(2, f.chunks.len());
            assert_eq!(68, f.chunks[1].offset);
        }
        other => panic!("expected a file transaction, got {:?}", other),
    }
}

#[test]
fn test_unmatched_read_response_records_skip() {
    let mut state = SMBState::new();
    // a read response with no pending request: declared 100 bytes, 40 present
    let r = record(
        SMB1_COMMAND_READ_ANDX,
        0,
        read_response_payload(100, &[7u8; 40]),
    );
    assert_eq!(0, smb1_response_record(&mut state, &r));
    assert_eq!(60, state.skip_tc);
    assert_eq!(0, state.transactions.len());
    assert_eq!(0, state.tunnel.len());
}

#[test]
fn test_read_response_skip_saturates() {
    let mut state = SMBState::new();
    // adversarial declared length smaller than the data present
    let r = record(
        SMB1_COMMAND_READ_ANDX,
        0,
        read_response_payload(3, &[7u8; 40]),
    );
    assert_eq!(0, smb1_response_record(&mut state, &r));
    assert_eq!(0, state.skip_tc);
}

#[test]
fn test_read_request_then_response_reassembles() {
    let mut state = SMBState::new();
    // read request stores the pending (handle, offset) entry
    let mut req_payload = vec![0xcc, 0xdd];
    req_payload.extend_from_slice(&1024u64.to_le_bytes());
    let req = record(SMB1_COMMAND_READ_ANDX, 0, req_payload);
    assert_eq!(0, smb1_request_record(&mut state, &req));
    assert_eq!(1, state.ssn2vecoffset_map.len());

    // the response consumes it and opens a to-client file transaction
    let resp = record(
        SMB1_COMMAND_READ_ANDX,
        0,
        read_response_payload(8, &[1, 2, 3, 4, 5, 6, 7, 8]),
    );
    assert_eq!(0, smb1_response_record(&mut state, &resp));
    assert_eq!(0, state.ssn2vecoffset_map.len());
    let file_tx = state
        .transactions
        .iter()
        .find(|t| matches!(t.type_data, Some(SMBTransactionTypeData::FILE(_))))
        .expect("file transaction");
    match &file_tx.type_data {
        Some(SMBTransactionTypeData::FILE(f)) => {
            assert_eq!(Direction::ToClient, f.direction);
            assert_eq!(1024, f.chunks[0].offset);
            assert_eq!(8, f.chunks[0].data.len());
        }
        _ => unreachable!(),
    }
    // the generic transaction opened by the request is completed
    let generic_tx = &state.transactions[0];
    assert!(generic_tx.request_done);
    assert!(generic_tx.response_done);
}

#[test]
fn test_trans_request_tunnels_pipe_traffic() {
    let mut state = SMBState::new();
    // payload: max_data_cnt, fid, name "\PIPE\", then the tunneled bytes
    let mut payload = Vec::new();
    payload.extend_from_slice(&4096u16.to_le_bytes());
    payload.push(2);
    payload.extend_from_slice(&[0x0a, 0x0b]);
    let name = b"\\PIPE\\";
    payload.push(name.len() as u8);
    payload.extend_from_slice(name);
    payload.extend_from_slice(&[0xde, 0xad, 0xbe, 0xef]);
    let r = record(SMB1_COMMAND_TRANS, 0, payload);
    assert_eq!(0, smb1_request_record(&mut state, &r));
    assert_eq!(1, state.tunnel.len());
    assert_eq!(Direction::ToServer, state.tunnel[0].direction);
    assert_eq!(vec![0xde, 0xad, 0xbe, 0xef], state.tunnel[0].data);
    assert_eq!(1, state.ssn2maxsize_map.len());
    // both the pipe handle and the transaction name were stored
    assert_eq!(2, state.ssn2vec_map.len());
}

#[test]
fn test_negotiate_request_and_duplicate() {
    let mut state = SMBState::new();
    // two dialect entries, each with a one-byte type marker
    let mut payload = Vec::new();
    payload.push(4);
    payload.extend_from_slice(b"\x02abc");
    payload.push(5);
    payload.extend_from_slice(b"\x02defg");
    let r = record(SMB1_COMMAND_NEGOTIATE_PROTOCOL, 0, payload.clone());
    assert_eq!(0, smb1_request_record(&mut state, &r));
    assert_eq!(1, state.transactions.len());
    match &state.transactions[0].type_data {
        Some(SMBTransactionTypeData::NEGOTIATE(n)) => {
            assert_eq!(2, n.dialects.len());
            assert_eq!(b"abc".to_vec(), n.dialects[0]);
            assert_eq!(b"defg".to_vec(), n.dialects[1]);
        }
        other => panic!("expected a negotiate transaction, got {:?}", other),
    }
    assert!(state.transactions[0].request_done);

    // a second negotiation is flagged as a duplicate
    let r2 = record(SMB1_COMMAND_NEGOTIATE_PROTOCOL, 0, payload);
    assert_eq!(0, smb1_request_record(&mut state, &r2));
    assert_eq!(1, state.transactions.len());
    assert_eq!(vec![1u8], state.transactions[0].events);

    // the response picks the second dialect
    let resp = record(SMB1_COMMAND_NEGOTIATE_PROTOCOL, 0, 1u16.to_le_bytes().to_vec());
    assert_eq!(0, smb1_response_record(&mut state, &resp));
    assert!(state.transactions[0].response_done);
    assert_eq!(Some(b"defg".to_vec()), state.dialect_vec);
}

#[test]
fn test_generic_request_and_response_lifecycle() {
    let mut state = SMBState::new();
    let r = record(0x2b, 0, Vec::new());
    assert_eq!(0, smb1_request_record(&mut state, &r));
    assert_eq!(1, state.transactions.len());
    assert!(!state.transactions[0].request_done);
    assert!(!state.transactions[0].response_done);

    let resp = record(0x2b, 0, Vec::new());
    assert_eq!(0, smb1_response_record(&mut state, &resp));
    assert!(state.transactions[0].request_done);
    assert!(state.transactions[0].response_done);
    assert_eq!(1, state.get_tx_count());
}

#[test]
fn test_service_name_invalid_utf8_is_malformed() {
    assert_eq!(("MALFORMED", false), get_service_for_nameslice(&[0xff]));
    assert_eq!(
        ("MALFORMED", false),
        get_service_for_nameslice(&[0xed, 0xa0, 0x80, 0x00])
    );
    // a lone continuation byte and a truncated multi-byte sequence
    assert_eq!(("MALFORMED", false), get_service_for_nameslice(&[0x80]));
    assert_eq!(("MALFORMED", false), get_service_for_nameslice(&[0xe2, 0x82]));
    // valid multi-byte text is unknown, not malformed
    assert_eq!(
        ("UNKNOWN", false),
        get_service_for_nameslice("caf\u{e9}".as_bytes())
    );
}

#[test]
fn test_utf8_validity_boundaries() {
    assert!(is_valid_utf8(b""));
    assert!(is_valid_utf8(b"plain ascii"));
    // two-, three- and four-byte scalars
    assert!(is_valid_utf8(&[0xc3, 0xa9]));
    assert!(is_valid_utf8(&[0xe2, 0x82, 0xac]));
    assert!(is_valid_utf8(&[0xf0, 0x90, 0x8d, 0x88]));
    // the largest scalar, and the first value past it
    assert!(is_valid_utf8(&[0xf4, 0x8f, 0xbf, 0xbf]));
    assert!(!is_valid_utf8(&[0xf4, 0x90, 0x80, 0x80]));
    // overlong encodings
    assert!(!is_valid_utf8(&[0xc0, 0x80]));
    assert!(!is_valid_utf8(&[0xc1, 0xbf]));
    assert!(!is_valid_utf8(&[0xe0, 0x9f, 0xbf]));
    assert!(!is_valid_utf8(&[0xf0, 0x8f, 0xbf, 0xbf]));
    // the surrogate range, and its neighbours
    assert!(is_valid_utf8(&[0xed, 0x9f, 0xbf]));
    assert!(!is_valid_utf8(&[0xed, 0xa0, 0x80]));
    assert!(!is_valid_utf8(&[0xed, 0xbf, 0xbf]));
    assert!(is_valid_utf8(&[0xee, 0x80, 0x80]));
    // truncated sequences and stray continuation bytes
    assert!(!is_valid_utf8(&[0xe2, 0x82]));
    assert!(!is_valid_utf8(&[0x80]));
    assert!(!is_valid_utf8(&[0xf8, 0x80, 0x80, 0x80, 0x80]));
}
