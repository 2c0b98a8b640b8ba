use dpi_core::bittorrent::{probe, BitTorrentDHTState};

fn sample_packet() -> Vec<u8> {
    let mut packet = b"d1:ad2:id20:".to_vec();
    packet.extend_from_slice(&[9u8; 20]);
    packet.extend_from_slice(b"e1:q4:ping1:t2:aa1:y1:qe");
    packet
}

#[test]
fn test_probe_prefix() {
    assert!(probe(&sample_packet()));
    assert!(!probe(b"d1:bd2:id20:aaaaaaaaaaaaaaaaaaaa"));
    assert!(!probe(b"d1:ad2:id20"));
}

#[test]
fn test_parse_good_packet() {
    let mut state = BitTorrentDHTState::new();
    assert!(state.parse(&sample_packet()));
    assert_eq!(1, state.get_tx_count());
    let tx = state.get_tx(0).expect("first transaction");
    assert_eq!(vec![9u8; 20], tx.request.as_ref().unwrap().node_id);
    assert_eq!(1, tx.get_alstate_progress());
    assert_eq!(0, tx.events.len());
}

#[test]
fn test_parse_malformed_packet() {
    let mut state = BitTorrentDHTState::new();
    assert!(!state.parse(b"garbage"));
    let tx = state.get_tx(0).expect("transaction exists even for bad packets");
    assert!(tx.request.is_none());
    assert_eq!(0, tx.get_alstate_progress());
    assert_eq!(vec![0u8], tx.events);
}

#[test]
fn test_tx_ids_not_reused_after_free() {
    let mut state = BitTorrentDHTState::new();
    assert!(state.parse(&sample_packet()));
    assert!(state.parse(&sample_packet()));
    state.free_tx(0);
    assert!(state.get_tx(0).is_none());
    assert!(state.parse(&sample_packet()));
    assert_eq!(3, state.get_tx_count());
    assert!(state.get_tx(1).is_some());
    assert!(state.get_tx(2).is_some());
}

#[test]
fn test_iterator_agrees_with_get_tx() {
    let mut state = BitTorrentDHTState::new();
    for _ in 0..3 {
        assert!(state.parse(&sample_packet()));
    }
    let mut cursor: u64 = 0;
    let mut seen: Vec<u64> = Vec::new();
    loop {
        let (id, has_more) = match state.tx_iterator(0, &mut cursor) {
            Some((iter_tx, id, has_more)) => {
                let got_tx = state.get_tx(id).expect("iterator id resolves");
                assert_eq!(iter_tx.tx_id, got_tx.tx_id);
                assert_eq!(iter_tx.events, got_tx.events);
                (id, has_more)
            }
            None => break,
        };
        seen.push(id);
        cursor += 1;
        if !has_more {
            break;
        }
    }
    assert_eq!(vec![0, 1, 2], seen);
}
