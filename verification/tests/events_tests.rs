use dpi_core::bittorrent::{event_info_by_id, event_info_by_name, BitTorrentDHTEvent};
use dpi_core::events::transform_name;

#[test]
fn test_transform_name() {
    assert_eq!(transform_name("SomeEvent"), "some_event".to_string());
    assert_eq!(
        transform_name("UnassignedMsgType"),
        "unassigned_msg_type".to_string()
    );
}

#[test]
fn test_transform_name_plain() {
    assert_eq!(transform_name("already_snake"), "already_snake".to_string());
    assert_eq!(transform_name(""), "".to_string());
    assert_eq!(transform_name("A"), "a".to_string());
}

#[test]
fn test_event_info_round_trip() {
    let (name, _category) = event_info_by_id(0).expect("id 0 is assigned");
    let (id, _category2) = event_info_by_name(name).expect("name resolves back");
    assert_eq!(0, id);
    assert!(event_info_by_id(1).is_none());
    assert!(event_info_by_name("no_such_event").is_none());
}

#[test]
fn test_event_from_str_case_insensitive() {
    assert_eq!(
        BitTorrentDHTEvent::from_str("malformed_packet"),
        Ok(BitTorrentDHTEvent::MalformedPacket)
    );
    assert_eq!(
        BitTorrentDHTEvent::from_str("MALFORMED_PACKET"),
        Ok(BitTorrentDHTEvent::MalformedPacket)
    );
    assert_eq!(BitTorrentDHTEvent::from_str("malformed"), Err(()));
    assert_eq!(
        BitTorrentDHTEvent::MalformedPacket.to_cstring(),
        "MALFORMED_PACKET\0"
    );
    assert_eq!(
        BitTorrentDHTEvent::from_id(0),
        Some(BitTorrentDHTEvent::MalformedPacket)
    );
    assert_eq!(BitTorrentDHTEvent::from_id(7), None);
}
