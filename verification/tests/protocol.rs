use kotatsu_realtime::protocol::{
    encode_packet, json_line, packet_kind, parse_datagram, parse_reliable, take_json_line, PacketKind,
    PKT_RELIABLE, PKT_UNRELIABLE,
};

#[test]
fn packets_are_classified_by_their_first_byte() {
    assert_eq!(packet_kind(&[]), PacketKind::Empty);
    assert_eq!(packet_kind(&[0x01, b'{']), PacketKind::Reliable);
    assert_eq!(packet_kind(&[0x02]), PacketKind::Unreliable);
    assert_eq!(packet_kind(&[0x7f, 0x01]), PacketKind::Unknown(0x7f));
}

#[test]
fn framing_then_parsing_gives_the_payload_back() {
    let payload = br#"{"t":"join","token":"abc"}"#;
    let reliable = encode_packet(PKT_RELIABLE, payload);
    assert_eq!(reliable[0], 0x01);
    assert_eq!(&reliable[1..], payload);
    assert_eq!(parse_reliable(&reliable), Some(payload.to_vec()));
    assert_eq!(parse_datagram(&reliable), None);

    let datagram = encode_packet(PKT_UNRELIABLE, b"");
    assert_eq!(datagram, vec![0x02]);
    assert_eq!(parse_datagram(&datagram), Some(Vec::new()));
    assert_eq!(parse_reliable(&datagram), None);
    assert_eq!(parse_reliable(&[]), None);
}

#[test]
fn json_lines_are_read_back_one_at_a_time() {
    let mut buf = json_line(b"{\"a\":1}");
    assert_eq!(buf, b"{\"a\":1}\n".to_vec());
    buf.extend_from_slice(b"\n\n{\"b\":2}\n{\"c\"");
    assert_eq!(take_json_line(&mut buf), Some(b"{\"a\":1}".to_vec()));
    assert_eq!(take_json_line(&mut buf), Some(b"{\"b\":2}".to_vec()));
    assert_eq!(take_json_line(&mut buf), None);
    assert_eq!(buf, b"{\"c\"".to_vec());
    buf.extend_from_slice(b":3}\n");
    assert_eq!(take_json_line(&mut buf), Some(b"{\"c\":3}".to_vec()));
    assert!(buf.is_empty());
    let mut blank = b"\n\n".to_vec();
    assert_eq!(take_json_line(&mut blank), None);
    assert!(blank.is_empty());
}
