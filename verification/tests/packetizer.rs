use xbnet::xbpacket::{PacketStream, TXGenError, XBDestAddr};

#[test]
fn empty_payload_yields_no_chunks() {
    let mut stream = PacketStream::new();
    let packets = stream
        .packetize_data(256, &XBDestAddr::U64(1), &[], false, true)
        .unwrap();
    assert!(packets.is_empty());
    assert_eq!(stream.get_and_incr_framecounter(), 1);
}

#[test]
fn empty_payload_yields_no_chunks_whatever_the_packet_size() {
    let mut stream = PacketStream::new();
    assert!(stream
        .packetize_data(0, &XBDestAddr::U64(1), &[], false, false)
        .unwrap()
        .is_empty());
}

#[test]
fn two_chunk_datagram() {
    let data: Vec<u8> = (0..300u32).map(|i| (i % 251) as u8).collect();
    let mut stream = PacketStream::new();
    let packets = stream
        .packetize_data(200, &XBDestAddr::U64(0x42), &data, false, false)
        .unwrap();
    assert_eq!(packets.len(), 2);
    assert_eq!(packets[0].payload[0], 1);
    assert_eq!(packets[1].payload[0], 0);
    assert_eq!(&packets[0].payload[1..], &data[..199]);
    assert_eq!(&packets[1].payload[1..], &data[199..]);
    for packet in &packets {
        assert_eq!(packet.frame_id, 0);
        assert_eq!(packet.dest_addr, XBDestAddr::U64(0x42));
        assert_eq!(packet.broadcast_radius, 0);
        assert_eq!(packet.transmit_options, 0);
    }
}

#[test]
fn chunks_reassemble_and_count_down() {
    let data: Vec<u8> = (0..1000u32).map(|i| (i * 7 % 256) as u8).collect();
    for maxpacketsize in [2usize, 3, 7, 100, 256, 1000, 1001, 5000] {
        let mut stream = PacketStream::new();
        let result = stream.packetize_data(maxpacketsize, &XBDestAddr::U64(9), &data, true, false);
        let chunk = maxpacketsize - 1;
        let count = (data.len() + chunk - 1) / chunk;
        if count > 255 {
            assert_eq!(result, Err(TXGenError::InvalidLen));
            continue;
        }
        let packets = result.unwrap();
        assert_eq!(packets.len(), count);
        let mut rebuilt = Vec::new();
        for (i, packet) in packets.iter().enumerate() {
            assert_eq!(usize::from(packet.payload[0]), count - i - 1);
            assert!(packet.payload.len() <= maxpacketsize);
            assert_eq!(packet.transmit_options, 1);
            rebuilt.extend_from_slice(&packet.payload[1..]);
        }
        assert_eq!(rebuilt, data);
    }
}

#[test]
fn payload_needing_255_chunks_is_accepted() {
    let data = vec![0x11u8; 255];
    let mut stream = PacketStream::new();
    let packets = stream
        .packetize_data(2, &XBDestAddr::U64(1), &data, false, false)
        .unwrap();
    assert_eq!(packets.len(), 255);
    assert_eq!(packets[0].payload[0], 254);
    assert_eq!(packets[254].payload[0], 0);
}

#[test]
fn payload_needing_256_chunks_is_rejected() {
    let data = vec![0x11u8; 256];
    let mut stream = PacketStream::new();
    assert_eq!(
        stream.packetize_data(2, &XBDestAddr::U64(1), &data, false, true),
        Err(TXGenError::InvalidLen)
    );
    assert_eq!(stream.get_and_incr_framecounter(), 1);
}

#[test]
fn packet_size_without_room_for_data_is_rejected() {
    let mut stream = PacketStream::new();
    assert_eq!(
        stream.packetize_data(1, &XBDestAddr::U64(1), &[1], false, false),
        Err(TXGenError::InvalidLen)
    );
    assert_eq!(
        stream.packetize_data(0, &XBDestAddr::U64(1), &[1], false, false),
        Err(TXGenError::InvalidLen)
    );
}

#[test]
fn tx_reports_take_consecutive_frame_ids() {
    let mut stream = PacketStream::new();
    let data = vec![0u8; 30];
    let packets = stream
        .packetize_data(11, &XBDestAddr::U64(1), &data, false, true)
        .unwrap();
    let ids: Vec<u8> = packets.iter().map(|p| p.frame_id).collect();
    assert_eq!(ids, vec![1, 2, 3]);
    let packets = stream
        .packetize_data(11, &XBDestAddr::U64(1), &data[..5], false, true)
        .unwrap();
    assert_eq!(packets[0].frame_id, 4);
}

#[test]
fn frame_ids_wrap_from_255_to_1() {
    let mut stream = PacketStream::new();
    for _ in 0..253 {
        stream.get_and_incr_framecounter();
    }
    let packets = stream
        .packetize_data(2, &XBDestAddr::U64(1), &[9, 9, 9, 9], false, true)
        .unwrap();
    let ids: Vec<u8> = packets.iter().map(|p| p.frame_id).collect();
    assert_eq!(ids, vec![254, 255, 1, 2]);
}
