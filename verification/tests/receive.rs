use bytes::Bytes;
use xbnet::ser::XBSerReader;
use xbnet::xbpacket::{xbchecksum, ExtTxStatus, RXPacket, XBDestAddr, XBTXRequest};
use xbnet::xbrx::{decode_frame, rxxbpacket, rxxbpacket_wait, skip_junk, RXEvent, XBReframer};

fn frame(inner: &[u8]) -> Vec<u8> {
    let mut out = vec![0x7e, (inner.len() >> 8) as u8, (inner.len() & 0xff) as u8];
    out.extend_from_slice(inner);
    out.push(xbchecksum(inner));
    out
}

fn rx_inner(sender: u64, short: u16, payload: &[u8]) -> Vec<u8> {
    let mut inner = vec![0x90];
    inner.extend_from_slice(&sender.to_be_bytes());
    inner.extend_from_slice(&short.to_be_bytes());
    inner.push(0x01);
    inner.extend_from_slice(payload);
    inner
}

fn reader(bytes: &[u8]) -> XBSerReader {
    let mut ser = XBSerReader::new();
    ser.feed(bytes);
    ser
}

#[test]
fn decodes_a_receive_packet() {
    let inner = rx_inner(0x0013a200_40aaaaaa, 0xfffe, &[0x00, 0x68, 0x69]);
    let ck = xbchecksum(&inner);
    assert_eq!(
        decode_frame(inner, ck),
        RXEvent::Packet(RXPacket {
            sender_addr64: 0x0013a200_40aaaaaa,
            sender_addr16: 0xfffe,
            rx_options: 0x01,
            payload: Bytes::from(vec![0x00, 0x68, 0x69]),
        })
    );
}

#[test]
fn decodes_a_receive_packet_without_payload() {
    let inner = rx_inner(5, 6, &[]);
    let ck = xbchecksum(&inner);
    match decode_frame(inner, ck) {
        RXEvent::Packet(p) => assert!(p.payload.is_empty()),
        other => panic!("unexpected {:?}", other),
    }
}

#[test]
fn decodes_a_transmit_status() {
    let inner = vec![0x8b, 0x07, 0x12, 0x34, 0x02, 0x00, 0x01];
    let ck = xbchecksum(&inner);
    assert_eq!(
        decode_frame(inner, ck),
        RXEvent::Status(ExtTxStatus {
            frame_id: 7,
            dest_addr_16: 0x1234,
            tx_retry_count: 2,
            delivery_status: 0,
            discovery_status: 1,
        })
    );
}

#[test]
fn short_frames_are_other() {
    assert_eq!(decode_frame(vec![], 0xff), RXEvent::Other);
    assert_eq!(decode_frame(vec![0x8b], 0x74), RXEvent::Other);
    let short = vec![0x90, 1, 2, 3];
    let ck = xbchecksum(&short);
    assert_eq!(decode_frame(short, ck), RXEvent::Other);
    let unknown = vec![0x88, 1, 2, 3, 4, 5, 6, 7, 8, 9, 10, 11, 12];
    let ck = xbchecksum(&unknown);
    assert_eq!(decode_frame(unknown, ck), RXEvent::Other);
}

#[test]
fn wrong_checksum_beats_everything() {
    let inner = rx_inner(1, 2, &[0, 1]);
    let ck = xbchecksum(&inner).wrapping_add(1);
    assert_eq!(decode_frame(inner, ck), RXEvent::BadChecksum);
}

#[test]
fn incomplete_frame_stays_pending() {
    let whole = frame(&rx_inner(1, 2, &[0, 9]));
    for cut in 0..whole.len() {
        let mut ser = reader(&whole[..cut]);
        assert_eq!(rxxbpacket(&mut ser), RXEvent::Incomplete);
        assert_eq!(ser.pending_len(), cut);
        ser.feed(&whole[cut..]);
        match rxxbpacket(&mut ser) {
            RXEvent::Packet(p) => assert_eq!(&p.payload[..], &[0, 9]),
            other => panic!("unexpected {:?}", other),
        }
        assert_eq!(ser.pending_len(), 0);
    }
}

#[test]
fn junk_without_delimiter_is_dropped() {
    let mut ser = reader(&[1, 2, 3]);
    assert_eq!(rxxbpacket(&mut ser), RXEvent::Incomplete);
    assert_eq!(ser.pending_len(), 0);
}

#[test]
fn skip_junk_returns_what_it_dropped() {
    let mut ser = reader(&[0xaa, 0xbb, 0x7e, 0x00]);
    assert_eq!(skip_junk(&mut ser), vec![0xaa, 0xbb]);
    assert_eq!(ser.peek(), &[0x7e, 0x00]);
    assert_eq!(skip_junk(&mut ser), Vec::<u8>::new());
}

#[test]
fn junk_skip() {
    let mut input = vec![0xaa, 0xbb, 0x7e, 0x00, 0x01, 0x8b, 0x74];
    input.extend_from_slice(&frame(&rx_inner(0x11, 0x22, &[0x00, 0x33])));
    let mut ser = reader(&input);
    assert_eq!(rxxbpacket(&mut ser), RXEvent::Other);
    let packet = rxxbpacket_wait(&mut ser).unwrap();
    assert_eq!(packet.sender_addr64, 0x11);
    assert_eq!(packet.sender_addr16, 0x22);
    assert_eq!(&packet.payload[..], &[0x00, 0x33]);
    assert_eq!(ser.pending_len(), 0);
    assert_eq!(rxxbpacket_wait(&mut ser), None);
}

#[test]
fn checksum_damaged_frame_is_discarded() {
    let mut bad = frame(&rx_inner(1, 2, &[0x00, 0x01]));
    let last = bad.len() - 1;
    bad[last] ^= 0x55;
    let good = frame(&rx_inner(3, 4, &[0x00, 0x02]));
    let mut input = bad.clone();
    input.extend_from_slice(&good);
    let mut ser = reader(&input);
    assert_eq!(rxxbpacket(&mut ser), RXEvent::BadChecksum);
    let mut ser = reader(&input);
    let packet = rxxbpacket_wait(&mut ser).unwrap();
    assert_eq!(packet.sender_addr64, 3);
    assert_eq!(&packet.payload[..], &[0x00, 0x02]);
}

#[test]
fn serialized_request_reads_back() {
    let payload: Vec<u8> = (0..200u8).collect();
    let req = XBTXRequest {
        frame_id: 3,
        dest_addr: XBDestAddr::U64(0x0013a200_40123456),
        broadcast_radius: 0,
        transmit_options: 0,
        payload: Bytes::from(payload.clone()),
    };
    let frame = req.serialize().unwrap();
    let mut ser = reader(&frame);
    assert_eq!(rxxbpacket(&mut ser), RXEvent::Other);
    assert_eq!(ser.pending_len(), 0);
    let inner = &frame[3..frame.len() - 1];
    assert_eq!(inner[0], 0x10);
    assert_eq!(&inner[2..10], &0x0013a200_40123456u64.to_be_bytes());
    assert_eq!(&inner[14..], &payload[..]);
}

fn packet(sender: u64, short: u16, payload: &[u8]) -> RXPacket {
    RXPacket {
        sender_addr64: sender,
        sender_addr16: short,
        rx_options: 0,
        payload: Bytes::copy_from_slice(payload),
    }
}

#[test]
fn single_chunk_is_returned_at_once() {
    let mut reframer = XBReframer::new();
    assert_eq!(
        reframer.accept(&packet(7, 8, &[0, 1, 2, 3])),
        Some((7, 8, Bytes::from(vec![1, 2, 3])))
    );
}

#[test]
fn interleaved_senders_do_not_conflate() {
    let mut reframer = XBReframer::new();
    assert_eq!(reframer.accept(&packet(1, 10, &[2, b'a'])), None);
    assert_eq!(reframer.accept(&packet(2, 20, &[1, b'x'])), None);
    assert_eq!(reframer.accept(&packet(1, 10, &[1, b'b'])), None);
    assert_eq!(
        reframer.accept(&packet(2, 21, &[0, b'y'])),
        Some((2, 21, Bytes::from(vec![b'x', b'y'])))
    );
    assert_eq!(
        reframer.accept(&packet(1, 10, &[0, b'c'])),
        Some((1, 10, Bytes::from(vec![b'a', b'b', b'c'])))
    );
}

#[test]
fn buffer_is_gone_after_a_datagram() {
    let mut reframer = XBReframer::new();
    assert_eq!(reframer.accept(&packet(1, 0, &[1, 0xaa])), None);
    assert_eq!(
        reframer.accept(&packet(1, 0, &[0, 0xbb])),
        Some((1, 0, Bytes::from(vec![0xaa, 0xbb])))
    );
    assert_eq!(
        reframer.accept(&packet(1, 0, &[0, 0xcc])),
        Some((1, 0, Bytes::from(vec![0xcc])))
    );
}

#[test]
fn packet_without_payload_is_ignored() {
    let mut reframer = XBReframer::new();
    assert_eq!(reframer.accept(&packet(1, 0, &[1, 0xaa])), None);
    assert_eq!(reframer.accept(&packet(1, 0, &[])), None);
    assert_eq!(
        reframer.accept(&packet(1, 0, &[0])),
        Some((1, 0, Bytes::from(vec![0xaa])))
    );
}

#[test]
fn rxframe_reassembles_across_feeds() {
    let mut reframer = XBReframer::new();
    let mut ser = XBSerReader::new();
    let first = frame(&rx_inner(5, 6, &[1, b'h', b'e']));
    let second = frame(&rx_inner(5, 6, &[0, b'y']));
    ser.feed(&first);
    ser.feed(&second[..4]);
    assert_eq!(reframer.rxframe(&mut ser), None);
    assert_eq!(ser.pending_len(), 4);
    ser.feed(&second[4..]);
    assert_eq!(
        reframer.rxframe(&mut ser),
        Some((5, 6, Bytes::from(vec![b'h', b'e', b'y'])))
    );
    assert_eq!(reframer.rxframe(&mut ser), None);
}

#[test]
fn rxframe_returns_one_datagram_at_a_time() {
    let mut reframer = XBReframer::new();
    let mut input = frame(&rx_inner(1, 1, &[0, 1]));
    input.extend_from_slice(&frame(&[0x8b, 1, 2, 3, 4, 5, 6]));
    input.extend_from_slice(&frame(&rx_inner(2, 2, &[0, 2])));
    let mut ser = reader(&input);
    assert_eq!(reframer.rxframe(&mut ser), Some((1, 1, Bytes::from(vec![1]))));
    assert_eq!(reframer.rxframe(&mut ser), Some((2, 2, Bytes::from(vec![2]))));
    assert_eq!(reframer.rxframe(&mut ser), None);
}

#[test]
fn discardframes_drains_the_input() {
    let mut reframer = XBReframer::new();
    let mut input = frame(&rx_inner(1, 1, &[0, 1]));
    input.extend_from_slice(&frame(&rx_inner(2, 2, &[1, 2])));
    input.extend_from_slice(&frame(&rx_inner(3, 3, &[0, 3])));
    input.extend_from_slice(&[0x7e, 0x00]);
    let mut ser = reader(&input);
    assert_eq!(reframer.discardframes(&mut ser), 2);
    assert_eq!(ser.peek(), &[0x7e, 0x00]);
    assert_eq!(
        reframer.accept(&packet(2, 2, &[0, 9])),
        Some((2, 2, Bytes::from(vec![2, 9])))
    );
}
