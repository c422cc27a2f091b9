//! Receiving from the radio: finding frames among the bytes that have
//! arrived, decoding them, and putting the chunks of each sender's datagrams
//! back together.

use crate::bytebuf::{bytes_mut_seq, bytes_seq, get_u16, get_u64, get_u8};
use crate::ser::{
    first_index, lemma_first_index, lemma_first_index_bounds, spec_first_index, XBSerReader,
};
use crate::wire::{
    lemma_u16_be_roundtrip, lemma_u64_be_roundtrip, spec_u16_be, spec_u16_from_be, spec_u64_be,
    spec_u64_from_be,
};
use crate::xbpacket::{
    lemma_packetize_reassembles, spec_checksum, spec_concat_tails, spec_dest_fields, spec_frame,
    spec_packetize, spec_payloads, spec_serialize, spec_tx_inner, xbchecksum, ExtTxStatus,
    RXPacket, RXPacketView, TXRequestView, XBDestAddr, FRAME_DELIMITER, FRAME_RX_PACKET,
    FRAME_TX_REQUEST, FRAME_TX_STATUS, TX_HEADER_LEN,
};
use bytes::{Buf, Bytes, BytesMut};
use std::collections::HashMap;
use vstd::prelude::*;
use vstd::slice::slice_subrange;

verus! {

broadcast use vstd::std_specs::hash::group_hash_axioms;

/// Bytes of a status frame's inner frame.
pub const TX_STATUS_LEN: usize = 7;

/// Bytes of a receive packet's inner frame that precede the payload.
pub const RX_HEADER_LEN: usize = 12;

/// What one look at the pending bytes found.
#[derive(Debug, PartialEq, Eq)]
pub enum RXEvent {
    /// No whole frame has arrived yet. Bytes before the next delimiter were
    /// dropped; the unfinished frame stays pending.
    Incomplete,
    /// A frame whose checksum does not match; it was dropped.
    BadChecksum,
    /// A transmit status from the radio.
    Status(ExtTxStatus),
    /// Data received from another radio.
    Packet(RXPacket),
    /// A frame of another type, or one too short for its type; it was
    /// dropped.
    Other,
}

/// An event as plain values.
pub enum RXEventView {
    Incomplete,
    BadChecksum,
    Status(ExtTxStatus),
    Packet(RXPacketView),
    Other,
}

impl View for RXEvent {
    type V = RXEventView;

    open spec fn view(&self) -> RXEventView {
        match self {
            RXEvent::Incomplete => RXEventView::Incomplete,
            RXEvent::BadChecksum => RXEventView::BadChecksum,
            RXEvent::Status(status) => RXEventView::Status(*status),
            RXEvent::Packet(packet) => RXEventView::Packet(packet@),
            RXEvent::Other => RXEventView::Other,
        }
    }
}

/// What an inner frame with its checksum byte decodes to.
///
/// A wrong checksum beats everything else. A status frame has type 0x8B and
/// at least seven bytes; a receive packet has type 0x90 and at least twelve
/// bytes, and what follows them is its payload.
pub open spec fn spec_decode_frame(inner: Seq<u8>, checksum: u8) -> RXEventView {
    if spec_checksum(inner) != checksum {
        RXEventView::BadChecksum
    } else if inner.len() >= TX_STATUS_LEN && inner[0] == FRAME_TX_STATUS {
        RXEventView::Status(
            ExtTxStatus {
                frame_id: inner[1],
                dest_addr_16: spec_u16_from_be(inner.subrange(2, 4)),
                tx_retry_count: inner[4],
                delivery_status: inner[5],
                discovery_status: inner[6],
            },
        )
    } else if inner.len() >= RX_HEADER_LEN && inner[0] == FRAME_RX_PACKET {
        RXEventView::Packet(
            RXPacketView {
                sender_addr64: spec_u64_from_be(inner.subrange(1, 9)),
                sender_addr16: spec_u16_from_be(inner.subrange(9, 11)),
                rx_options: inner[11],
                payload: inner.skip(RX_HEADER_LEN as int),
            },
        )
    } else {
        RXEventView::Other
    }
}

/// Decodes an inner frame that arrived with the given checksum byte.
pub fn decode_frame(inner: Vec<u8>, checksum: u8) -> (r: RXEvent)
    ensures
        r@ == spec_decode_frame(inner@, checksum),
{
    if xbchecksum(inner.as_slice()) != checksum {
        return RXEvent::BadChecksum;
    }
    let len = inner.len();
    if len == 0 {
        return RXEvent::Other;
    }
    let ghost all = inner@;
    let mut inner = Bytes::from(inner);
    let frametype = get_u8(&mut inner);
    if frametype == FRAME_TX_STATUS && len >= TX_STATUS_LEN {
        let frame_id = get_u8(&mut inner);
        assert(bytes_seq(inner) =~= all.skip(2));
        let dest_addr_16 = get_u16(&mut inner);
        assert(bytes_seq(inner) =~= all.skip(4));
        let tx_retry_count = get_u8(&mut inner);
        let delivery_status = get_u8(&mut inner);
        assert(bytes_seq(inner) =~= all.skip(6));
        let discovery_status = get_u8(&mut inner);
        RXEvent::Status(
            ExtTxStatus {
                frame_id,
                dest_addr_16,
                tx_retry_count,
                delivery_status,
                discovery_status,
            },
        )
    } else if frametype == FRAME_RX_PACKET && len >= RX_HEADER_LEN {
        let sender_addr64 = get_u64(&mut inner);
        assert(bytes_seq(inner) =~= all.skip(9));
        let sender_addr16 = get_u16(&mut inner);
        assert(bytes_seq(inner) =~= all.skip(11));
        let rx_options = get_u8(&mut inner);
        assert(bytes_seq(inner) =~= all.skip(12));
        let payload = inner.to_bytes();
        RXEvent::Packet(RXPacket { sender_addr64, sender_addr16, rx_options, payload })
    } else {
        RXEvent::Other
    }
}

/// How many bytes come before the first frame delimiter in `s`.
pub open spec fn spec_junk_len(s: Seq<u8>) -> int {
    spec_first_index(s, FRAME_DELIMITER)
}

/// The length field of the frame that starts at position `j` of `s`.
pub open spec fn spec_frame_len(s: Seq<u8>, j: int) -> int
    recommends
        0 <= j,
        j + 3 <= s.len(),
{
    spec_u16_from_be(s.subrange(j + 1, j + 3)) as int
}

/// Whether a whole frame follows the junk at the head of `s`.
pub open spec fn spec_frame_ready(s: Seq<u8>) -> bool {
    let j = spec_junk_len(s);
    s.len() >= j + 3 && s.len() >= j + 4 + spec_frame_len(s, j)
}

/// How many bytes one look takes from `s`: the junk before the first
/// delimiter and, if it has arrived in full, the frame behind it.
pub open spec fn spec_rx_consumed(s: Seq<u8>) -> int {
    let j = spec_junk_len(s);
    if spec_frame_ready(s) {
        j + 4 + spec_frame_len(s, j)
    } else {
        j
    }
}

/// What one look finds in `s`.
pub open spec fn spec_rx_event(s: Seq<u8>) -> RXEventView {
    let j = spec_junk_len(s);
    if spec_frame_ready(s) {
        let n = spec_frame_len(s, j);
        spec_decode_frame(s.subrange(j + 3, j + 3 + n), s[j + 3 + n])
    } else {
        RXEventView::Incomplete
    }
}

/// Drops the bytes that precede the next frame delimiter and returns them.
pub fn skip_junk(ser: &mut XBSerReader) -> (junk: Vec<u8>)
    ensures
        junk@ == old(ser)@.take(spec_junk_len(old(ser)@)),
        final(ser)@ == old(ser)@.skip(spec_junk_len(old(ser)@)),
        final(ser).is_closed() == old(ser).is_closed(),
        spec_junk_len(final(ser)@) == 0,
{
    let j = first_index(ser.peek(), FRAME_DELIMITER);
    let junk = ser.read_exact(j).unwrap();
    proof {
        lemma_first_index_bounds(old(ser)@, FRAME_DELIMITER);
    }
    junk
}

/// Looks for the next frame among the pending bytes.
///
/// Bytes before the next delimiter are dropped. If the frame behind the
/// delimiter has arrived in full it is consumed and decoded; otherwise it
/// stays pending and the event is `Incomplete`.
pub fn rxxbpacket(ser: &mut XBSerReader) -> (r: RXEvent)
    ensures
        r@ == spec_rx_event(old(ser)@),
        final(ser)@ == old(ser)@.skip(spec_rx_consumed(old(ser)@)),
        final(ser).is_closed() == old(ser).is_closed(),
{
    let ghost s = ser@;
    let ghost j = spec_junk_len(s);
    proof {
        lemma_first_index_bounds(s, FRAME_DELIMITER);
    }
    let _ = skip_junk(ser);
    let pending = ser.peek();
    if pending.len() < 3 {
        return RXEvent::Incomplete;
    }
    let length: u16 = (pending[1] as u16) << 8 | (pending[2] as u16);
    assert(s.subrange(j + 1, j + 3) =~= pending@.subrange(1, 3));
    let total: usize = 4 + length as usize;
    if pending.len() < total {
        return RXEvent::Incomplete;
    }
    let mut frame = ser.read_exact(total).unwrap();
    let checksum = frame.pop().unwrap();
    let inner = frame.split_off(3);
    assert(inner@ =~= s.subrange(j + 3, j + 3 + length));
    assert(ser@ =~= s.skip(j + 4 + length));
    decode_frame(inner, checksum)
}

/// What waiting for a receive packet does to the pending bytes `s`: how many
/// bytes it takes and the packet it finds. It looks at frame after frame,
/// dropping all but receive packets, until it has one or no whole frame is
/// left.
pub open spec fn spec_rx_wait(s: Seq<u8>) -> (int, Option<RXPacketView>)
    decreases s.len(),
{
    let c = spec_rx_consumed(s);
    match spec_rx_event(s) {
        RXEventView::Incomplete => (c, None),
        RXEventView::Packet(packet) => (c, Some(packet)),
        _ => if 0 < c <= s.len() {
            let rest = spec_rx_wait(s.skip(c));
            (c + rest.0, rest.1)
        } else {
            (c, None)
        },
    }
}

/// One look never takes more than is pending, and takes at least four bytes
/// when it finds a frame.
pub proof fn lemma_rx_consumed_bounds(s: Seq<u8>)
    ensures
        0 <= spec_rx_consumed(s) <= s.len(),
        spec_frame_ready(s) ==> spec_rx_consumed(s) >= 4,
{
    lemma_first_index_bounds(s, FRAME_DELIMITER);
}

/// Waiting never takes more than is pending.
pub proof fn lemma_rx_wait_bounds(s: Seq<u8>)
    ensures
        0 <= spec_rx_wait(s).0 <= s.len(),
    decreases s.len(),
{
    lemma_rx_consumed_bounds(s);
    let c = spec_rx_consumed(s);
    match spec_rx_event(s) {
        RXEventView::Incomplete => {},
        RXEventView::Packet(_) => {},
        _ => {
            if 0 < c <= s.len() {
                lemma_rx_wait_bounds(s.skip(c));
            }
        },
    }
}

/// Like `rxxbpacket`, but goes on to the next frame until it has a receive
/// packet. Returns `None` when the pending bytes hold no further whole
/// frame.
pub fn rxxbpacket_wait(ser: &mut XBSerReader) -> (r: Option<RXPacket>)
    ensures
        match r {
            Some(packet) => spec_rx_wait(old(ser)@).1 == Some(packet@),
            None => spec_rx_wait(old(ser)@).1 is None,
        },
        final(ser)@ == old(ser)@.skip(spec_rx_wait(old(ser)@).0),
        final(ser).is_closed() == old(ser).is_closed(),
{
    let ghost s0 = ser@;
    let ghost taken: int = 0;
    assert(s0.skip(0) =~= s0);
    loop
        invariant
            s0 == old(ser)@,
            0 <= taken <= s0.len(),
            ser@ == s0.skip(taken),
            spec_rx_wait(s0).0 == taken + spec_rx_wait(ser@).0,
            spec_rx_wait(s0).1 == spec_rx_wait(ser@).1,
            ser.is_closed() == old(ser).is_closed(),
        decreases ser@.len(),
    {
        let ghost s = ser@;
        proof {
            lemma_rx_consumed_bounds(s);
        }
        match rxxbpacket(ser) {
            RXEvent::Packet(packet) => {
                assert(s0.skip(taken).skip(spec_rx_consumed(s)) =~= s0.skip(
                    taken + spec_rx_consumed(s),
                ));
                return Some(packet);
            },
            RXEvent::Incomplete => {
                assert(s0.skip(taken).skip(spec_rx_consumed(s)) =~= s0.skip(
                    taken + spec_rx_consumed(s),
                ));
                return None;
            },
            _ => {
                proof {
                    assert(s0.skip(taken).skip(spec_rx_consumed(s)) =~= s0.skip(
                        taken + spec_rx_consumed(s),
                    ));
                    taken = taken + spec_rx_consumed(s);
                }
            },
        }
    }
}

/// The bytes gathered for `packet`'s sender once `packet` has been taken
/// in: what was gathered before, then the payload without its first byte.
pub open spec fn spec_gathered(state: Map<u64, Seq<u8>>, packet: RXPacketView) -> Seq<u8> {
    (if state.contains_key(packet.sender_addr64) {
        state[packet.sender_addr64]
    } else {
        Seq::empty()
    }) + packet.payload.skip(1)
}

/// The datagram that `packet` completes, if it completes one: a packet
/// whose payload starts with 0 hands out what has been gathered for its
/// sender, as sender address, short address and bytes. A packet without
/// payload completes nothing.
pub open spec fn spec_accept_output(state: Map<u64, Seq<u8>>, packet: RXPacketView) -> Option<
    (u64, u16, Seq<u8>),
> {
    if packet.payload.len() > 0 && packet.payload[0] == 0 {
        Some((packet.sender_addr64, packet.sender_addr16, spec_gathered(state, packet)))
    } else {
        None
    }
}

/// The per-sender buffers after `packet`: a packet that completes a
/// datagram removes its sender's buffer, any other packet with a payload
/// extends it, and a packet without payload changes nothing.
pub open spec fn spec_accept_state(state: Map<u64, Seq<u8>>, packet: RXPacketView) -> Map<
    u64,
    Seq<u8>,
> {
    if packet.payload.len() == 0 {
        state
    } else if packet.payload[0] == 0 {
        state.remove(packet.sender_addr64)
    } else {
        state.insert(packet.sender_addr64, spec_gathered(state, packet))
    }
}

/// A datagram as plain values: sender address, short address, bytes.
pub open spec fn spec_datagram_view(datagram: (u64, u16, Bytes)) -> (u64, u16, Seq<u8>) {
    (datagram.0, datagram.1, bytes_seq(datagram.2))
}

/// A datagram, or none, as plain values.
pub open spec fn spec_output_view(output: Option<(u64, u16, Bytes)>) -> Option<
    (u64, u16, Seq<u8>),
> {
    match output {
        Some(datagram) => Some(spec_datagram_view(datagram)),
        None => None,
    }
}

/// What receiving a datagram does with buffers `state` and pending bytes
/// `s`: the buffers afterwards, how many bytes are taken, and the datagram.
/// Packets are taken in one after the other until one completes a datagram
/// or no whole frame is left.
pub open spec fn spec_rxframe(state: Map<u64, Seq<u8>>, s: Seq<u8>) -> (
    Map<u64, Seq<u8>>,
    int,
    Option<(u64, u16, Seq<u8>)>,
)
    decreases s.len(),
{
    let found = spec_rx_wait(s);
    match found.1 {
        None => (state, found.0, None),
        Some(packet) => {
            let next = spec_accept_state(state, packet);
            match spec_accept_output(state, packet) {
                Some(datagram) => (next, found.0, Some(datagram)),
                None => if 0 < found.0 <= s.len() {
                    let rest = spec_rxframe(next, s.skip(found.0));
                    (rest.0, found.0 + rest.1, rest.2)
                } else {
                    (next, found.0, None)
                },
            }
        },
    }
}

/// Waiting that finds a packet has taken at least the four bytes around it.
pub proof fn lemma_rx_wait_progress(s: Seq<u8>)
    ensures
        spec_rx_wait(s).1 is Some ==> spec_rx_wait(s).0 >= 4,
    decreases s.len(),
{
    lemma_rx_consumed_bounds(s);
    let c = spec_rx_consumed(s);
    match spec_rx_event(s) {
        RXEventView::Incomplete => {},
        RXEventView::Packet(_) => {},
        _ => {
            if 0 < c <= s.len() {
                lemma_rx_wait_progress(s.skip(c));
            }
        },
    }
}

/// Receives radio packets and puts each sender's chunks back together.
pub struct XBReframer {
    /// For each sender, the bytes of the datagram that is still arriving.
    buf: HashMap<u64, BytesMut>,
}

impl View for XBReframer {
    type V = Map<u64, Seq<u8>>;

    /// For each sender with an unfinished datagram, the bytes gathered so far.
    closed spec fn view(&self) -> Map<u64, Seq<u8>> {
        Map::new(|k: u64| self.buf@.contains_key(k), |k: u64| bytes_mut_seq(self.buf@[k]))
    }
}

impl XBReframer {
    /// A reframer that holds nothing.
    pub fn new() -> (r: Self)
        ensures
            r@ == Map::<u64, Seq<u8>>::empty(),
    {
        let r = XBReframer { buf: HashMap::new() };
        assert(r@ =~= Map::<u64, Seq<u8>>::empty());
        r
    }

    /// Takes in one receive packet.
    ///
    /// The payload without its first byte is added to what has been gathered
    /// for the sender. If the first byte is 0 the gathered bytes are handed
    /// out as a datagram and the sender's buffer is gone; otherwise they are
    /// kept. A packet without payload is ignored.
    pub fn accept(&mut self, packet: &RXPacket) -> (r: Option<(u64, u16, Bytes)>)
        ensures
            spec_output_view(r) == spec_accept_output(old(self)@, packet@),
            final(self)@ == spec_accept_state(old(self)@, packet@),
            r is Some ==> !final(self)@.contains_key(r->Some_0.0),
    {
        let payload = packet.payload.as_ref();
        if payload.len() == 0 {
            return None;
        }
        let mut frame = BytesMut::new();
        if let Some(olddata) = self.buf.get(&packet.sender_addr64) {
            frame.extend_from_slice(olddata.as_ref());
        }
        frame.extend_from_slice(slice_subrange(payload, 1, payload.len()));
        assert(bytes_mut_seq(frame) =~= spec_gathered(old(self)@, packet@));
        if payload[0] == 0 {
            self.buf.remove(&packet.sender_addr64);
            assert(self@ =~= spec_accept_state(old(self)@, packet@));
            Some((packet.sender_addr64, packet.sender_addr16, frame.freeze()))
        } else {
            self.buf.insert(packet.sender_addr64, frame);
            assert(self@ =~= spec_accept_state(old(self)@, packet@));
            None
        }
    }

    /// Receives a datagram that may have been split over several radio
    /// packets: takes in pending packets until one completes a datagram, and
    /// returns it with its sender's addresses. Returns `None` when the
    /// pending bytes hold no further whole frame; what has been gathered is
    /// kept for the next call.
    pub fn rxframe(&mut self, ser: &mut XBSerReader) -> (r: Option<(u64, u16, Bytes)>)
        ensures
            spec_output_view(r) == spec_rxframe(old(self)@, old(ser)@).2,
            final(self)@ == spec_rxframe(old(self)@, old(ser)@).0,
            final(ser)@ == old(ser)@.skip(spec_rxframe(old(self)@, old(ser)@).1),
            final(ser).is_closed() == old(ser).is_closed(),
            r is Some ==> !final(self)@.contains_key(r->Some_0.0),
    {
        let ghost s0 = ser@;
        let ghost state0 = self@;
        let ghost taken: int = 0;
        assert(s0.skip(0) =~= s0);
        loop
            invariant
                s0 == old(ser)@,
                state0 == old(self)@,
                0 <= taken <= s0.len(),
                ser@ == s0.skip(taken),
                spec_rxframe(state0, s0).0 == spec_rxframe(self@, ser@).0,
                spec_rxframe(state0, s0).1 == taken + spec_rxframe(self@, ser@).1,
                spec_rxframe(state0, s0).2 == spec_rxframe(self@, ser@).2,
                ser.is_closed() == old(ser).is_closed(),
            decreases ser@.len(),
        {
            let ghost s = ser@;
            proof {
                lemma_rx_wait_bounds(s);
                lemma_rx_wait_progress(s);
                assert(s0.skip(taken).skip(spec_rx_wait(s).0) =~= s0.skip(
                    taken + spec_rx_wait(s).0,
                ));
            }
            match rxxbpacket_wait(ser) {
                None => {
                    return None;
                },
                Some(packet) => {
                    let out = self.accept(&packet);
                    if out.is_some() {
                        return out;
                    }
                    proof {
                        taken = taken + spec_rx_wait(s).0;
                    }
                },
            }
        }
    }

    /// Takes in every pending packet and throws away the datagrams that they
    /// complete. Returns how many datagrams were thrown away.
    pub fn discardframes(&mut self, ser: &mut XBSerReader) -> (discarded: usize)
        ensures
            final(self)@ == spec_discard(old(self)@, old(ser)@).0,
            final(ser)@ == old(ser)@.skip(spec_discard(old(self)@, old(ser)@).1),
            discarded == spec_discard(old(self)@, old(ser)@).2,
            final(ser).is_closed() == old(ser).is_closed(),
    {
        let ghost s0 = ser@;
        let ghost state0 = self@;
        let ghost taken: int = 0;
        let mut discarded: usize = 0;
        let total = ser.pending_len();
        assert(s0.skip(0) =~= s0);
        loop
            invariant
                s0 == old(ser)@,
                state0 == old(self)@,
                s0.len() == total,
                0 <= taken <= s0.len(),
                ser@ == s0.skip(taken),
                4 * discarded <= taken,
                spec_discard(state0, s0).0 == spec_discard(self@, ser@).0,
                spec_discard(state0, s0).1 == taken + spec_discard(self@, ser@).1,
                spec_discard(state0, s0).2 == discarded + spec_discard(self@, ser@).2,
                ser.is_closed() == old(ser).is_closed(),
            decreases ser@.len(),
        {
            let ghost s = ser@;
            let ghost state = self@;
            proof {
                lemma_rxframe_bounds(state, s);
                assert(s0.skip(taken).skip(spec_rxframe(state, s).1) =~= s0.skip(
                    taken + spec_rxframe(state, s).1,
                ));
            }
            if self.rxframe(ser).is_none() {
                return discarded;
            }
            proof {
                taken = taken + spec_rxframe(state, s).1;
            }
            discarded += 1;
        }
    }
}

/// What discarding does with buffers `state` and pending bytes `s`: the
/// buffers afterwards, how many bytes are taken, and how many datagrams were
/// completed and thrown away.
pub open spec fn spec_discard(state: Map<u64, Seq<u8>>, s: Seq<u8>) -> (
    Map<u64, Seq<u8>>,
    int,
    int,
)
    decreases s.len(),
{
    let got = spec_rxframe(state, s);
    if got.2 is Some && 0 < got.1 <= s.len() {
        let rest = spec_discard(got.0, s.skip(got.1));
        (rest.0, got.1 + rest.1, 1 + rest.2)
    } else {
        (got.0, got.1, 0)
    }
}

/// Receiving a datagram never takes more than is pending, and takes at
/// least four bytes when it returns a datagram.
pub proof fn lemma_rxframe_bounds(state: Map<u64, Seq<u8>>, s: Seq<u8>)
    ensures
        0 <= spec_rxframe(state, s).1 <= s.len(),
        spec_rxframe(state, s).2 is Some ==> spec_rxframe(state, s).1 >= 4,
    decreases s.len(),
{
    lemma_rx_wait_bounds(s);
    lemma_rx_wait_progress(s);
    let found = spec_rx_wait(s);
    match found.1 {
        None => {},
        Some(packet) => {
            if spec_accept_output(state, packet) is None && 0 < found.0 <= s.len() {
                lemma_rxframe_bounds(spec_accept_state(state, packet), s.skip(found.0));
            }
        },
    }
}

/// What taking in `packets` one after the other does: the buffers
/// afterwards and the datagrams handed out, in order.
pub open spec fn spec_accept_all(state: Map<u64, Seq<u8>>, packets: Seq<RXPacketView>) -> (
    Map<u64, Seq<u8>>,
    Seq<(u64, u16, Seq<u8>)>,
)
    decreases packets.len(),
{
    if packets.len() == 0 {
        (state, Seq::empty())
    } else {
        let before = spec_accept_all(state, packets.drop_last());
        (
            spec_accept_state(before.0, packets.last()),
            match spec_accept_output(before.0, packets.last()) {
                Some(datagram) => before.1.push(datagram),
                None => before.1,
            },
        )
    }
}

/// Selects the packets that `sender` sent.
pub open spec fn spec_sent_by(sender: u64) -> spec_fn(RXPacketView) -> bool {
    |packet: RXPacketView| packet.sender_addr64 == sender
}

/// Selects the datagrams that came from `sender`.
pub open spec fn spec_came_from(sender: u64) -> spec_fn((u64, u16, Seq<u8>)) -> bool {
    |datagram: (u64, u16, Seq<u8>)| datagram.0 == sender
}

/// The payloads of `packets`, in order.
pub open spec fn spec_rx_payloads(packets: Seq<RXPacketView>) -> Seq<Seq<u8>> {
    Seq::new(packets.len(), |i: int| packets[i].payload)
}

/// Whether two sets of buffers hold the same for `sender`.
pub open spec fn spec_same_for(a: Map<u64, Seq<u8>>, b: Map<u64, Seq<u8>>, sender: u64) -> bool {
    a.contains_key(sender) == b.contains_key(sender) && (a.contains_key(sender) ==> a[sender]
        == b[sender])
}

/// Senders do not interfere: the datagrams that a stream of packets yields
/// for one sender, and what stays buffered for that sender, are the same as
/// if that sender's packets had arrived alone.
pub proof fn lemma_senders_independent(
    state: Map<u64, Seq<u8>>,
    packets: Seq<RXPacketView>,
    sender: u64,
)
    ensures
        spec_accept_all(state, packets).1.filter(spec_came_from(sender)) == spec_accept_all(
            state,
            packets.filter(spec_sent_by(sender)),
        ).1,
        spec_same_for(
            spec_accept_all(state, packets).0,
            spec_accept_all(state, packets.filter(spec_sent_by(sender))).0,
            sender,
        ),
    decreases packets.len(),
{
    reveal(Seq::filter);
    if packets.len() == 0 {
        assert(packets.filter(spec_sent_by(sender)) =~= packets);
        assert(Seq::<(u64, u16, Seq<u8>)>::empty().filter(spec_came_from(sender))
            =~= Seq::<(u64, u16, Seq<u8>)>::empty());
    } else {
        let init = packets.drop_last();
        let last = packets.last();
        lemma_senders_independent(state, init, sender);
        let all = spec_accept_all(state, init);
        let own = spec_accept_all(state, init.filter(spec_sent_by(sender)));
        match spec_accept_output(all.0, last) {
            Some(datagram) => {
                all.1.lemma_filter_push(datagram, spec_came_from(sender));
            },
            None => {},
        }
        if last.sender_addr64 == sender {
            let mine = init.filter(spec_sent_by(sender)).push(last);
            assert(packets.filter(spec_sent_by(sender)) == mine);
            assert(mine.drop_last() =~= init.filter(spec_sent_by(sender)));
            assert(spec_gathered(all.0, last) == spec_gathered(own.0, last));
        }
    }
}

/// Chunks that do not end a datagram are only gathered: a run of packets
/// from one sender, each with a payload that starts with a non-zero byte,
/// hands out nothing and extends the sender's buffer by the payloads
/// without their first bytes.
pub proof fn lemma_chunks_gathered(
    state: Map<u64, Seq<u8>>,
    chunks: Seq<RXPacketView>,
    sender: u64,
)
    requires
        chunks.len() > 0,
        forall|i: int|
            0 <= i < chunks.len() ==> (#[trigger] chunks[i]).sender_addr64 == sender
                && chunks[i].payload.len() > 0 && chunks[i].payload[0] != 0,
    ensures
        spec_accept_all(state, chunks).1 == Seq::<(u64, u16, Seq<u8>)>::empty(),
        spec_accept_all(state, chunks).0 == state.insert(
            sender,
            (if state.contains_key(sender) {
                state[sender]
            } else {
                Seq::empty()
            }) + spec_concat_tails(spec_rx_payloads(chunks)),
        ),
    decreases chunks.len(),
{
    let prior = if state.contains_key(sender) {
        state[sender]
    } else {
        Seq::empty()
    };
    let init = chunks.drop_last();
    let last = chunks.last();
    assert(spec_rx_payloads(chunks).drop_last() =~= spec_rx_payloads(init));
    assert(spec_rx_payloads(chunks).last() == last.payload);
    if init.len() == 0 {
        assert(spec_accept_all(state, init).0 == state);
        assert(spec_accept_all(state, init).1 =~= Seq::<(u64, u16, Seq<u8>)>::empty());
        assert(spec_concat_tails(spec_rx_payloads(init)) =~= Seq::<u8>::empty());
        assert(spec_gathered(state, last) =~= prior + spec_concat_tails(spec_rx_payloads(chunks)));
    } else {
        assert forall|i: int| 0 <= i < init.len() implies (#[trigger] init[i]).sender_addr64
            == sender && init[i].payload.len() > 0 && init[i].payload[0] != 0 by {
            assert(init[i] == chunks[i]);
        }
        lemma_chunks_gathered(state, init, sender);
        let mid = spec_accept_all(state, init).0;
        assert(spec_gathered(mid, last) =~= prior + spec_concat_tails(spec_rx_payloads(chunks)));
        assert(mid.insert(sender, spec_gathered(mid, last)) =~= state.insert(
            sender,
            spec_gathered(mid, last),
        ));
    }
}

/// A run of chunks from one sender makes one datagram: if nothing is
/// buffered for the sender, every chunk carries a payload, and the last
/// chunk is the only one whose payload starts with 0, then taking the chunks
/// in hands out exactly one datagram, the payloads without their first bytes
/// in order, under the short address of the last chunk, and leaves the
/// buffers as they were.
pub proof fn lemma_chunks_make_datagram(
    state: Map<u64, Seq<u8>>,
    chunks: Seq<RXPacketView>,
    sender: u64,
)
    requires
        !state.contains_key(sender),
        chunks.len() > 0,
        forall|i: int|
            0 <= i < chunks.len() ==> (#[trigger] chunks[i]).sender_addr64 == sender
                && chunks[i].payload.len() > 0,
        forall|i: int| 0 <= i < chunks.len() - 1 ==> (#[trigger] chunks[i]).payload[0] != 0,
        chunks.last().payload[0] == 0,
    ensures
        spec_accept_all(state, chunks).1 == seq![
            (sender, chunks.last().sender_addr16, spec_concat_tails(spec_rx_payloads(chunks))),
        ],
        spec_accept_all(state, chunks).0 == state,
{
    let init = chunks.drop_last();
    let last = chunks.last();
    assert(spec_rx_payloads(chunks).drop_last() =~= spec_rx_payloads(init));
    assert(spec_rx_payloads(chunks).last() == last.payload);
    if init.len() == 0 {
        assert(spec_accept_all(state, init).0 == state);
        assert(spec_accept_all(state, init).1 =~= Seq::<(u64, u16, Seq<u8>)>::empty());
        assert(spec_concat_tails(spec_rx_payloads(init)) =~= Seq::<u8>::empty());
        assert(spec_gathered(state, last) =~= spec_concat_tails(spec_rx_payloads(chunks)));
        assert(state.remove(sender) =~= state);
    } else {
        assert forall|i: int| 0 <= i < init.len() implies (#[trigger] init[i]).sender_addr64
            == sender && init[i].payload.len() > 0 && init[i].payload[0] != 0 by {
            assert(init[i] == chunks[i]);
        }
        lemma_chunks_gathered(state, init, sender);
        let mid = spec_accept_all(state, init).0;
        assert(spec_gathered(mid, last) =~= spec_concat_tails(spec_rx_payloads(chunks)));
        assert(mid.remove(sender) =~= state);
    }
    assert(spec_accept_all(state, chunks).1 =~= seq![
        (sender, last.sender_addr16, spec_concat_tails(spec_rx_payloads(chunks))),
    ]);
}

/// Each sender's datagram is its chunks in arrival order, whatever other
/// senders' packets arrive in between.
///
/// Take any stream of packets and a sender with nothing buffered. If the
/// sender's packets in that stream all carry a payload, and the last of
/// them is the only one whose payload starts with 0, then the stream yields
/// exactly one datagram for that sender: the payloads of its packets
/// without their first bytes, in arrival order, under the short address of
/// the last packet. Afterwards nothing is buffered for the sender.
pub proof fn lemma_interleaved_datagram(
    state: Map<u64, Seq<u8>>,
    packets: Seq<RXPacketView>,
    sender: u64,
)
    requires
        !state.contains_key(sender),
        packets.filter(spec_sent_by(sender)).len() > 0,
        forall|i: int|
            0 <= i < packets.filter(spec_sent_by(sender)).len() ==> (#[trigger] packets.filter(
                spec_sent_by(sender),
            )[i]).payload.len() > 0,
        forall|i: int|
            0 <= i < packets.filter(spec_sent_by(sender)).len() - 1 ==> (#[trigger] packets.filter(
                spec_sent_by(sender),
            )[i]).payload[0] != 0,
        packets.filter(spec_sent_by(sender)).last().payload[0] == 0,
    ensures
        spec_accept_all(state, packets).1.filter(spec_came_from(sender)) == seq![
            (
                sender,
                packets.filter(spec_sent_by(sender)).last().sender_addr16,
                spec_concat_tails(spec_rx_payloads(packets.filter(spec_sent_by(sender)))),
            ),
        ],
        !spec_accept_all(state, packets).0.contains_key(sender),
{
    let mine = packets.filter(spec_sent_by(sender));
    lemma_senders_independent(state, packets, sender);
    assert forall|i: int| 0 <= i < mine.len() implies (#[trigger] mine[i]).sender_addr64
        == sender && mine[i].payload.len() > 0 by {
        packets.lemma_filter_pred(spec_sent_by(sender), i);
    }
    lemma_chunks_make_datagram(state, mine, sender);
}

/// What is packetized on one side is the datagram on the other.
///
/// When `data` is not empty and is packetized with room for at least one
/// byte per chunk, and the payloads of the requests arrive in order as
/// receive packets from one sender with nothing buffered, then taking them
/// in hands out exactly one datagram, and it is `data`.
pub proof fn lemma_packetized_datagram_arrives(
    state: Map<u64, Seq<u8>>,
    counter: u8,
    maxpacketsize: usize,
    dest: XBDestAddr,
    data: Seq<u8>,
    disable_xbee_acks: bool,
    request_xbee_tx_reports: bool,
    arrived: Seq<RXPacketView>,
    sender: u64,
)
    requires
        maxpacketsize >= 2,
        data.len() > 0,
        !state.contains_key(sender),
        spec_packetize(
            counter,
            maxpacketsize,
            dest,
            data,
            disable_xbee_acks,
            request_xbee_tx_reports,
        ) is Ok,
        arrived.len() == spec_packetize(
            counter,
            maxpacketsize,
            dest,
            data,
            disable_xbee_acks,
            request_xbee_tx_reports,
        )->Ok_0.len(),
        forall|i: int|
            0 <= i < arrived.len() ==> (#[trigger] arrived[i]).sender_addr64 == sender
                && arrived[i].payload == spec_packetize(
                counter,
                maxpacketsize,
                dest,
                data,
                disable_xbee_acks,
                request_xbee_tx_reports,
            )->Ok_0[i].payload,
    ensures
        arrived.len() > 0,
        spec_accept_all(state, arrived).1 == seq![(sender, arrived.last().sender_addr16, data)],
        spec_accept_all(state, arrived).0 == state,
{
    let requests = spec_packetize(
        counter,
        maxpacketsize,
        dest,
        data,
        disable_xbee_acks,
        request_xbee_tx_reports,
    )->Ok_0;
    lemma_packetize_reassembles(
        counter,
        maxpacketsize,
        dest,
        data,
        disable_xbee_acks,
        request_xbee_tx_reports,
    );
    let n = requests.len() as int;
    assert(n > 0) by {
        if n == 0 {
            assert(0 * (maxpacketsize - 1) == 0) by (nonlinear_arith);
        }
    }
    assert forall|i: int| 0 <= i < n implies (#[trigger] arrived[i]).payload.len() > 0 by {
        assert(requests[i].payload.len() >= 1);
    }
    assert forall|i: int| 0 <= i < n - 1 implies (#[trigger] arrived[i]).payload[0] != 0 by {
        assert(requests[i].payload[0] > 0);
    }
    assert(spec_rx_payloads(arrived) =~= spec_payloads(requests));
    lemma_chunks_make_datagram(state, arrived, sender);
}

/// A frame that was built around an inner frame is found whole at the head
/// of the bytes it makes up, with nothing before it and nothing left over,
/// and its checksum byte is the one the decoder expects.
pub proof fn lemma_frame_found(inner: Seq<u8>)
    requires
        inner.len() <= 0xffff,
    ensures
        spec_junk_len(spec_frame(inner)) == 0,
        spec_frame_ready(spec_frame(inner)),
        spec_frame_len(spec_frame(inner), 0) == inner.len(),
        spec_rx_consumed(spec_frame(inner)) == spec_frame(inner).len(),
        spec_frame(inner).subrange(3, 3 + inner.len() as int) == inner,
        spec_frame(inner)[3 + inner.len() as int] == spec_checksum(inner),
        spec_rx_event(spec_frame(inner)) == spec_decode_frame(inner, spec_checksum(inner)),
{
    let frame = spec_frame(inner);
    lemma_first_index(frame, FRAME_DELIMITER, 0);
    lemma_u16_be_roundtrip(inner.len() as u16);
    assert(frame.subrange(1, 3) =~= spec_u16_be(inner.len() as u16));
    assert(frame.subrange(3, 3 + inner.len() as int) =~= inner);
}

/// A transmit request can be read back from its frame.
///
/// For a 64-bit destination and a payload of 1 to 65 521 bytes, `serialize`
/// gives a frame that the receiving side finds whole and accepts by its
/// checksum. The frame's inner part holds the destination in its 64-bit
/// address field and the payload behind its fourteen header bytes. Being a
/// transmit request and no receive packet, the frame decodes to `Other`.
pub proof fn lemma_tx_frame_reads_back(req: TXRequestView, dest: u64)
    requires
        req.dest_addr == XBDestAddr::U64(dest),
        1 <= req.payload.len() <= 0xffff - TX_HEADER_LEN,
    ensures
        spec_serialize(req) is Ok,
        ({
            let frame = spec_serialize(req)->Ok_0;
            let inner = frame.subrange(3, 3 + spec_frame_len(frame, 0));
            &&& spec_junk_len(frame) == 0
            &&& spec_frame_ready(frame)
            &&& spec_rx_consumed(frame) == frame.len()
            &&& spec_rx_event(frame) == RXEventView::Other
            &&& inner[0] == FRAME_TX_REQUEST
            &&& spec_u64_from_be(inner.subrange(2, 10)) == dest
            &&& inner.skip(TX_HEADER_LEN as int) == req.payload
        }),
{
    let inner = spec_tx_inner(req);
    assert(spec_dest_fields(req.dest_addr).len() == 10);
    lemma_frame_found(inner);
    lemma_u64_be_roundtrip(dest);
    assert(inner.subrange(2, 10) =~= spec_u64_be(dest));
    assert(inner.skip(TX_HEADER_LEN as int) =~= req.payload);
}

/// The inner frame of a receive packet, as the radio lays it out: type,
/// 64-bit sender, 16-bit sender, options, payload.
pub open spec fn spec_rx_inner(packet: RXPacketView) -> Seq<u8> {
    seq![FRAME_RX_PACKET] + spec_u64_be(packet.sender_addr64) + spec_u16_be(packet.sender_addr16)
        + seq![packet.rx_options] + packet.payload
}

/// Decoding undoes the radio's framing: the frame around a receive packet
/// is found whole and decodes to that packet.
pub proof fn lemma_rx_frame_roundtrip(packet: RXPacketView)
    requires
        RX_HEADER_LEN + packet.payload.len() <= 0xffff,
    ensures
        spec_rx_event(spec_frame(spec_rx_inner(packet))) == RXEventView::Packet(packet),
        spec_rx_consumed(spec_frame(spec_rx_inner(packet))) == spec_frame(
            spec_rx_inner(packet),
        ).len(),
        spec_rx_wait(spec_frame(spec_rx_inner(packet))) == (
            spec_frame(spec_rx_inner(packet)).len() as int,
            Some(packet),
        ),
{
    let inner = spec_rx_inner(packet);
    lemma_frame_found(inner);
    lemma_u64_be_roundtrip(packet.sender_addr64);
    lemma_u16_be_roundtrip(packet.sender_addr16);
    assert(inner.subrange(1, 9) =~= spec_u64_be(packet.sender_addr64));
    assert(inner.subrange(9, 11) =~= spec_u16_be(packet.sender_addr16));
    assert(inner.skip(RX_HEADER_LEN as int) =~= packet.payload);
}

} // verus!
