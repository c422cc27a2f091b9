//! XBee API frames: the transmit request, the frame envelope with its
//! checksum, the packetizer that splits a datagram into chunks, and the
//! mapping between 64-bit radio addresses and 48-bit Ethernet addresses.

use crate::bytebuf::{bytes_mut_seq, bytes_seq, put_u16, put_u64, put_u8};
use crate::text::{hex_encode, spec_hex_encode};
use crate::wire::{
    lemma_u16_be_roundtrip, spec_u16_be, spec_u16_from_be, spec_u64_be, spec_u64_from_be,
    u16_to_be, u64_to_be,
};
use bytes::{BufMut, Bytes, BytesMut};
use vstd::prelude::*;
use vstd::slice::slice_subrange;
use vstd::string::StringExecFns;

verus! {

/// The byte that opens every API frame.
pub const FRAME_DELIMITER: u8 = 0x7e;

/// Frame type of a transmit request.
pub const FRAME_TX_REQUEST: u8 = 0x10;

/// Frame type of an extended transmit status.
pub const FRAME_TX_STATUS: u8 = 0x8b;

/// Frame type of a receive packet.
pub const FRAME_RX_PACKET: u8 = 0x90;

/// Bytes of a transmit request's inner frame that precede the payload.
pub const TX_HEADER_LEN: usize = 14;

/// The most chunks one datagram may be split into.
pub const MAX_CHUNKS: usize = 255;

/// The destination of a transmission: a 16-bit or a 64-bit radio address.
#[derive(Clone, Copy, Debug, PartialEq, Eq, Structural)]
pub enum XBDestAddr {
    /// A 16-bit destination. The frame's 64-bit field is then all ones.
    U16(u16),
    /// A 64-bit destination, `0xFFFF` for broadcast. The frame's 16-bit field
    /// is then `0xFFFE`.
    U64(u64),
}

impl XBDestAddr {
    /// The address for the log: the width of the address and its bytes in
    /// hexadecimal, as in `U64(0013a20040123456)`.
    pub fn debug_string(&self) -> (r: String)
        ensures
            r@ == (match *self {
                XBDestAddr::U16(x) => "U16("@ + spec_hex_encode(spec_u16_be(x)) + ")"@,
                XBDestAddr::U64(x) => "U64("@ + spec_hex_encode(spec_u64_be(x)) + ")"@,
            }),
    {
        match self {
            XBDestAddr::U16(x) => {
                let bytes = u16_to_be(*x);
                let mut r = String::from_str("U16(");
                r.append(hex_encode(bytes.as_slice()).as_str());
                r.append(")");
                r
            },
            XBDestAddr::U64(x) => {
                let bytes = u64_to_be(*x);
                let mut r = String::from_str("U64(");
                r.append(hex_encode(bytes.as_slice()).as_str());
                r.append(")");
                r
            },
        }
    }
}

/// Why a transmit request could not be put on the wire.
#[derive(Clone, Copy, Debug, PartialEq, Eq, Structural)]
pub enum TXGenError {
    /// The payload is empty, the inner frame does not fit the 16-bit length
    /// field, or a datagram needs more than 255 chunks.
    InvalidLen,
}

/// A transmit request, frame type 0x10.
#[derive(Debug, PartialEq, Eq)]
pub struct XBTXRequest {
    /// Echoed in the radio's status frame; 0 asks for no status frame.
    pub frame_id: u8,
    /// Where the payload goes.
    pub dest_addr: XBDestAddr,
    /// Hops a broadcast may travel; 0 leaves it to the radio's setting.
    pub broadcast_radius: u8,
    /// Transmit option bits; 0 leaves them to the radio's setting.
    pub transmit_options: u8,
    /// The payload, at least one byte.
    pub payload: Bytes,
}

/// A transmit request as plain values.
pub struct TXRequestView {
    pub frame_id: u8,
    pub dest_addr: XBDestAddr,
    pub broadcast_radius: u8,
    pub transmit_options: u8,
    pub payload: Seq<u8>,
}

impl View for XBTXRequest {
    type V = TXRequestView;

    open spec fn view(&self) -> TXRequestView {
        TXRequestView {
            frame_id: self.frame_id,
            dest_addr: self.dest_addr,
            broadcast_radius: self.broadcast_radius,
            transmit_options: self.transmit_options,
            payload: bytes_seq(self.payload),
        }
    }
}

/// A receive packet, frame type 0x90.
#[derive(Debug, PartialEq, Eq)]
pub struct RXPacket {
    pub sender_addr64: u64,
    pub sender_addr16: u16,
    pub rx_options: u8,
    pub payload: Bytes,
}

/// A receive packet as plain values.
pub struct RXPacketView {
    pub sender_addr64: u64,
    pub sender_addr16: u16,
    pub rx_options: u8,
    pub payload: Seq<u8>,
}

impl View for RXPacket {
    type V = RXPacketView;

    open spec fn view(&self) -> RXPacketView {
        RXPacketView {
            sender_addr64: self.sender_addr64,
            sender_addr16: self.sender_addr16,
            rx_options: self.rx_options,
            payload: bytes_seq(self.payload),
        }
    }
}

/// An extended transmit status, frame type 0x8B.
#[derive(Clone, Copy, Debug, PartialEq, Eq, Structural)]
pub struct ExtTxStatus {
    pub frame_id: u8,
    pub dest_addr_16: u16,
    pub tx_retry_count: u8,
    pub delivery_status: u8,
    pub discovery_status: u8,
}

/// The sum of the bytes of `data`.
pub open spec fn spec_byte_sum(data: Seq<u8>) -> int
    decreases data.len(),
{
    if data.len() == 0 {
        0
    } else {
        spec_byte_sum(data.drop_last()) + data.last()
    }
}

/// The checksum of an inner frame: `0xFF` less the byte sum modulo 256.
pub open spec fn spec_checksum(data: Seq<u8>) -> u8 {
    (0xff - spec_byte_sum(data) % 256) as u8
}

/// The ten address bytes of a transmit request: the 64-bit field, then the
/// 16-bit field. The field that the caller did not choose holds its
/// placeholder.
pub open spec fn spec_dest_fields(dest: XBDestAddr) -> Seq<u8> {
    match dest {
        XBDestAddr::U16(d) => spec_u64_be(0xffff_ffff_ffff_ffff) + spec_u16_be(d),
        XBDestAddr::U64(d) => spec_u64_be(d) + spec_u16_be(0xfffe),
    }
}

/// The inner frame of a transmit request: type, frame id, addresses,
/// radius, options, payload.
pub open spec fn spec_tx_inner(req: TXRequestView) -> Seq<u8> {
    seq![FRAME_TX_REQUEST, req.frame_id] + spec_dest_fields(req.dest_addr) + seq![
        req.broadcast_radius,
        req.transmit_options,
    ] + req.payload
}

/// The frame around `inner`: delimiter, 16-bit length of `inner`, `inner`,
/// checksum of `inner`.
pub open spec fn spec_frame(inner: Seq<u8>) -> Seq<u8>
    recommends
        inner.len() <= 0xffff,
{
    seq![FRAME_DELIMITER] + spec_u16_be(inner.len() as u16) + inner + seq![spec_checksum(inner)]
}

/// What serializing `req` gives: the frame, or `InvalidLen` for an empty
/// payload or an inner frame longer than 65 535 bytes.
pub open spec fn spec_serialize(req: TXRequestView) -> Result<Seq<u8>, TXGenError> {
    if req.payload.len() == 0 || TX_HEADER_LEN + req.payload.len() > 0xffff {
        Err(TXGenError::InvalidLen)
    } else {
        Ok(spec_frame(spec_tx_inner(req)))
    }
}

/// The byte sum of a sequence extended by one byte.
proof fn lemma_byte_sum_push(data: Seq<u8>, b: u8)
    ensures
        spec_byte_sum(data.push(b)) == spec_byte_sum(data) + b,
{
    assert(data.push(b).drop_last() =~= data);
}

/// Calculates the XBee checksum of an inner frame.
pub fn xbchecksum(data: &[u8]) -> (r: u8)
    ensures
        r == spec_checksum(data@),
{
    let mut sum: u8 = 0;
    let mut i: usize = 0;
    while i < data.len()
        invariant
            i <= data.len(),
            sum as int == spec_byte_sum(data@.take(i as int)) % 256,
        decreases data.len() - i,
    {
        proof {
            assert(data@.take(i + 1) =~= data@.take(i as int).push(data@[i as int]));
            lemma_byte_sum_push(data@.take(i as int), data@[i as int]);
        }
        sum = sum.wrapping_add(data[i]);
        i += 1;
    }
    assert(data@.take(i as int) =~= data@);
    0xff - sum
}

impl XBTXRequest {
    /// Builds the frame for this request.
    pub fn serialize(&self) -> (r: Result<Bytes, TXGenError>)
        ensures
            match r {
                Ok(frame) => spec_serialize(self@) == Ok::<Seq<u8>, TXGenError>(bytes_seq(frame)),
                Err(e) => spec_serialize(self@) == Err::<Seq<u8>, TXGenError>(e),
            },
    {
        if self.payload.is_empty() || self.payload.len() > 0xffff - TX_HEADER_LEN {
            return Err(TXGenError::InvalidLen);
        }
        let mut innerframe = BytesMut::new();
        put_u8(&mut innerframe, FRAME_TX_REQUEST);
        put_u8(&mut innerframe, self.frame_id);
        match self.dest_addr {
            XBDestAddr::U16(dest) => {
                put_u64(&mut innerframe, 0xffff_ffff_ffff_ffffu64);
                put_u16(&mut innerframe, dest);
            },
            XBDestAddr::U64(dest) => {
                put_u64(&mut innerframe, dest);
                put_u16(&mut innerframe, 0xfffeu16);
            },
        }
        put_u8(&mut innerframe, self.broadcast_radius);
        put_u8(&mut innerframe, self.transmit_options);
        innerframe.put_slice(self.payload.as_ref());
        assert(bytes_mut_seq(innerframe) =~= spec_tx_inner(self@));

        let len = innerframe.len();
        let mut fullframe = BytesMut::new();
        put_u8(&mut fullframe, FRAME_DELIMITER);
        put_u16(&mut fullframe, len as u16);
        fullframe.put_slice(innerframe.as_ref());
        put_u8(&mut fullframe, xbchecksum(innerframe.as_ref()));
        assert(bytes_mut_seq(fullframe) =~= spec_frame(spec_tx_inner(self@)));
        Ok(fullframe.freeze())
    }
}

/// The 48-bit Ethernet address that stands for a radio address: its low six
/// bytes.
pub open spec fn spec_mac64to48(mac64: u64) -> Seq<u8> {
    spec_u64_be(mac64).subrange(2, 8)
}

/// The radio address that a 48-bit Ethernet address stands for: the six
/// bytes below the top sixteen bits of `pattern64`.
pub open spec fn spec_mac48to64(mac48: Seq<u8>, pattern64: u64) -> u64
    recommends
        mac48.len() == 6,
{
    spec_u64_from_be(seq![0u8, 0u8] + mac48) | (pattern64 & 0xffff_0000_0000_0000)
}

/// Returns the 48-bit address for a 64-bit radio address, dropping its two
/// most significant bytes.
pub fn mac64to48(mac64: u64) -> (r: [u8; 6])
    ensures
        r@ == spec_mac64to48(mac64),
{
    let b = u64_to_be(mac64);
    let r = [b[2], b[3], b[4], b[5], b[6], b[7]];
    assert(r@ =~= spec_mac64to48(mac64));
    r
}

/// Returns the 64-bit radio address for a 48-bit address. The sixteen most
/// significant bits are taken from `pattern64`.
pub fn mac48to64(mac48: &[u8; 6], pattern64: u64) -> (r: u64)
    ensures
        r == spec_mac48to64(mac48@, pattern64),
{
    let b0 = mac48[0];
    let b1 = mac48[1];
    let b2 = mac48[2];
    let b3 = mac48[3];
    let b4 = mac48[4];
    let b5 = mac48[5];
    let low = (b0 as u64) << 40 | (b1 as u64) << 32 | (b2 as u64) << 24 | (b3 as u64) << 16 | (
    b4 as u64) << 8 | (b5 as u64);
    proof {
        let s = seq![0u8, 0u8] + mac48@;
        assert(s[0] == 0 && s[1] == 0 && s[2] == b0 && s[3] == b1 && s[4] == b2 && s[5] == b3
            && s[6] == b4 && s[7] == b5);
        assert((0u8 as u64) << 56 | (0u8 as u64) << 48 | (b0 as u64) << 40 | (b1 as u64) << 32 | (
        b2 as u64) << 24 | (b3 as u64) << 16 | (b4 as u64) << 8 | (b5 as u64) == (b0 as u64) << 40
            | (b1 as u64) << 32 | (b2 as u64) << 24 | (b3 as u64) << 16 | (b4 as u64) << 8 | (
        b5 as u64)) by (bit_vector);
    }
    low | (pattern64 & 0xffff_0000_0000_0000)
}

/// A radio address survives the trip through its 48-bit form when it serves
/// as its own pattern.
pub proof fn lemma_mac64_roundtrip(mac64: u64)
    ensures
        spec_mac64to48(mac64).len() == 6,
        spec_mac48to64(spec_mac64to48(mac64), mac64) == mac64,
{
    let m = spec_mac64to48(mac64);
    let s = seq![0u8, 0u8] + m;
    assert(s[0] == 0 && s[1] == 0 && s[2] == m[0] && s[3] == m[1] && s[4] == m[2] && s[5] == m[3]
        && s[6] == m[4] && s[7] == m[5]);
    let n = mac64;
    assert(((0u8 as u64) << 56 | (0u8 as u64) << 48 | ((((n >> 40) & 0xff) as u8) as u64) << 40 | (
    (((n >> 32) & 0xff) as u8) as u64) << 32 | ((((n >> 24) & 0xff) as u8) as u64) << 24 | ((((n
        >> 16) & 0xff) as u8) as u64) << 16 | ((((n >> 8) & 0xff) as u8) as u64) << 8 | (((n
        & 0xff) as u8) as u64)) | (n & 0xffff_0000_0000_0000) == n) by (bit_vector);
}

/// A 48-bit address survives the trip through a radio address, whatever the
/// pattern.
pub proof fn lemma_mac48_roundtrip(mac48: Seq<u8>, pattern64: u64)
    requires
        mac48.len() == 6,
    ensures
        spec_mac64to48(spec_mac48to64(mac48, pattern64)) == mac48,
{
    let s = seq![0u8, 0u8] + mac48;
    assert(s[0] == 0 && s[1] == 0 && s[2] == mac48[0] && s[3] == mac48[1] && s[4] == mac48[2]
        && s[5] == mac48[3] && s[6] == mac48[4] && s[7] == mac48[5]);
    let b0 = mac48[0];
    let b1 = mac48[1];
    let b2 = mac48[2];
    let b3 = mac48[3];
    let b4 = mac48[4];
    let b5 = mac48[5];
    let n = spec_mac48to64(mac48, pattern64);
    assert(((n >> 40) & 0xff) as u8 == b0 && ((n >> 32) & 0xff) as u8 == b1 && ((n >> 24)
        & 0xff) as u8 == b2 && ((n >> 16) & 0xff) as u8 == b3 && ((n >> 8) & 0xff) as u8 == b4 && (
    n & 0xff) as u8 == b5) by (bit_vector)
        requires
            n == ((0u8 as u64) << 56 | (0u8 as u64) << 48 | (b0 as u64) << 40 | (b1 as u64) << 32
                | (b2 as u64) << 24 | (b3 as u64) << 16 | (b4 as u64) << 8 | (b5 as u64)) | (
            pattern64 & 0xffff_0000_0000_0000),
    ;
    assert(spec_mac64to48(n) =~= mac48);
}

/// How many chunks of at most `chunk` bytes cover `len` bytes: `len / chunk`
/// rounded up.
pub open spec fn spec_chunk_count(len: int, chunk: int) -> int
    recommends
        len >= 0,
        chunk >= 1,
{
    if len <= 0 {
        0
    } else {
        (len - 1) / chunk + 1
    }
}

/// The `i`-th piece of `data` when it is cut every `chunk` bytes.
pub open spec fn spec_chunk(data: Seq<u8>, chunk: int, i: int) -> Seq<u8>
    recommends
        chunk >= 1,
        0 <= i < spec_chunk_count(data.len() as int, chunk),
{
    data.subrange(
        i * chunk,
        if (i + 1) * chunk < data.len() {
            (i + 1) * chunk
        } else {
            data.len() as int
        },
    )
}

/// The frame id that a stream at `first` hands out after `i` earlier ones:
/// ids count upwards and go from 255 back to 1, never to 0.
pub open spec fn spec_frame_id_at(first: u8, i: int) -> u8
    recommends
        first >= 1,
        i >= 0,
{
    ((first - 1 + i) % 255 + 1) as u8
}

/// The `i`-th transmit request for `data`: the count of chunks still to
/// come, then the `i`-th piece.
pub open spec fn spec_chunk_request(
    counter: u8,
    chunk: int,
    dest: XBDestAddr,
    data: Seq<u8>,
    disable_xbee_acks: bool,
    request_xbee_tx_reports: bool,
    i: int,
) -> TXRequestView {
    TXRequestView {
        frame_id: if request_xbee_tx_reports {
            spec_frame_id_at(counter, i)
        } else {
            0
        },
        dest_addr: dest,
        broadcast_radius: 0,
        transmit_options: if disable_xbee_acks {
            0x01
        } else {
            0
        },
        payload: seq![(spec_chunk_count(data.len() as int, chunk) - i - 1) as u8] + spec_chunk(
            data,
            chunk,
            i,
        ),
    }
}

/// What packetizing `data` gives. No data gives no request. Otherwise the
/// data is cut every `maxpacketsize - 1` bytes; that is refused when no byte
/// fits beside the chunk header or when more than 255 chunks are needed.
pub open spec fn spec_packetize(
    counter: u8,
    maxpacketsize: usize,
    dest: XBDestAddr,
    data: Seq<u8>,
    disable_xbee_acks: bool,
    request_xbee_tx_reports: bool,
) -> Result<Seq<TXRequestView>, TXGenError> {
    let chunk = maxpacketsize - 1;
    if data.len() == 0 {
        Ok(Seq::empty())
    } else if chunk < 1 || spec_chunk_count(data.len() as int, chunk) > MAX_CHUNKS {
        Err(TXGenError::InvalidLen)
    } else {
        Ok(
            Seq::new(
                spec_chunk_count(data.len() as int, chunk) as nat,
                |i: int|
                    spec_chunk_request(
                        counter,
                        chunk,
                        dest,
                        data,
                        disable_xbee_acks,
                        request_xbee_tx_reports,
                        i,
                    ),
            ),
        )
    }
}

/// The requests of `packets` as plain values.
pub open spec fn spec_request_views(packets: Seq<XBTXRequest>) -> Seq<TXRequestView> {
    Seq::new(packets.len(), |i: int| packets[i]@)
}

/// Chunk `i` starts inside the data, and only the last chunk reaches its end.
proof fn lemma_chunk_bounds(len: int, chunk: int, i: int)
    requires
        len > 0,
        chunk >= 1,
        0 <= i < spec_chunk_count(len, chunk),
    ensures
        0 <= i * chunk < len,
        i + 1 < spec_chunk_count(len, chunk) ==> (i + 1) * chunk < len,
        i + 1 == spec_chunk_count(len, chunk) ==> (i + 1) * chunk >= len,
        (i + 1) * chunk == i * chunk + chunk,
{
    let q = (len - 1) / chunk;
    assert(q * chunk <= len - 1 < (q + 1) * chunk && q >= 0) by (nonlinear_arith)
        requires
            q == (len - 1) / chunk,
            chunk >= 1,
            len >= 1,
    ;
    assert(0 <= i * chunk <= q * chunk) by (nonlinear_arith)
        requires
            0 <= i <= q,
            chunk >= 1,
    ;
    assert((i + 1) * chunk == i * chunk + chunk) by (nonlinear_arith);
    if i + 1 < q + 1 {
        assert((i + 1) * chunk <= q * chunk) by (nonlinear_arith)
            requires
                i + 1 <= q,
                chunk >= 1,
        ;
    }
}

/// Stepping once from the `i`-th frame id gives the next one.
proof fn lemma_frame_id_step(first: u8, i: int)
    requires
        first >= 1,
        i >= 0,
    ensures
        spec_frame_id_at(first, i) >= 1,
        spec_frame_id_at(first, 0) == first,
        spec_frame_id_at(spec_frame_id_at(first, i), 1) == spec_frame_id_at(first, i + 1),
{
}

/// Hands out frame ids and cuts datagrams into transmit requests.
pub struct PacketStream {
    /// The next frame id to hand out, never 0.
    framecounter: u8,
}

impl PacketStream {
    #[verifier::type_invariant]
    spec fn inv(&self) -> bool {
        self.framecounter >= 1
    }

    /// The next frame id that the stream will hand out.
    pub closed spec fn counter(&self) -> u8 {
        self.framecounter
    }

    /// A stream whose first frame id is 1.
    pub fn new() -> (r: Self)
        ensures
            r.counter() == 1,
    {
        PacketStream { framecounter: 1 }
    }

    /// Returns the next frame id and steps past it; 255 is followed by 1.
    pub fn get_and_incr_framecounter(&mut self) -> (r: u8)
        ensures
            r == old(self).counter(),
            r >= 1,
            final(self).counter() == spec_frame_id_at(r, 1),
    {
        proof {
            use_type_invariant(&*self);
        }
        let retval = self.framecounter;
        if self.framecounter == u8::MAX {
            self.framecounter = 1;
        } else {
            self.framecounter += 1;
        }
        retval
    }

    /// Cuts `data` into transmit requests for `dest`.
    ///
    /// Each request's payload starts with the number of requests that follow
    /// it for the same datagram, so the last one starts with 0. The rest of
    /// the payload is at most `maxpacketsize - 1` bytes of `data`. With
    /// `request_xbee_tx_reports` each request takes the stream's next frame
    /// id, otherwise its frame id is 0. Empty `data` gives no request.
    pub fn packetize_data(
        &mut self,
        maxpacketsize: usize,
        dest: &XBDestAddr,
        data: &[u8],
        disable_xbee_acks: bool,
        request_xbee_tx_reports: bool,
    ) -> (r: Result<Vec<XBTXRequest>, TXGenError>)
        ensures
            match r {
                Ok(packets) => spec_packetize(
                    old(self).counter(),
                    maxpacketsize,
                    *dest,
                    data@,
                    disable_xbee_acks,
                    request_xbee_tx_reports,
                ) == Ok::<Seq<TXRequestView>, TXGenError>(spec_request_views(packets@)),
                Err(e) => spec_packetize(
                    old(self).counter(),
                    maxpacketsize,
                    *dest,
                    data@,
                    disable_xbee_acks,
                    request_xbee_tx_reports,
                ) == Err::<Seq<TXRequestView>, TXGenError>(e),
            },
            final(self).counter() == (match r {
                Ok(packets) if request_xbee_tx_reports => spec_frame_id_at(
                    old(self).counter(),
                    packets.len() as int,
                ),
                _ => old(self).counter(),
            }),
    {
        proof {
            use_type_invariant(&*self);
        }
        let mut retval: Vec<XBTXRequest> = Vec::new();
        if data.len() == 0 {
            assert(spec_request_views(retval@) =~= Seq::<TXRequestView>::empty());
            proof {
                lemma_frame_id_step(self.counter(), 0);
            }
            return Ok(retval);
        }
        if maxpacketsize < 2 {
            return Err(TXGenError::InvalidLen);
        }
        let chunk: usize = maxpacketsize - 1;
        let count: usize = (data.len() - 1) / chunk + 1;
        if count > MAX_CHUNKS {
            return Err(TXGenError::InvalidLen);
        }
        let ghost first = self.counter();
        let ghost expected = spec_packetize(
            first,
            maxpacketsize,
            *dest,
            data@,
            disable_xbee_acks,
            request_xbee_tx_reports,
        )->Ok_0;
        let mut i: usize = 0;
        let mut offset: usize = 0;
        proof {
            lemma_frame_id_step(first, 0);
        }
        while i < count
            invariant
                data@.len() > 0,
                chunk == maxpacketsize - 1,
                chunk >= 1,
                count == spec_chunk_count(data@.len() as int, chunk as int),
                count <= MAX_CHUNKS,
                i <= count,
                i < count ==> offset == i * chunk,
                first >= 1,
                self.counter() == (if request_xbee_tx_reports {
                    spec_frame_id_at(first, i as int)
                } else {
                    first
                }),
                expected.len() == count,
                forall|k: int|
                    0 <= k < count ==> #[trigger] expected[k] == spec_chunk_request(
                        first,
                        chunk as int,
                        *dest,
                        data@,
                        disable_xbee_acks,
                        request_xbee_tx_reports,
                        k,
                    ),
                retval@.len() == i,
                forall|k: int| 0 <= k < i ==> (#[trigger] retval@[k])@ == expected[k],
            decreases count - i,
        {
            proof {
                lemma_chunk_bounds(data@.len() as int, chunk as int, i as int);
                lemma_frame_id_step(first, i as int);
            }
            let end: usize = if data.len() - offset > chunk {
                offset + chunk
            } else {
                data.len()
            };
            let piece = slice_subrange(data, offset, end);
            let mut payload = BytesMut::new();
            put_u8(&mut payload, (count - i - 1) as u8);
            payload.put_slice(piece);
            let frame_id = if request_xbee_tx_reports {
                self.get_and_incr_framecounter()
            } else {
                0
            };
            let packet = XBTXRequest {
                frame_id,
                dest_addr: *dest,
                broadcast_radius: 0,
                transmit_options: if disable_xbee_acks {
                    0x01
                } else {
                    0
                },
                payload: payload.freeze(),
            };
            assert(packet@.payload =~= expected[i as int].payload);
            retval.push(packet);
            proof {
                if i + 1 < count {
                    lemma_chunk_bounds(data@.len() as int, chunk as int, i + 1);
                }
            }
            offset = end;
            i += 1;
        }
        assert(spec_request_views(retval@) =~= expected);
        Ok(retval)
    }
}

/// What a receiver rebuilds from the payloads of a run of chunks: every
/// payload without its first byte, one after the other.
pub open spec fn spec_concat_tails(payloads: Seq<Seq<u8>>) -> Seq<u8>
    decreases payloads.len(),
{
    if payloads.len() == 0 {
        Seq::empty()
    } else {
        spec_concat_tails(payloads.drop_last()) + payloads.last().skip(1)
    }
}

/// The payloads of `packets`, in order.
pub open spec fn spec_payloads(packets: Seq<TXRequestView>) -> Seq<Seq<u8>> {
    Seq::new(packets.len(), |i: int| packets[i].payload)
}

/// The tails of the first `k` chunk payloads make up the first `k` pieces of
/// the data.
proof fn lemma_concat_prefix(data: Seq<u8>, chunk: int, payloads: Seq<Seq<u8>>, k: int)
    requires
        data.len() > 0,
        chunk >= 1,
        payloads.len() == spec_chunk_count(data.len() as int, chunk),
        forall|i: int|
            0 <= i < payloads.len() ==> (#[trigger] payloads[i]).len() >= 1 && payloads[i].skip(1)
                == spec_chunk(data, chunk, i),
        0 <= k <= payloads.len(),
    ensures
        spec_concat_tails(payloads.take(k)) == data.take(
            if k * chunk < data.len() {
                k * chunk
            } else {
                data.len() as int
            },
        ),
    decreases k,
{
    if k == 0 {
        assert(0 * chunk == 0) by (nonlinear_arith);
        assert(payloads.take(0) =~= Seq::<Seq<u8>>::empty());
        assert(data.take(0) =~= Seq::<u8>::empty());
    } else {
        lemma_concat_prefix(data, chunk, payloads, k - 1);
        lemma_chunk_bounds(data.len() as int, chunk, k - 1);
        assert(payloads.take(k).drop_last() =~= payloads.take(k - 1));
        assert(payloads.take(k).last() == payloads[k - 1]);
        let upto = if k * chunk < data.len() {
            k * chunk
        } else {
            data.len() as int
        };
        assert(data.take((k - 1) * chunk) + spec_chunk(data, chunk, k - 1) =~= data.take(upto));
    }
}

/// The chunks of a datagram carry the whole datagram and count down to zero.
///
/// When `data` is packetized with room for at least one byte per chunk, the
/// payloads without their first bytes, put end to end, are `data`; the number
/// of requests is `data.len() / (maxpacketsize - 1)` rounded up and at most
/// 255; the last payload starts with 0 and every earlier one with a larger
/// number. The only refusal is for a datagram that needs more than 255
/// chunks.
pub proof fn lemma_packetize_reassembles(
    counter: u8,
    maxpacketsize: usize,
    dest: XBDestAddr,
    data: Seq<u8>,
    disable_xbee_acks: bool,
    request_xbee_tx_reports: bool,
)
    requires
        maxpacketsize >= 2,
    ensures
        match spec_packetize(
            counter,
            maxpacketsize,
            dest,
            data,
            disable_xbee_acks,
            request_xbee_tx_reports,
        ) {
            Ok(packets) => {
                let n = packets.len() as int;
                let chunk = maxpacketsize - 1;
                &&& spec_concat_tails(spec_payloads(packets)) == data
                &&& n <= MAX_CHUNKS
                &&& n * chunk >= data.len()
                &&& n > 0 ==> data.len() > (n - 1) * chunk
                &&& forall|i: int|
                    0 <= i < n ==> 1 <= (#[trigger] packets[i]).payload.len() <= maxpacketsize
                &&& n > 0 ==> packets[n - 1].payload[0] == 0
                &&& forall|i: int| 0 <= i < n - 1 ==> (#[trigger] packets[i]).payload[0] > 0
            },
            Err(e) => e == TXGenError::InvalidLen && spec_chunk_count(
                data.len() as int,
                maxpacketsize - 1,
            ) > MAX_CHUNKS,
        },
{
    let chunk = maxpacketsize - 1;
    let count = spec_chunk_count(data.len() as int, chunk);
    if data.len() == 0 {
        assert(spec_payloads(Seq::<TXRequestView>::empty()) =~= Seq::<Seq<u8>>::empty());
        assert(0 * chunk == 0) by (nonlinear_arith);
    } else if count <= MAX_CHUNKS {
        let packets = spec_packetize(
            counter,
            maxpacketsize,
            dest,
            data,
            disable_xbee_acks,
            request_xbee_tx_reports,
        )->Ok_0;
        let payloads = spec_payloads(packets);
        assert forall|i: int| 0 <= i < count implies (#[trigger] payloads[i]).len() >= 1
            && payloads[i].skip(1) == spec_chunk(data, chunk, i) && payloads[i].len()
            <= maxpacketsize && payloads[i][0] == count - i - 1 by {
            lemma_chunk_bounds(data.len() as int, chunk, i);
            assert(payloads[i] == packets[i].payload);
            assert(payloads[i].skip(1) =~= spec_chunk(data, chunk, i));
        }
        lemma_concat_prefix(data, chunk, payloads, count);
        lemma_chunk_bounds(data.len() as int, chunk, count - 1);
        assert(payloads.take(count) =~= payloads);
        assert(data.take(data.len() as int) =~= data);
        assert forall|i: int| 0 <= i < count implies 1 <= (#[trigger] packets[i]).payload.len()
            <= maxpacketsize by {
            assert(payloads[i] == packets[i].payload);
        }
        assert(packets[count - 1].payload == payloads[count - 1]);
        assert forall|i: int| 0 <= i < count - 1 implies (#[trigger] packets[i]).payload[0]
            > 0 by {
            assert(payloads[i] == packets[i].payload);
        }
    }
}

/// Every frame that `serialize` emits is laid out as the radio expects: the
/// delimiter, the length of the inner frame, the inner frame, and a last
/// byte equal to `0xFF` less the byte sum of the inner frame modulo 256.
pub proof fn lemma_serialized_frame_layout(req: TXRequestView)
    requires
        spec_serialize(req) is Ok,
    ensures
        ({
            let frame = spec_serialize(req)->Ok_0;
            let inner = frame.subrange(3, frame.len() - 1);
            &&& frame.len() == TX_HEADER_LEN + req.payload.len() + 4
            &&& frame[0] == FRAME_DELIMITER
            &&& spec_u16_from_be(frame.subrange(1, 3)) == inner.len()
            &&& inner == spec_tx_inner(req)
            &&& frame.last() == 0xff - spec_byte_sum(inner) % 256
        }),
{
    let inner = spec_tx_inner(req);
    let frame = spec_frame(inner);
    assert(spec_dest_fields(req.dest_addr).len() == 10);
    assert(inner.len() == TX_HEADER_LEN + req.payload.len());
    lemma_u16_be_roundtrip(inner.len() as u16);
    assert(frame.subrange(1, 3) =~= spec_u16_be(inner.len() as u16));
    assert(frame.subrange(3, frame.len() - 1) =~= inner);
}

} // verus!
