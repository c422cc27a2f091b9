//! The diagnostic drivers: pings sent at an interval, the line shown for
//! each datagram received, and the pong that answers a ping.

use crate::bytebuf::bytes_mut_seq;
use crate::text::{
    decimal_bytes, hex_encode, spec_decimal, spec_hex_encode, spec_utf8_lossy, utf8_lossy,
};
use crate::wire::{spec_u64_be, u64_to_be};
use crate::xb::{XBTXView, XBTX};
use crate::xbpacket::XBDestAddr;
use bytes::{BufMut, BytesMut};
use vstd::prelude::*;
use vstd::slice::slice_subrange;
use vstd::string::StringExecFns;
use vstd::utf8::encode_utf8;

verus! {

/// Seconds between two pings.
pub const INTERVAL: u64 = 5;

/// The bytes of `Ping `.
pub open spec fn spec_ping_prefix() -> Seq<u8> {
    seq![0x50u8, 0x69u8, 0x6eu8, 0x67u8, 0x20u8]
}

/// The bytes of `Pong `.
pub open spec fn spec_pong_prefix() -> Seq<u8> {
    seq![0x50u8, 0x6fu8, 0x6eu8, 0x67u8, 0x20u8]
}

/// Whether a payload starts with `Ping `.
pub open spec fn spec_is_ping(payload: Seq<u8>) -> bool {
    payload.len() >= 5 && payload.take(5) == spec_ping_prefix()
}

/// Makes the ping with the given number for `dest`: the payload is `Ping `
/// and the number in decimal.
pub fn genpings(dest: u64, counter: u64) -> (r: XBTX)
    ensures
        r@ == XBTXView::TXData(
            XBDestAddr::U64(dest),
            spec_ping_prefix() + spec_decimal(counter as nat),
        ),
{
    let prefix: [u8; 5] = [0x50, 0x69, 0x6e, 0x67, 0x20];
    let digits = decimal_bytes(counter);
    let mut payload = BytesMut::new();
    payload.put_slice(prefix.as_slice());
    payload.put_slice(digits.as_slice());
    assert(bytes_mut_seq(payload) =~= spec_ping_prefix() + spec_decimal(counter as nat));
    XBTX::TXData(XBDestAddr::U64(dest), payload.freeze())
}

/// The line shown for a datagram received from `fromu64`: `RECV from `, the
/// sender in sixteen hexadecimal digits, `: `, and the payload as text.
pub fn displaypongs(fromu64: u64, payload: &[u8]) -> (r: String)
    ensures
        r@ == "RECV from "@ + spec_hex_encode(spec_u64_be(fromu64)) + ": "@ + spec_utf8_lossy(
            payload@,
        ),
{
    let sender = u64_to_be(fromu64);
    let hex = hex_encode(sender.as_slice());
    let text = utf8_lossy(payload);
    let mut r = String::from_str("RECV from ");
    r.append(hex.as_str());
    r.append(": ");
    r.append(text.as_str());
    r
}

/// Answers a ping: for a payload that starts with `Ping `, the pong for its
/// sender, whose payload is `Pong ` and the rest of the ping as text. Any
/// other datagram is not answered.
pub fn pong(fromu64: u64, payload: &[u8]) -> (r: Option<XBTX>)
    ensures
        match r {
            Some(reply) => spec_is_ping(payload@) && reply@ == XBTXView::TXData(
                XBDestAddr::U64(fromu64),
                spec_pong_prefix() + encode_utf8(spec_utf8_lossy(payload@.skip(5))),
            ),
            None => !spec_is_ping(payload@),
        },
{
    if payload.len() < 5 || payload[0] != 0x50 || payload[1] != 0x69 || payload[2] != 0x6e
        || payload[3] != 0x67 || payload[4] != 0x20 {
        assert(payload@.len() >= 5 ==> payload@.take(5)[0] == payload@[0] && payload@.take(5)[1]
            == payload@[1] && payload@.take(5)[2] == payload@[2] && payload@.take(5)[3]
            == payload@[3] && payload@.take(5)[4] == payload@[4]);
        return None;
    }
    assert(payload@.take(5) =~= spec_ping_prefix());
    let prefix: [u8; 5] = [0x50, 0x6f, 0x6e, 0x67, 0x20];
    let rest = utf8_lossy(slice_subrange(payload, 5, payload.len()));
    let mut resp = BytesMut::new();
    resp.put_slice(prefix.as_slice());
    resp.put_slice(rest.as_str().as_bytes());
    assert(payload@.subrange(5, payload@.len() as int) =~= payload@.skip(5));
    assert(bytes_mut_seq(resp) =~= spec_pong_prefix() + encode_utf8(
        spec_utf8_lossy(payload@.skip(5)),
    ));
    Some(XBTX::TXData(XBDestAddr::U64(fromu64), resp.freeze()))
}

} // verus!
