//! The Ethernet bridge: which radio a frame from the host goes to, and what
//! the bridge learns from the frames that radios send.

use crate::text::{push_hex_short, spec_hex_short};
use crate::xb::{XBTXView, XBTX};
use crate::xbpacket::{
    lemma_mac48_roundtrip, mac48to64, mac64to48, spec_mac48to64, spec_mac64to48, XBDestAddr,
};
use bytes::Bytes;
use etherparse::{LinkSlice, SlicedPacket};
use std::collections::HashMap;
use std::convert::TryInto;
use vstd::prelude::*;
use vstd::string::StringExecFns;

verus! {

broadcast use vstd::std_specs::hash::group_hash_axioms;

/// The Ethernet broadcast address.
pub const ETHER_BROADCAST: [u8; 6] = [0xff, 0xff, 0xff, 0xff, 0xff, 0xff];

/// The radio broadcast address.
pub const XB_BROADCAST: u64 = 0xffff;

/// Bytes of an Ethernet II header.
pub const ETHER_HEADER_LEN: usize = 14;

/// The two addresses of an Ethernet II header.
#[derive(Clone, Copy, Debug, PartialEq, Eq)]
pub struct EtherAddrs {
    pub destination: [u8; 6],
    pub source: [u8; 6],
}

/// Whether `etherparse::SlicedPacket::from_ethernet` accepts `data` as a
/// frame and finds an Ethernet II header in it.
pub uninterp spec fn spec_ethernet_parses(data: Seq<u8>) -> bool;

/// Slices `data` with `etherparse::SlicedPacket::from_ethernet` and returns
/// the addresses of its Ethernet II header.
///
/// Whether the frame is accepted depends on every header that etherparse
/// finds in it and is named by [`spec_ethernet_parses`]. An accepted frame
/// has at least the fourteen bytes of its Ethernet header, which starts with
/// the destination and goes on with the source.
#[verifier::external_body]
pub(crate) fn ethernet_addrs(data: &[u8]) -> (r: Option<EtherAddrs>)
    ensures
        r is Some <==> spec_ethernet_parses(data@),
        r is Some ==> data@.len() >= ETHER_HEADER_LEN,
        r is Some ==> r->Some_0.destination@ == data@.subrange(0, 6),
        r is Some ==> r->Some_0.source@ == data@.subrange(6, 12),
{
    match SlicedPacket::from_ethernet(data) {
        Ok(packet) => match packet.link {
            Some(LinkSlice::Ethernet2(header)) => Some(
                EtherAddrs {
                    destination: header.destination().try_into().unwrap(),
                    source: header.source().try_into().unwrap(),
                },
            ),
            None => None,
        },
        Err(_) => None,
    }
}

/// The key under which the bridge files an Ethernet address: the address
/// read as a number.
pub open spec fn spec_mac_key(mac: Seq<u8>) -> u64
    recommends
        mac.len() == 6,
{
    spec_mac48to64(mac, 0)
}

/// Different Ethernet addresses are filed under different keys.
pub proof fn lemma_mac_key_injective(a: Seq<u8>, b: Seq<u8>)
    requires
        a.len() == 6,
        b.len() == 6,
        spec_mac_key(a) == spec_mac_key(b),
    ensures
        a == b,
{
    lemma_mac48_roundtrip(a, 0);
    lemma_mac48_roundtrip(b, 0);
}

/// The radio that a frame for `mac` goes to, if it goes anywhere: broadcast
/// when everything is broadcast; else the radio that `mac` was seen at; else
/// broadcast when frames for unknown addresses are broadcast.
pub open spec fn spec_tap_dest(
    broadcast_everything: bool,
    broadcast_unknown: bool,
    dests: Map<u64, u64>,
    mac: Seq<u8>,
) -> Option<u64> {
    if broadcast_everything {
        Some(XB_BROADCAST)
    } else if dests.contains_key(spec_mac_key(mac)) {
        Some(dests[spec_mac_key(mac)])
    } else if broadcast_unknown {
        Some(XB_BROADCAST)
    } else {
        None
    }
}

/// The table after a frame with Ethernet source `source` has come from the
/// radio `fromu64`: unless everything is broadcast, the source is now filed
/// at that radio.
pub open spec fn spec_tap_learn(
    broadcast_everything: bool,
    dests: Map<u64, u64>,
    source: Seq<u8>,
    fromu64: u64,
) -> Map<u64, u64> {
    if broadcast_everything {
        dests
    } else {
        dests.insert(spec_mac_key(source), fromu64)
    }
}

/// An Ethernet address as text: its six bytes in lower-case hexadecimal
/// without padding, with colons between them.
pub open spec fn spec_showmac(mac: Seq<u8>) -> Seq<char>
    recommends
        mac.len() == 6,
{
    spec_hex_short(mac[0]) + seq![':'] + spec_hex_short(mac[1]) + seq![':'] + spec_hex_short(
        mac[2],
    ) + seq![':'] + spec_hex_short(mac[3]) + seq![':'] + spec_hex_short(mac[4]) + seq![':']
        + spec_hex_short(mac[5])
}

/// Writes an Ethernet address as text.
pub fn showmac(mac: &[u8; 6]) -> (r: String)
    ensures
        r@ == spec_showmac(mac@),
{
    proof {
        reveal_strlit(":");
    }
    let mut r = String::new();
    push_hex_short(&mut r, mac[0]);
    r.append(":");
    push_hex_short(&mut r, mac[1]);
    r.append(":");
    push_hex_short(&mut r, mac[2]);
    r.append(":");
    push_hex_short(&mut r, mac[3]);
    r.append(":");
    push_hex_short(&mut r, mac[4]);
    r.append(":");
    push_hex_short(&mut r, mac[5]);
    assert(r@ =~= spec_showmac(mac@));
    r
}

/// Why a frame from the host is not transmitted.
#[derive(Clone, Copy, Debug, PartialEq, Eq, Structural)]
pub enum TapDrop {
    /// The frame could not be parsed as Ethernet.
    Malformed,
    /// The destination has not been seen and unknown destinations are not
    /// broadcast.
    UnknownDestination,
}

/// The Ethernet bridge.
pub struct XBTap {
    /// The Ethernet address of the host's interface.
    pub myethermac: [u8; 6],
    /// The address of the host's radio.
    pub myxbmac: u64,
    /// `myethermac` as text.
    pub myethermacstr: String,
    /// The name of the host's interface.
    pub name: String,
    /// Whether frames for unknown destinations are broadcast.
    pub broadcast_unknown: bool,
    /// Whether every frame is broadcast.
    pub broadcast_everything: bool,
    /// For each Ethernet address that has been seen, filed under its key,
    /// the radio it was last seen at.
    pub dests: HashMap<u64, u64>,
}

impl XBTap {
    /// The bridge for the radio `myxbmac` on the interface `name`. Its
    /// Ethernet address is derived from the radio's address, and its table
    /// holds the broadcast address alone.
    pub fn new_tap(
        myxbmac: u64,
        broadcast_unknown: bool,
        broadcast_everything: bool,
        name: String,
    ) -> (r: XBTap)
        ensures
            r.myxbmac == myxbmac,
            r.myethermac@ == spec_mac64to48(myxbmac),
            r.myethermacstr@ == spec_showmac(spec_mac64to48(myxbmac)),
            r.name == name,
            r.broadcast_unknown == broadcast_unknown,
            r.broadcast_everything == broadcast_everything,
            r.dests@ == Map::<u64, u64>::empty().insert(spec_mac_key(ETHER_BROADCAST@), XB_BROADCAST),
    {
        let myethermac = mac64to48(myxbmac);
        let myethermacstr = showmac(&myethermac);
        let mut desthm: HashMap<u64, u64> = HashMap::new();
        let broadcast = ETHER_BROADCAST;
        desthm.insert(mac48to64(&broadcast, 0), XB_BROADCAST);
        XBTap {
            myxbmac,
            myethermac,
            myethermacstr,
            broadcast_unknown,
            broadcast_everything,
            name,
            dests: desthm,
        }
    }

    /// The radio that a frame for `ethermac` goes to, if it goes anywhere.
    pub fn get_xb_dest_mac(&self, ethermac: &[u8; 6]) -> (r: Option<u64>)
        ensures
            r == spec_tap_dest(
                self.broadcast_everything,
                self.broadcast_unknown,
                self.dests@,
                ethermac@,
            ),
    {
        if self.broadcast_everything {
            return Some(XB_BROADCAST);
        }
        let key = mac48to64(ethermac, 0);
        match self.dests.get(&key) {
            None => if self.broadcast_unknown {
                Some(XB_BROADCAST)
            } else {
                None
            },
            Some(dest) => Some(*dest),
        }
    }

    /// Decides what to do with a frame from the host, given the addresses
    /// found in it: the whole frame goes to the radio of its destination.
    pub fn route(&self, header: Option<EtherAddrs>, tapdata: &[u8]) -> (r: Result<XBTX, TapDrop>)
        ensures
            match header {
                None => r == Err::<XBTX, TapDrop>(TapDrop::Malformed),
                Some(addrs) => match spec_tap_dest(
                    self.broadcast_everything,
                    self.broadcast_unknown,
                    self.dests@,
                    addrs.destination@,
                ) {
                    None => r == Err::<XBTX, TapDrop>(TapDrop::UnknownDestination),
                    Some(dest) => r is Ok && r->Ok_0@ == XBTXView::TXData(
                        XBDestAddr::U64(dest),
                        tapdata@,
                    ),
                },
            },
    {
        match header {
            None => Err(TapDrop::Malformed),
            Some(addrs) => match self.get_xb_dest_mac(&addrs.destination) {
                None => Err(TapDrop::UnknownDestination),
                Some(destxbmac) => Ok(
                    XBTX::TXData(XBDestAddr::U64(destxbmac), Bytes::copy_from_slice(tapdata)),
                ),
            },
        }
    }

    /// Handles a frame that the host wants transmitted: returns the queue
    /// item for it, or the reason why it is dropped.
    pub fn frames_from_tap_processor(&self, tapdata: &[u8]) -> (r: Result<XBTX, TapDrop>)
        ensures
            !spec_ethernet_parses(tapdata@) ==> r == Err::<XBTX, TapDrop>(TapDrop::Malformed),
            spec_ethernet_parses(tapdata@) ==> tapdata@.len() >= ETHER_HEADER_LEN && (match spec_tap_dest(
                self.broadcast_everything,
                self.broadcast_unknown,
                self.dests@,
                tapdata@.subrange(0, 6),
            ) {
                None => r == Err::<XBTX, TapDrop>(TapDrop::UnknownDestination),
                Some(dest) => r is Ok && r->Ok_0@ == XBTXView::TXData(
                    XBDestAddr::U64(dest),
                    tapdata@,
                ),
            }),
    {
        self.route(ethernet_addrs(tapdata), tapdata)
    }

    /// Files the source of a frame that came from the radio `fromu64`,
    /// unless everything is broadcast or no addresses were found in the
    /// frame.
    pub fn learn(&mut self, header: Option<EtherAddrs>, fromu64: u64)
        ensures
            final(self).dests@ == (match header {
                Some(addrs) => spec_tap_learn(
                    old(self).broadcast_everything,
                    old(self).dests@,
                    addrs.source@,
                    fromu64,
                ),
                None => old(self).dests@,
            }),
            final(self).myethermac == old(self).myethermac,
            final(self).myxbmac == old(self).myxbmac,
            final(self).myethermacstr == old(self).myethermacstr,
            final(self).name == old(self).name,
            final(self).broadcast_unknown == old(self).broadcast_unknown,
            final(self).broadcast_everything == old(self).broadcast_everything,
    {
        if let Some(addrs) = header {
            if !self.broadcast_everything {
                self.dests.insert(mac48to64(&addrs.source, 0), fromu64);
            }
        }
    }

    /// Handles a datagram that came from the radio `fromu64`: files its
    /// Ethernet source at that radio. Returns whether the datagram is an
    /// Ethernet frame; it is to be handed to the host either way.
    pub fn frames_from_xb_processor(&mut self, fromu64: u64, payload: &[u8]) -> (wellformed: bool)
        ensures
            wellformed == spec_ethernet_parses(payload@),
            wellformed ==> payload@.len() >= ETHER_HEADER_LEN,
            final(self).dests@ == (if wellformed {
                spec_tap_learn(
                    old(self).broadcast_everything,
                    old(self).dests@,
                    payload@.subrange(6, 12),
                    fromu64,
                )
            } else {
                old(self).dests@
            }),
            final(self).myethermac == old(self).myethermac,
            final(self).myxbmac == old(self).myxbmac,
            final(self).myethermacstr == old(self).myethermacstr,
            final(self).name == old(self).name,
            final(self).broadcast_unknown == old(self).broadcast_unknown,
            final(self).broadcast_everything == old(self).broadcast_everything,
    {
        let header = ethernet_addrs(payload);
        self.learn(header, fromu64);
        header.is_some()
    }
}

/// What the bridge has learned, it uses: once a frame with Ethernet source
/// `mac` has come from the radio `radio`, a frame for `mac` goes to `radio`,
/// unless everything is broadcast.
pub proof fn lemma_tap_learned_route(
    broadcast_unknown: bool,
    dests: Map<u64, u64>,
    mac: Seq<u8>,
    radio: u64,
)
    ensures
        spec_tap_dest(false, broadcast_unknown, spec_tap_learn(false, dests, mac, radio), mac)
            == Some(radio),
{
}

/// Learning one address leaves the routes to all others as they were.
pub proof fn lemma_tap_learn_keeps_others(
    broadcast_everything: bool,
    broadcast_unknown: bool,
    dests: Map<u64, u64>,
    mac: Seq<u8>,
    radio: u64,
    other: Seq<u8>,
)
    requires
        mac.len() == 6,
        other.len() == 6,
        other != mac,
    ensures
        spec_tap_dest(
            broadcast_everything,
            broadcast_unknown,
            spec_tap_learn(broadcast_everything, dests, mac, radio),
            other,
        ) == spec_tap_dest(broadcast_everything, broadcast_unknown, dests, other),
{
    if spec_mac_key(mac) == spec_mac_key(other) {
        lemma_mac_key_injective(mac, other);
    }
}

} // verus!
