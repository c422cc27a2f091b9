//! The IP bridge: which radio a datagram from the host goes to, and what the
//! bridge learns from the datagrams that radios send. What it learns is
//! forgotten after a time.
//!
//! Instants and spans of time are counted in ticks of a clock that never
//! runs backwards; the caller chooses the tick.

use crate::wire::{spec_u128_from_be, spec_u32_from_be};
use crate::xb::{XBTXView, XBTX};
use crate::xbpacket::XBDestAddr;
use bytes::Bytes;
use etherparse::{InternetSlice, SlicedPacket};
use std::collections::HashMap;
use vstd::prelude::*;

verus! {

broadcast use vstd::std_specs::hash::group_hash_axioms;

/// The radio broadcast address.
pub const XB_BROADCAST: u64 = 0xffff;

/// Bytes of an IPv4 header without options.
pub const IPV4_HEADER_LEN: usize = 20;

/// Bytes of an IPv6 header without extensions.
pub const IPV6_HEADER_LEN: usize = 40;

/// An IP address, read as a number with its first byte most significant.
#[derive(Clone, Copy, Debug, PartialEq, Eq, Structural)]
pub enum XBIpAddr {
    /// An IPv4 address.
    V4(u32),
    /// An IPv6 address.
    V6(u128),
}

/// The source and the destination that `etherparse::SlicedPacket::from_ip`
/// finds in `data`, if it accepts `data` as an IP datagram.
pub uninterp spec fn spec_extract_ips(data: Seq<u8>) -> Option<(XBIpAddr, XBIpAddr)>;

/// Slices `data` with `etherparse::SlicedPacket::from_ip` and returns the
/// source and the destination address of its IP header.
///
/// Whether the datagram is accepted depends on every header that etherparse
/// finds in it; the result is named by [`spec_extract_ips`]. An accepted
/// datagram starts with version nibble 4 and a header of at least twenty
/// bytes that holds the source at byte 12 and the destination at byte 16, or
/// with version nibble 6 and a header of forty bytes that holds the source
/// at byte 8 and the destination at byte 24.
#[verifier::external_body]
pub fn extract_ips(data: &[u8]) -> (r: Option<(XBIpAddr, XBIpAddr)>)
    ensures
        r == spec_extract_ips(data@),
        r is Some ==> (match r->Some_0 {
            (XBIpAddr::V4(source), XBIpAddr::V4(destination)) => data@.len() >= IPV4_HEADER_LEN
                && data@[0] >> 4 == 4 && source == spec_u32_from_be(data@.subrange(12, 16))
                && destination == spec_u32_from_be(data@.subrange(16, 20)),
            (XBIpAddr::V6(source), XBIpAddr::V6(destination)) => data@.len() >= IPV6_HEADER_LEN
                && data@[0] >> 4 == 6 && source == spec_u128_from_be(data@.subrange(8, 24))
                && destination == spec_u128_from_be(data@.subrange(24, 40)),
            _ => false,
        }),
{
    match SlicedPacket::from_ip(data).ok()?.ip? {
        InternetSlice::Ipv4(header) => Some(
            (
                XBIpAddr::V4(u32::from(header.source_addr())),
                XBIpAddr::V4(u32::from(header.destination_addr())),
            ),
        ),
        InternetSlice::Ipv6(header, _) => Some(
            (
                XBIpAddr::V6(u128::from(header.source_addr())),
                XBIpAddr::V6(u128::from(header.destination_addr())),
            ),
        ),
    }
}

/// What the bridge holds for `addr`: the radio it was last seen at and the
/// instant at which that expires.
pub open spec fn spec_tun_entry(
    dests4: Map<u32, (u64, u64)>,
    dests6: Map<u128, (u64, u64)>,
    addr: XBIpAddr,
) -> Option<(u64, u64)> {
    match addr {
        XBIpAddr::V4(a) => if dests4.contains_key(a) {
            Some(dests4[a])
        } else {
            None
        },
        XBIpAddr::V6(a) => if dests6.contains_key(a) {
            Some(dests6[a])
        } else {
            None
        },
    }
}

/// The radio that a datagram goes to at the instant `now`, given what the
/// bridge holds for its destination: the radio of an entry that has not
/// expired; broadcast when everything is broadcast, when nothing is held,
/// and from the instant of expiry on.
pub open spec fn spec_tun_dest(broadcast_everything: bool, entry: Option<(u64, u64)>, now: u64) -> u64 {
    if broadcast_everything {
        XB_BROADCAST
    } else {
        match entry {
            None => XB_BROADCAST,
            Some((dest, expiration)) => if now >= expiration {
                XB_BROADCAST
            } else {
                dest
            },
        }
    }
}

/// Whether datagrams of the family of `addr` are dropped.
pub open spec fn spec_family_disabled(disable_ipv4: bool, disable_ipv6: bool, addr: XBIpAddr) -> bool {
    match addr {
        XBIpAddr::V4(_) => disable_ipv4,
        XBIpAddr::V6(_) => disable_ipv6,
    }
}

/// Why a datagram from the host is not transmitted.
#[derive(Clone, Copy, Debug, PartialEq, Eq, Structural)]
pub enum TunDrop {
    /// The datagram could not be parsed as IPv4 or IPv6.
    Malformed,
    /// The datagram is IPv4, and IPv4 is disabled.
    Ipv4Disabled,
    /// The datagram is IPv6, and IPv6 is disabled.
    Ipv6Disabled,
}

/// The reason for dropping a datagram of the family of `addr`.
pub open spec fn spec_family_drop(addr: XBIpAddr) -> TunDrop {
    match addr {
        XBIpAddr::V4(_) => TunDrop::Ipv4Disabled,
        XBIpAddr::V6(_) => TunDrop::Ipv6Disabled,
    }
}

/// The IP bridge.
pub struct XBTun {
    /// The address of the host's radio.
    pub myxbmac: u64,
    /// The name of the host's interface.
    pub name: String,
    /// Whether every datagram is broadcast.
    pub broadcast_everything: bool,
    /// How long what was learned stays valid, in ticks.
    pub max_ip_cache: u64,
    /// Whether IPv4 datagrams are dropped.
    pub disable_ipv4: bool,
    /// Whether IPv6 datagrams are dropped.
    pub disable_ipv6: bool,
    /// For each IPv4 address that has been seen, the radio it was last seen
    /// at and the instant at which that expires.
    pub dests4: HashMap<u32, (u64, u64)>,
    /// The same for each IPv6 address.
    pub dests6: HashMap<u128, (u64, u64)>,
}

impl XBTun {
    /// What the bridge holds for `addr`.
    pub open spec fn entry(&self, addr: XBIpAddr) -> Option<(u64, u64)> {
        spec_tun_entry(self.dests4@, self.dests6@, addr)
    }

    /// Whether the bridge is configured as `other` is.
    pub open spec fn same_settings(&self, other: &XBTun) -> bool {
        &&& self.myxbmac == other.myxbmac
        &&& self.name == other.name
        &&& self.broadcast_everything == other.broadcast_everything
        &&& self.max_ip_cache == other.max_ip_cache
        &&& self.disable_ipv4 == other.disable_ipv4
        &&& self.disable_ipv6 == other.disable_ipv6
    }

    /// The bridge for the radio `myxbmac` on the interface `name`. It has
    /// learned nothing yet.
    pub fn new_tun(
        myxbmac: u64,
        broadcast_everything: bool,
        name: String,
        max_ip_cache: u64,
        disable_ipv4: bool,
        disable_ipv6: bool,
    ) -> (r: XBTun)
        ensures
            r.myxbmac == myxbmac,
            r.name == name,
            r.broadcast_everything == broadcast_everything,
            r.max_ip_cache == max_ip_cache,
            r.disable_ipv4 == disable_ipv4,
            r.disable_ipv6 == disable_ipv6,
            r.dests4@ == Map::<u32, (u64, u64)>::empty(),
            r.dests6@ == Map::<u128, (u64, u64)>::empty(),
            forall|addr: XBIpAddr| r.entry(addr) is None,
    {
        XBTun {
            myxbmac,
            broadcast_everything,
            max_ip_cache,
            disable_ipv4,
            disable_ipv6,
            name,
            dests4: HashMap::new(),
            dests6: HashMap::new(),
        }
    }

    /// Looks up what the bridge holds for `ipaddr`.
    pub fn lookup(&self, ipaddr: &XBIpAddr) -> (r: Option<(u64, u64)>)
        ensures
            r == self.entry(*ipaddr),
    {
        match ipaddr {
            XBIpAddr::V4(a) => match self.dests4.get(a) {
                Some(entry) => Some(*entry),
                None => None,
            },
            XBIpAddr::V6(a) => match self.dests6.get(a) {
                Some(entry) => Some(*entry),
                None => None,
            },
        }
    }

    /// The radio that a datagram for `ipaddr` goes to at the instant `now`.
    pub fn get_xb_dest_mac(&self, ipaddr: &XBIpAddr, now: u64) -> (r: u64)
        ensures
            r == spec_tun_dest(self.broadcast_everything, self.entry(*ipaddr), now),
    {
        if self.broadcast_everything {
            return XB_BROADCAST;
        }
        match self.lookup(ipaddr) {
            None => XB_BROADCAST,
            Some((dest, expiration)) => {
                if now >= expiration {
                    XB_BROADCAST
                } else {
                    dest
                }
            },
        }
    }

    /// Decides what to do with a datagram from the host, given the addresses
    /// found in it: unless its family is disabled, the whole datagram goes
    /// to the radio of its destination.
    pub fn route(&self, ips: Option<(XBIpAddr, XBIpAddr)>, tundata: &[u8], now: u64) -> (r: Result<
        XBTX,
        TunDrop,
    >)
        ensures
            match ips {
                None => r == Err::<XBTX, TunDrop>(TunDrop::Malformed),
                Some((source, destination)) => if spec_family_disabled(
                    self.disable_ipv4,
                    self.disable_ipv6,
                    destination,
                ) {
                    r == Err::<XBTX, TunDrop>(spec_family_drop(destination))
                } else {
                    r is Ok && r->Ok_0@ == XBTXView::TXData(
                        XBDestAddr::U64(
                            spec_tun_dest(self.broadcast_everything, self.entry(destination), now),
                        ),
                        tundata@,
                    )
                },
            },
    {
        match ips {
            None => Err(TunDrop::Malformed),
            Some((_source, destination)) => {
                match destination {
                    XBIpAddr::V6(_) => if self.disable_ipv6 {
                        return Err(TunDrop::Ipv6Disabled);
                    },
                    XBIpAddr::V4(_) => if self.disable_ipv4 {
                        return Err(TunDrop::Ipv4Disabled);
                    },
                }
                let destxbmac = self.get_xb_dest_mac(&destination, now);
                Ok(XBTX::TXData(XBDestAddr::U64(destxbmac), Bytes::copy_from_slice(tundata)))
            },
        }
    }

    /// Handles a datagram that the host wants transmitted at the instant
    /// `now`: returns the queue item for it, or the reason why it is
    /// dropped.
    pub fn frames_from_tun_processor(&self, tundata: &[u8], now: u64) -> (r: Result<XBTX, TunDrop>)
        ensures
            match spec_extract_ips(tundata@) {
                None => r == Err::<XBTX, TunDrop>(TunDrop::Malformed),
                Some((source, destination)) => if spec_family_disabled(
                    self.disable_ipv4,
                    self.disable_ipv6,
                    destination,
                ) {
                    r == Err::<XBTX, TunDrop>(spec_family_drop(destination))
                } else {
                    r is Ok && r->Ok_0@ == XBTXView::TXData(
                        XBDestAddr::U64(
                            spec_tun_dest(self.broadcast_everything, self.entry(destination), now),
                        ),
                        tundata@,
                    )
                },
            },
    {
        self.route(extract_ips(tundata), tundata, now)
    }

    /// Takes note of a datagram that came from the radio `fromu64` at the
    /// instant `now`, given the addresses found in it. Unless the family of
    /// its source is disabled, the source is filed at that radio until
    /// `now + max_ip_cache`, in place of what was held for it. Returns
    /// whether the datagram is to be handed to the host: it is, unless its
    /// family is disabled.
    pub fn learn(&mut self, ips: Option<(XBIpAddr, XBIpAddr)>, fromu64: u64, now: u64) -> (forward:
        bool)
        requires
            now + old(self).max_ip_cache <= u64::MAX,
        ensures
            final(self).same_settings(old(self)),
            match ips {
                None => forward && final(self).dests4@ == old(self).dests4@ && final(self).dests6@
                    == old(self).dests6@,
                Some((source, destination)) => if spec_family_disabled(
                    old(self).disable_ipv4,
                    old(self).disable_ipv6,
                    source,
                ) {
                    !forward && final(self).dests4@ == old(self).dests4@ && final(self).dests6@
                        == old(self).dests6@
                } else {
                    forward && final(self).entry(source) == Some(
                        (fromu64, (now + old(self).max_ip_cache) as u64),
                    ) && (forall|other: XBIpAddr|
                        other != source ==> final(self).entry(other) == old(self).entry(other))
                },
            },
    {
        match ips {
            None => true,
            Some((source, _destination)) => {
                let expiration = now + self.max_ip_cache;
                match source {
                    XBIpAddr::V6(a) => {
                        if self.disable_ipv6 {
                            return false;
                        }
                        self.dests6.insert(a, (fromu64, expiration));
                    },
                    XBIpAddr::V4(a) => {
                        if self.disable_ipv4 {
                            return false;
                        }
                        self.dests4.insert(a, (fromu64, expiration));
                    },
                }
                true
            },
        }
    }

    /// Handles a datagram that came from the radio `fromu64` at the instant
    /// `now`: files its IP source at that radio. Returns whether the
    /// datagram is to be handed to the host.
    pub fn frames_from_xb_processor(&mut self, fromu64: u64, payload: &[u8], now: u64) -> (forward:
        bool)
        requires
            now + old(self).max_ip_cache <= u64::MAX,
        ensures
            final(self).same_settings(old(self)),
            match spec_extract_ips(payload@) {
                None => forward && final(self).dests4@ == old(self).dests4@ && final(self).dests6@
                    == old(self).dests6@,
                Some((source, destination)) => if spec_family_disabled(
                    old(self).disable_ipv4,
                    old(self).disable_ipv6,
                    source,
                ) {
                    !forward && final(self).dests4@ == old(self).dests4@ && final(self).dests6@
                        == old(self).dests6@
                } else {
                    forward && final(self).entry(source) == Some(
                        (fromu64, (now + old(self).max_ip_cache) as u64),
                    ) && (forall|other: XBIpAddr|
                        other != source ==> final(self).entry(other) == old(self).entry(other))
                },
            },
    {
        self.learn(extract_ips(payload), fromu64, now)
    }
}

/// What the bridge has learned, it uses until it expires: once a datagram
/// with IP source `addr` has come from the radio `radio` at the instant
/// `learned`, a datagram for `addr` goes to `radio` as long as less than
/// `max_ip_cache` has passed, and is broadcast from then on. This holds
/// unless everything is broadcast: then every datagram is broadcast.
pub proof fn lemma_tun_learned_route(radio: u64, learned: u64, max_ip_cache: u64, now: u64)
    requires
        learned + max_ip_cache <= u64::MAX,
    ensures
        now < learned + max_ip_cache ==> spec_tun_dest(
            false,
            Some((radio, (learned + max_ip_cache) as u64)),
            now,
        ) == radio,
        now >= learned + max_ip_cache ==> spec_tun_dest(
            false,
            Some((radio, (learned + max_ip_cache) as u64)),
            now,
        ) == XB_BROADCAST,
        spec_tun_dest(true, Some((radio, (learned + max_ip_cache) as u64)), now) == XB_BROADCAST,
{
}

} // verus!
