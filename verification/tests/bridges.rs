use bytes::Bytes;
use xbnet::tap::{showmac, EtherAddrs, TapDrop, XBTap, ETHER_BROADCAST};
use xbnet::tun::{extract_ips, TunDrop, XBIpAddr, XBTun};
use xbnet::xb::XBTX;
use xbnet::xbpacket::XBDestAddr;

const RADIO: u64 = 0x0013a200_40aaaaaa;
const MAC: [u8; 6] = [0x02, 0x11, 0x22, 0x33, 0x44, 0x55];
const OTHER: [u8; 6] = [0x02, 0x11, 0x22, 0x33, 0x44, 0x56];

fn ether(dst: [u8; 6], src: [u8; 6]) -> Vec<u8> {
    let mut frame = Vec::new();
    frame.extend_from_slice(&dst);
    frame.extend_from_slice(&src);
    frame.extend_from_slice(&[0x88, 0xb5, 0xde, 0xad, 0xbe, 0xef]);
    frame
}

fn tap(broadcast_unknown: bool, broadcast_everything: bool) -> XBTap {
    XBTap::new_tap(
        0x0013a200_40123456,
        broadcast_unknown,
        broadcast_everything,
        String::from("xbnet0"),
    )
}

#[test]
fn showmac_uses_unpadded_lower_case_hex() {
    assert_eq!(showmac(&[0x00, 0x0a, 0x10, 0xff, 0x9c, 0x01]), "0:a:10:ff:9c:1");
}

#[test]
fn new_tap_derives_the_ethernet_address() {
    let tap = tap(false, false);
    assert_eq!(tap.myxbmac, 0x0013a200_40123456);
    assert_eq!(tap.myethermac, [0xa2, 0x00, 0x40, 0x12, 0x34, 0x56]);
    assert_eq!(tap.myethermacstr, "a2:0:40:12:34:56");
    assert_eq!(tap.name, "xbnet0");
    assert_eq!(tap.dests.len(), 1);
}

#[test]
fn ethernet_broadcast_goes_to_radio_broadcast() {
    assert_eq!(tap(false, false).get_xb_dest_mac(&ETHER_BROADCAST), Some(0xffff));
}

#[test]
fn unknown_destination_is_dropped_or_broadcast() {
    assert_eq!(tap(false, false).get_xb_dest_mac(&MAC), None);
    assert_eq!(tap(true, false).get_xb_dest_mac(&MAC), Some(0xffff));
    assert_eq!(
        tap(false, false).frames_from_tap_processor(&ether(MAC, OTHER)),
        Err(TapDrop::UnknownDestination)
    );
}

#[test]
fn malformed_ethernet_is_dropped() {
    assert_eq!(
        tap(true, true).frames_from_tap_processor(&[1, 2, 3]),
        Err(TapDrop::Malformed)
    );
    let mut truncated_ip = ether(MAC, OTHER);
    truncated_ip[12] = 0x08;
    truncated_ip[13] = 0x00;
    assert_eq!(
        tap(true, true).frames_from_tap_processor(&truncated_ip),
        Err(TapDrop::Malformed)
    );
}

#[test]
fn tap_learning() {
    let mut tap = tap(false, false);
    assert!(tap.frames_from_xb_processor(RADIO, &ether(ETHER_BROADCAST, MAC)));
    let outgoing = ether(MAC, OTHER);
    assert_eq!(
        tap.frames_from_tap_processor(&outgoing),
        Ok(XBTX::TXData(XBDestAddr::U64(RADIO), Bytes::from(outgoing.clone())))
    );
    assert_eq!(tap.get_xb_dest_mac(&OTHER), None);
}

#[test]
fn tap_keeps_the_most_recent_observation() {
    let mut tap = tap(false, false);
    tap.frames_from_xb_processor(1, &ether(ETHER_BROADCAST, MAC));
    tap.frames_from_xb_processor(2, &ether(ETHER_BROADCAST, MAC));
    assert_eq!(tap.get_xb_dest_mac(&MAC), Some(2));
}

#[test]
fn tap_does_not_learn_from_what_is_not_ethernet() {
    let mut tap = tap(false, false);
    assert!(!tap.frames_from_xb_processor(RADIO, &[0u8; 5]));
    assert_eq!(tap.dests.len(), 1);
}

#[test]
fn broadcast_everything_neither_learns_nor_looks_up() {
    let mut tap = tap(false, true);
    assert!(tap.frames_from_xb_processor(RADIO, &ether(ETHER_BROADCAST, MAC)));
    assert_eq!(tap.dests.len(), 1);
    assert_eq!(tap.get_xb_dest_mac(&MAC), Some(0xffff));
}

#[test]
fn tap_route_and_learn_take_parsed_addresses() {
    let mut tap = tap(false, false);
    let addrs = EtherAddrs { destination: OTHER, source: MAC };
    tap.learn(Some(addrs), 77);
    tap.learn(None, 78);
    assert_eq!(tap.route(None, &[1]), Err(TapDrop::Malformed));
    let back = EtherAddrs { destination: MAC, source: OTHER };
    assert_eq!(
        tap.route(Some(back), &[1, 2]),
        Ok(XBTX::TXData(XBDestAddr::U64(77), Bytes::from(vec![1, 2])))
    );
}

fn ipv4(src: [u8; 4], dst: [u8; 4]) -> Vec<u8> {
    let mut p = vec![0x45, 0, 0, 24, 0, 0, 0, 0, 64, 253, 0, 0];
    p.extend_from_slice(&src);
    p.extend_from_slice(&dst);
    p.extend_from_slice(&[1, 2, 3, 4]);
    p
}

fn ipv6(src: [u8; 16], dst: [u8; 16]) -> Vec<u8> {
    let mut p = vec![0x60, 0, 0, 0, 0, 2, 59, 64];
    p.extend_from_slice(&src);
    p.extend_from_slice(&dst);
    p.extend_from_slice(&[9, 9]);
    p
}

fn v4(a: [u8; 4]) -> XBIpAddr {
    XBIpAddr::V4(u32::from_be_bytes(a))
}

fn tun(broadcast_everything: bool, ttl: u64, no4: bool, no6: bool) -> XBTun {
    XBTun::new_tun(RADIO, broadcast_everything, String::from("xbnet0"), ttl, no4, no6)
}

#[test]
fn extract_ips_reads_both_families() {
    assert_eq!(
        extract_ips(&ipv4([10, 0, 0, 1], [10, 0, 0, 2])),
        Some((v4([10, 0, 0, 1]), v4([10, 0, 0, 2])))
    );
    let mut a = [0u8; 16];
    a[0] = 0xfe;
    a[1] = 0x80;
    a[15] = 1;
    let mut b = a;
    b[15] = 2;
    assert_eq!(
        extract_ips(&ipv6(a, b)),
        Some((
            XBIpAddr::V6(u128::from_be_bytes(a)),
            XBIpAddr::V6(u128::from_be_bytes(b))
        ))
    );
    assert_eq!(extract_ips(&[]), None);
    assert_eq!(extract_ips(&[0x45, 0, 0]), None);
    assert_eq!(extract_ips(&[0x50; 40]), None);
}

#[test]
fn unknown_ip_is_broadcast() {
    let tun = tun(false, 1000, false, false);
    assert_eq!(tun.get_xb_dest_mac(&v4([10, 0, 0, 1]), 0), 0xffff);
    let data = ipv4([10, 0, 0, 2], [10, 0, 0, 1]);
    assert_eq!(
        tun.frames_from_tun_processor(&data, 5),
        Ok(XBTX::TXData(XBDestAddr::U64(0xffff), Bytes::from(data.clone())))
    );
}

#[test]
fn tun_expiry() {
    let second = 1_000_000_000u64;
    let t0 = 17 * second;
    let mut tun = tun(false, second, false, false);
    assert!(tun.frames_from_xb_processor(RADIO, &ipv4([10, 0, 0, 1], [10, 0, 0, 9]), t0));
    let outgoing = ipv4([10, 0, 0, 9], [10, 0, 0, 1]);
    assert_eq!(
        tun.frames_from_tun_processor(&outgoing, t0 + second / 2),
        Ok(XBTX::TXData(XBDestAddr::U64(RADIO), Bytes::from(outgoing.clone())))
    );
    assert_eq!(
        tun.frames_from_tun_processor(&outgoing, t0 + 2 * second),
        Ok(XBTX::TXData(XBDestAddr::U64(0xffff), Bytes::from(outgoing.clone())))
    );
    assert_eq!(tun.get_xb_dest_mac(&v4([10, 0, 0, 1]), t0 + second - 1), RADIO);
    assert_eq!(tun.get_xb_dest_mac(&v4([10, 0, 0, 1]), t0 + second), 0xffff);
    assert_eq!(tun.lookup(&v4([10, 0, 0, 1])), Some((RADIO, t0 + second)));
    assert_eq!(tun.lookup(&v4([10, 0, 0, 9])), None);
}

#[test]
fn tun_overwrites_the_prior_entry() {
    let mut tun = tun(false, 10, false, false);
    tun.frames_from_xb_processor(1, &ipv4([10, 0, 0, 1], [10, 0, 0, 9]), 0);
    tun.frames_from_xb_processor(2, &ipv4([10, 0, 0, 1], [10, 0, 0, 9]), 5);
    assert_eq!(tun.lookup(&v4([10, 0, 0, 1])), Some((2, 15)));
}

#[test]
fn disabled_families_are_dropped() {
    let mut tun4 = tun(false, 10, true, false);
    let packet4 = ipv4([10, 0, 0, 1], [10, 0, 0, 2]);
    let packet6 = ipv6([1; 16], [2; 16]);
    assert_eq!(tun4.frames_from_tun_processor(&packet4, 0), Err(TunDrop::Ipv4Disabled));
    assert!(tun4.frames_from_tun_processor(&packet6, 0).is_ok());
    assert!(!tun4.frames_from_xb_processor(RADIO, &packet4, 0));
    assert_eq!(tun4.lookup(&v4([10, 0, 0, 1])), None);
    let mut tun6 = tun(false, 10, false, true);
    assert_eq!(tun6.frames_from_tun_processor(&packet6, 0), Err(TunDrop::Ipv6Disabled));
    assert!(!tun6.frames_from_xb_processor(RADIO, &packet6, 0));
    assert!(tun6.frames_from_xb_processor(RADIO, &packet4, 0));
}

#[test]
fn malformed_ip_is_not_transmitted_but_handed_to_the_host() {
    let mut tun = tun(false, 10, false, false);
    assert_eq!(tun.frames_from_tun_processor(&[0xff; 8], 0), Err(TunDrop::Malformed));
    assert!(tun.frames_from_xb_processor(RADIO, &[0xff; 8], 0));
    assert!(tun.dests4.is_empty());
    assert!(tun.dests6.is_empty());
}

#[test]
fn tun_broadcast_everything_routes_to_broadcast() {
    let mut tun = tun(true, 100, false, false);
    tun.frames_from_xb_processor(RADIO, &ipv4([10, 0, 0, 1], [10, 0, 0, 9]), 0);
    assert_eq!(tun.get_xb_dest_mac(&v4([10, 0, 0, 1]), 1), 0xffff);
}

#[test]
fn v4_and_v6_addresses_are_kept_apart() {
    let mut tun = tun(false, 100, false, false);
    let mut mapped = [0u8; 16];
    mapped[10] = 0xff;
    mapped[11] = 0xff;
    mapped[12..].copy_from_slice(&[10, 0, 0, 1]);
    tun.frames_from_xb_processor(1, &ipv4([10, 0, 0, 1], [10, 0, 0, 9]), 0);
    tun.frames_from_xb_processor(2, &ipv6(mapped, [3; 16]), 0);
    assert_eq!(tun.get_xb_dest_mac(&v4([10, 0, 0, 1]), 1), 1);
    assert_eq!(
        tun.get_xb_dest_mac(&XBIpAddr::V6(u128::from_be_bytes(mapped)), 1),
        2
    );
}
