use kcore::ethernet::{eth_header, eth_type_trans, format_mac, EthHdr, EtherType};
use kcore::ipv4::Ipv4Addr;
use kcore::route::{
    add_default_route, add_host_route, add_interface_route, clear_routes, get_routes, init,
    route_lookup, Route, RTF_GATEWAY, RTF_HOST, RTF_UP,
};
use kcore::skb::SkBuff;
use kcore::NetError;

#[test]
fn ether_type_known_values() {
    assert_eq!(EtherType::from_be(0x0800), EtherType::Ipv4);
    assert_eq!(EtherType::from_be(0x0806), EtherType::Arp);
    assert_eq!(EtherType::from_be(0x86DD), EtherType::Ipv6);
    assert_eq!(EtherType::from_be(0x8100), EtherType::Vlan);
    assert_eq!(EtherType::from_be(0x1234), EtherType::Unknown(0x1234));
    assert_eq!(EtherType::Ipv4.to_be(), 0x0800);
    assert_eq!(EtherType::Unknown(0x4242).to_be(), 0x4242);
}

#[test]
fn ether_type_roundtrip_samples() {
    for x in [0u16, 0x0800, 0x0806, 0x8100, 0x86DD, 0xFFFF, 0x1234] {
        assert_eq!(EtherType::from_be(x).to_be(), x);
    }
}

#[test]
fn eth_hdr_flags() {
    let mut hdr = EthHdr {
        h_dest: [0xff; 6],
        h_source: [1, 2, 3, 4, 5, 6],
        h_proto: [0x08, 0x00],
    };
    assert!(hdr.is_broadcast());
    assert!(hdr.is_multicast());
    assert_eq!(hdr.protocol(), EtherType::Ipv4);
    hdr.h_dest = [2, 0, 0, 0, 0, 0];
    assert!(!hdr.is_broadcast());
    assert!(!hdr.is_multicast());
    hdr.set_protocol(EtherType::Arp);
    assert_eq!(hdr.h_proto, [0x08, 0x06]);
}

#[test]
fn eth_type_trans_parses_frame() {
    let mut skb = SkBuff::allocate(0, 64).unwrap();
    skb.put(14).unwrap();
    let mut frame = [0u8; 14];
    frame[12] = 0x08;
    frame[13] = 0x06;
    skb.write_payload(0, &frame).unwrap();
    assert_eq!(eth_type_trans(&skb), EtherType::Arp);
}

#[test]
fn eth_type_trans_short_frame() {
    let mut skb = SkBuff::allocate(0, 64).unwrap();
    skb.put(13).unwrap();
    assert_eq!(eth_type_trans(&skb), EtherType::Unknown(0));
}

#[test]
fn eth_header_prepends() {
    let mut skb = SkBuff::allocate(14, 64).unwrap();
    skb.put_slice(&[0xAA, 0xBB]).unwrap();
    eth_header(&mut skb, &[1, 2, 3, 4, 5, 6], &[7, 8, 9, 10, 11, 12], EtherType::Ipv4).unwrap();
    let data = skb.data();
    assert_eq!(&data[0..6], &[1, 2, 3, 4, 5, 6]);
    assert_eq!(&data[6..12], &[7, 8, 9, 10, 11, 12]);
    assert_eq!(&data[12..14], &[0x08, 0x00]);
    assert_eq!(&data[14..16], &[0xAA, 0xBB]);
    let mut tight = SkBuff::allocate(13, 8).unwrap();
    assert!(eth_header(&mut tight, &[0; 6], &[0; 6], EtherType::Ipv4).is_none());
}

#[test]
fn format_mac_exact() {
    let buf = format_mac(&[0xde, 0xad, 0xbe, 0xef, 0x00, 0x1a]);
    assert_eq!(&buf, b"de:ad:be:ef:00:1a");
}

#[test]
fn ipv4_octet_roundtrip() {
    let a = Ipv4Addr::new(10, 1, 2, 3);
    let o = a.octets();
    assert_eq!(o, [10, 1, 2, 3]);
    assert_eq!(Ipv4Addr::from_octets(&o), a);
    assert_eq!(a.to_u32(), 0x0A010203);
    assert!(Ipv4Addr::from_u32(0).is_unspecified());
    assert!(!a.is_unspecified());
}

#[test]
fn route_longest_prefix_scenario() {
    // add (10.0.0.0/8, dev A, gw 0), (10.1.0.0/16, dev B, gw 0),
    // default (0/0, dev C, gw 10.0.0.1).
    let dev_a = 1u32;
    let dev_b = 2u32;
    let dev_c = 3u32;
    let mut table = init();
    add_interface_route(
        &mut table,
        Ipv4Addr::new(10, 0, 0, 0),
        Ipv4Addr::new(255, 0, 0, 0),
        dev_a,
    );
    add_interface_route(
        &mut table,
        Ipv4Addr::new(10, 1, 0, 0),
        Ipv4Addr::new(255, 255, 0, 0),
        dev_b,
    );
    add_default_route(&mut table, Ipv4Addr::new(10, 0, 0, 1), dev_c);

    // lookup(10.1.2.3) => (B, 10.1.2.3)
    let (dev, hop) = route_lookup(&table, Ipv4Addr::new(10, 1, 2, 3)).unwrap();
    assert_eq!(dev, dev_b);
    assert_eq!(hop, Ipv4Addr::new(10, 1, 2, 3));

    // lookup(10.2.2.3) => (A, 10.2.2.3)
    let (dev, hop) = route_lookup(&table, Ipv4Addr::new(10, 2, 2, 3)).unwrap();
    assert_eq!(dev, dev_a);
    assert_eq!(hop, Ipv4Addr::new(10, 2, 2, 3));

    // lookup(8.8.8.8) => (C, 10.0.0.1)
    let (dev, hop) = route_lookup(&table, Ipv4Addr::new(8, 8, 8, 8)).unwrap();
    assert_eq!(dev, dev_c);
    assert_eq!(hop, Ipv4Addr::new(10, 0, 0, 1));
}

#[test]
fn route_lookup_no_route() {
    let mut table = init();
    add_interface_route(
        &mut table,
        Ipv4Addr::new(192, 168, 0, 0),
        Ipv4Addr::new(255, 255, 255, 0),
        7,
    );
    assert_eq!(
        route_lookup(&table, Ipv4Addr::new(8, 8, 8, 8)),
        Err(NetError::NoRoute)
    );
}

#[test]
fn route_tie_break_insertion_order() {
    let mut table = init();
    add_interface_route(
        &mut table,
        Ipv4Addr::new(10, 0, 0, 0),
        Ipv4Addr::new(255, 0, 0, 0),
        1,
    );
    add_interface_route(
        &mut table,
        Ipv4Addr::new(10, 0, 0, 0),
        Ipv4Addr::new(255, 0, 0, 0),
        2,
    );
    let (dev, _) = route_lookup(&table, Ipv4Addr::new(10, 9, 9, 9)).unwrap();
    assert_eq!(dev, 1);
}

#[test]
fn host_route_flags_and_matching() {
    let mut table = init();
    add_host_route(
        &mut table,
        Ipv4Addr::new(10, 0, 0, 7),
        Ipv4Addr::new(10, 0, 0, 1),
        4,
    );
    let routes = get_routes(&table);
    assert_eq!(routes.len(), 1);
    let r: &Route = &routes[0];
    assert_eq!(r.flags, RTF_UP | RTF_HOST | RTF_GATEWAY);
    assert!(r.is_gateway());
    assert!(r.matches(Ipv4Addr::new(10, 0, 0, 7)));
    assert!(!r.matches(Ipv4Addr::new(10, 0, 0, 8)));
    assert_eq!(r.prefix_len(), 32);
    clear_routes(&mut table);
    assert!(get_routes(&table).is_empty());
}
