use kcore::skb::SkBuff;

#[test]
fn test_alloc_and_put() {
    let mut skb = SkBuff::allocate(64, 1500).unwrap();
    assert_eq!(skb.len(), 0);
    assert!(skb.headroom() >= 64);

    // Add some data
    skb.put(100).unwrap();
    skb.write_payload(0, &[0xAB; 100]).unwrap();
    assert_eq!(skb.len(), 100);
    assert_eq!(skb.data()[0], 0xAB);
}

#[test]
fn test_push_and_pull() {
    let mut skb = SkBuff::allocate(64, 1500).unwrap();

    // Add payload
    skb.put(100).unwrap();

    // Push header
    skb.push(14).unwrap();
    skb.write_payload(0, &[0xCD; 14]).unwrap();
    assert_eq!(skb.len(), 114);

    // Pull header
    let pulled = skb.pull(14).unwrap();
    assert_eq!(pulled[0], 0xCD);
    assert_eq!(skb.len(), 100);
}

#[test]
fn push_pull_scenario() {
    // allocate(64, 1500); put(100) filled 0xAB; len = 100.
    let mut pb = SkBuff::allocate(64, 1500).unwrap();
    pb.put(100).unwrap();
    pb.write_payload(0, &[0xAB; 100]).unwrap();
    assert_eq!(pb.len(), 100);

    // push(14) filled 0xCD; len = 114; data()[0] == 0xCD.
    pb.push(14).unwrap();
    pb.write_payload(0, &[0xCD; 14]).unwrap();
    assert_eq!(pb.len(), 114);
    assert_eq!(pb.data()[0], 0xCD);

    // pull(14); len = 100; data()[0] == 0xAB.
    pb.pull(14).unwrap();
    assert_eq!(pb.len(), 100);
    assert_eq!(pb.data()[0], 0xAB);
}

#[test]
fn allocate_too_large_fails() {
    assert!(SkBuff::allocate(1024, 1025).is_none());
    assert!(SkBuff::allocate(0, 2049).is_none());
    assert!(SkBuff::allocate(2048, 0).is_some());
}

#[test]
fn alloc_rx_dimensions() {
    let skb = SkBuff::alloc_rx().unwrap();
    assert_eq!(skb.headroom(), 64);
    assert_eq!(skb.len(), 0);
    assert_eq!(skb.tailroom(), 1514);
}

#[test]
fn alloc_tx_headroom() {
    let skb = SkBuff::alloc_tx(100).unwrap();
    assert_eq!(skb.headroom(), 134);
    assert_eq!(skb.tailroom(), 100);
    assert!(SkBuff::alloc_tx(2048).is_none());
}

#[test]
fn push_fails_without_headroom() {
    let mut skb = SkBuff::allocate(4, 10).unwrap();
    assert!(skb.push(5).is_none());
    assert_eq!(skb.len(), 0);
    assert!(skb.push(4).is_some());
    assert_eq!(skb.len(), 4);
}

#[test]
fn pull_fails_past_payload() {
    let mut skb = SkBuff::allocate(0, 10).unwrap();
    skb.put(3).unwrap();
    assert!(skb.pull(4).is_none());
    assert!(skb.pull(3).is_some());
    assert!(skb.is_empty());
}

#[test]
fn put_fails_without_tailroom() {
    let mut skb = SkBuff::allocate(0, 10).unwrap();
    assert!(skb.put(11).is_none());
    assert!(skb.put(10).is_some());
    assert!(skb.put(1).is_none());
}

#[test]
fn trim_shrinks_tail() {
    let mut skb = SkBuff::allocate(0, 10).unwrap();
    skb.put_slice(&[1, 2, 3, 4, 5]).unwrap();
    skb.trim(2).unwrap();
    assert_eq!(skb.data(), vec![1, 2, 3]);
    assert!(skb.trim(4).is_none());
}

#[test]
fn set_len_grows_and_shrinks() {
    let mut skb = SkBuff::allocate(0, 10).unwrap();
    skb.set_len(7).unwrap();
    assert_eq!(skb.len(), 7);
    skb.set_len(2).unwrap();
    assert_eq!(skb.len(), 2);
    assert!(skb.set_len(11).is_none());
}

#[test]
fn reserve_moves_data() {
    let mut skb = SkBuff::allocate(0, 100).unwrap();
    skb.reserve(40).unwrap();
    assert_eq!(skb.headroom(), 40);
    assert_eq!(skb.tailroom(), 60);
    assert!(skb.reserve(61).is_none());
}

#[test]
fn reset_clears_tags() {
    let mut skb = SkBuff::allocate(16, 64).unwrap();
    skb.put(10).unwrap();
    skb.ip_protocol = 6;
    skb.set_transport_header(4);
    skb.reset(8).unwrap();
    assert_eq!(skb.len(), 0);
    assert_eq!(skb.headroom(), 8);
    assert_eq!(skb.ip_protocol, 0);
    assert_eq!(skb.transport_header, 0);
    assert!(skb.reset(81).is_none());
}

#[test]
fn header_offset_views() {
    let mut skb = SkBuff::allocate(0, 10).unwrap();
    skb.put_slice(&[9, 8, 7, 6]).unwrap();
    skb.set_network_header_offset(1);
    assert_eq!(skb.network_header(), vec![8, 7, 6]);
    skb.set_transport_header(2);
    assert_eq!(skb.transport_header(), vec![7, 6]);
    skb.set_mac_header();
    assert_eq!(skb.mac_header(), vec![9, 8, 7, 6]);
}
