use packet_scope::discovery::{
    arp_request, get_network_addr, parse_arp_reply, probe_targets, subnet_contains, Discovery, DiscoveryError,
};
use packet_scope::interfaces::{capture_interface, get_interface, get_interfaces, InterfaceInfo};

const OWN_MAC: [u8; 6] = [0x02, 0x00, 0x00, 0x00, 0x00, 0x01];

fn iface(ips: Vec<[u8; 4]>) -> InterfaceInfo {
    InterfaceInfo { name: String::from("eth0"), index: 2, mac: OWN_MAC, ipv4: ips }
}

fn arp_reply(sender_ip: [u8; 4], sender_mac: [u8; 6], target_ip: [u8; 4]) -> Vec<u8> {
    let mut f = Vec::new();
    f.extend_from_slice(&OWN_MAC);
    f.extend_from_slice(&sender_mac);
    f.extend_from_slice(&[0x08, 0x06, 0x00, 0x01, 0x08, 0x00, 6, 4, 0x00, 0x02]);
    f.extend_from_slice(&sender_mac);
    f.extend_from_slice(&sender_ip);
    f.extend_from_slice(&OWN_MAC);
    f.extend_from_slice(&target_ip);
    f
}

#[test]
fn network_address_masks_last_octet() {
    let net = get_network_addr([192, 168, 1, 10]);
    assert_eq!(net.octets, [192, 168, 1]);
    assert!(subnet_contains(&net, [192, 168, 1, 20]));
    assert!(subnet_contains(&net, [192, 168, 1, 255]));
    assert!(!subnet_contains(&net, [192, 168, 2, 20]));
    assert!(!subnet_contains(&net, [10, 168, 1, 20]));
}

#[test]
fn probes_skip_network_broadcast_and_own_address() {
    let t = probe_targets([192, 168, 1, 10]);
    assert_eq!(t.len(), 253);
    assert_eq!(t[0], [192, 168, 1, 1]);
    assert_eq!(t[8], [192, 168, 1, 9]);
    assert_eq!(t[9], [192, 168, 1, 11]);
    assert_eq!(t[252], [192, 168, 1, 254]);
    assert!(t.iter().all(|a| a[0..3] == [192, 168, 1] && a[3] != 0 && a[3] != 255 && a[3] != 10));
}

#[test]
fn probes_number_254_from_a_network_address() {
    let t = probe_targets([10, 0, 7, 0]);
    assert_eq!(t.len(), 254);
    assert!(t.iter().all(|a| a[0..3] == [10, 0, 7]));
    let t = probe_targets([10, 0, 7, 255]);
    assert_eq!(t.len(), 254);
}

#[test]
fn arp_request_layout() {
    let r = arp_request(OWN_MAC, [192, 168, 1, 10], [192, 168, 1, 20]);
    let mut want = vec![0xffu8; 6];
    want.extend_from_slice(&OWN_MAC);
    want.extend_from_slice(&[0x08, 0x06, 0x00, 0x01, 0x08, 0x00, 6, 4, 0x00, 0x01]);
    want.extend_from_slice(&OWN_MAC);
    want.extend_from_slice(&[192, 168, 1, 10]);
    want.extend_from_slice(&[0u8; 6]);
    want.extend_from_slice(&[192, 168, 1, 20]);
    assert_eq!(r.len(), 42);
    assert_eq!(r, want);
}

#[test]
fn arp_reply_is_parsed_and_request_is_not() {
    let mac = [0xaa, 0xbb, 0xcc, 0xdd, 0xee, 0xff];
    let h = parse_arp_reply(&arp_reply([192, 168, 1, 20], mac, [192, 168, 1, 10])).unwrap();
    assert_eq!(h.ip, [192, 168, 1, 20]);
    assert_eq!(h.mac, mac);
    assert!(parse_arp_reply(&arp_request(OWN_MAC, [192, 168, 1, 10], [192, 168, 1, 20])).is_none());
    assert!(parse_arp_reply(&arp_reply([192, 168, 1, 20], mac, [192, 168, 1, 10])[..41]).is_none());
    assert!(parse_arp_reply(&[]).is_none());
}

#[test]
fn single_reply_is_discovered() {
    let mut d = Discovery::start(&iface(vec![[192, 168, 1, 10]])).unwrap();
    assert_eq!(d.net.octets, [192, 168, 1]);
    let probes = d.probes();
    assert_eq!(probes.len(), 253);
    assert_eq!(probes[0], arp_request(OWN_MAC, [192, 168, 1, 10], [192, 168, 1, 1]));
    let mac = [0xaa, 0xbb, 0xcc, 0xdd, 0xee, 0xff];
    d.on_frame(&arp_reply([192, 168, 1, 20], mac, [192, 168, 1, 10]));
    let hosts = d.finish();
    assert_eq!(hosts.len(), 1);
    assert_eq!(hosts[0].ip, [192, 168, 1, 20]);
    assert_eq!(hosts[0].mac, mac);
}

#[test]
fn no_reply_gives_empty_set() {
    let mut d = Discovery::start(&iface(vec![[192, 168, 1, 10]])).unwrap();
    d.on_frame(&arp_request(OWN_MAC, [192, 168, 1, 10], [192, 168, 1, 20]));
    d.on_frame(&[0u8; 60]);
    d.on_frame(&[]);
    assert!(d.finish().is_empty());
    let d = Discovery::start(&iface(vec![[192, 168, 1, 10]])).unwrap();
    assert!(d.finish().is_empty());
}

#[test]
fn replies_from_outside_the_subnet_are_ignored() {
    let mut d = Discovery::start(&iface(vec![[192, 168, 1, 10]])).unwrap();
    d.on_frame(&arp_reply([192, 168, 2, 20], [1, 2, 3, 4, 5, 6], [192, 168, 1, 10]));
    d.on_frame(&arp_reply([10, 0, 0, 1], [1, 2, 3, 4, 5, 7], [192, 168, 1, 10]));
    assert!(d.finish().is_empty());
}

#[test]
fn duplicate_replies_keep_last_mac() {
    let mut d = Discovery::start(&iface(vec![[192, 168, 1, 10]])).unwrap();
    d.on_frame(&arp_reply([192, 168, 1, 20], [1, 1, 1, 1, 1, 1], [192, 168, 1, 10]));
    d.on_frame(&arp_reply([192, 168, 1, 30], [3, 3, 3, 3, 3, 3], [192, 168, 1, 10]));
    d.on_frame(&arp_reply([192, 168, 1, 20], [2, 2, 2, 2, 2, 2], [192, 168, 1, 10]));
    let hosts = d.finish();
    assert_eq!(hosts.len(), 2);
    assert_eq!(hosts[0].ip, [192, 168, 1, 20]);
    assert_eq!(hosts[0].mac, [2, 2, 2, 2, 2, 2]);
    assert_eq!(hosts[1].ip, [192, 168, 1, 30]);
    assert_eq!(hosts[1].mac, [3, 3, 3, 3, 3, 3]);
}

#[test]
fn interface_without_ipv4_is_refused() {
    match Discovery::start(&iface(vec![])) {
        Err(e) => assert_eq!(e, DiscoveryError::NoAddressConfigured),
        Ok(_) => panic!("discovery started without an address"),
    }
}

#[test]
fn discovery_uses_first_address() {
    let d = Discovery::start(&iface(vec![[10, 0, 0, 5], [192, 168, 1, 10]])).unwrap();
    assert_eq!(d.own_ip, [10, 0, 0, 5]);
    assert_eq!(d.net.octets, [10, 0, 0]);
}

fn two_interfaces() -> Vec<InterfaceInfo> {
    vec![
        InterfaceInfo { name: String::from("lo"), index: 1, mac: [0; 6], ipv4: vec![[127, 0, 0, 1]] },
        InterfaceInfo { name: String::from("eth0"), index: 7, mac: OWN_MAC, ipv4: vec![] },
    ]
}

#[test]
fn interface_listing_keeps_names_and_indices() {
    let l = get_interfaces(&two_interfaces());
    assert_eq!(l, vec![(String::from("lo"), 1), (String::from("eth0"), 7)]);
    assert!(get_interfaces(&vec![]).is_empty());
}

#[test]
fn interface_lookup_by_index() {
    let all = two_interfaces();
    assert_eq!(get_interface(&all, 7), Some(1));
    assert_eq!(get_interface(&all, 1), Some(0));
    assert_eq!(get_interface(&all, 3), None);
}

#[test]
fn capture_defaults_to_first_interface() {
    let all = two_interfaces();
    assert_eq!(capture_interface(&all, None), Some(0));
    assert_eq!(capture_interface(&all, Some(7)), Some(1));
    assert_eq!(capture_interface(&all, Some(9)), None);
    assert_eq!(capture_interface(&vec![], None), None);
}
