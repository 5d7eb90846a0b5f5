use wol::errors::NetworkError;
use wol::net::prefix_from_netmask;
use wol::net::NetworkTarget;
use wol::resolver::discover_local_networks;
use wol::resolver::filter_mac_lines;
use wol::resolver::networks_from_cidrs;
use wol::resolver::networks_from_interfaces;
use wol::resolver::IfaceAddr;

#[test]
fn prefix_of_24_bit_netmask() {
    assert_eq!(prefix_from_netmask(0xFFFF_FF00), 24);
}

#[test]
fn prefix_of_16_bit_netmask() {
    assert_eq!(prefix_from_netmask(0xFFFF_0000), 16);
}

#[test]
fn prefix_of_edge_netmasks() {
    assert_eq!(prefix_from_netmask(0x0000_0000), 0);
    assert_eq!(prefix_from_netmask(0xFFFF_FFFF), 32);
}

#[test]
fn broadcast_of_slash_24() {
    let net = NetworkTarget::from_cidr("192.168.1.0/24").unwrap();
    assert_eq!(net.addr, 0xC0A8_0100);
    assert_eq!(net.prefix, 24);
    // 192.168.1.255
    assert_eq!(net.broadcast(), 0xC0A8_01FF);
}

#[test]
fn broadcast_edge_prefixes() {
    let all = NetworkTarget::new(0x0A00_0001, 0).unwrap();
    assert_eq!(all.broadcast(), 0xFFFF_FFFF);
    let host = NetworkTarget::new(0x0A00_0001, 32).unwrap();
    assert_eq!(host.broadcast(), 0x0A00_0001);
}

#[test]
fn new_rejects_prefix_over_32() {
    assert!(NetworkTarget::new(0, 33).is_none());
    assert!(NetworkTarget::new(0, 32).is_some());
}

#[test]
fn cidr_parse_failure_is_reported_with_input() {
    let r = networks_from_cidrs(&vec!["not-a-cidr".to_string()]);
    match r {
        Err(NetworkError::InvalidCidr { input }) => assert_eq!(input, "not-a-cidr"),
        _ => panic!("expected an invalid-CIDR error"),
    }
}

#[test]
fn one_bad_cidr_fails_the_whole_list() {
    let r = networks_from_cidrs(&vec!["192.168.1.0/24".to_string(), "10.0.0.0/33".to_string()]);
    assert!(matches!(r, Err(NetworkError::InvalidCidr { .. })));
}

#[test]
fn good_cidr_list_resolves_in_order() {
    let r = networks_from_cidrs(&vec!["192.168.1.0/24".to_string(), "10.0.0.0/8".to_string()])
        .unwrap();
    assert_eq!(r.len(), 2);
    assert_eq!(r[0].addr, 0xC0A8_0100);
    assert_eq!(r[0].prefix, 24);
    assert_eq!(r[1].addr, 0x0A00_0000);
    assert_eq!(r[1].prefix, 8);
}

#[test]
fn interface_entries_yield_one_network_per_ipv4() {
    let entries = vec![
        IfaceAddr::V4 { ip: 0xC0A8_0105, netmask: 0xFFFF_FF00 },
        IfaceAddr::V6,
        IfaceAddr::V4 { ip: 0x0A00_0001, netmask: 0xFFFF_0000 },
    ];
    let nets = networks_from_interfaces(&entries);
    assert_eq!(nets.len(), 2);
    assert_eq!(nets[0].addr, 0xC0A8_0105);
    assert_eq!(nets[0].prefix, 24);
    assert_eq!(nets[1].addr, 0x0A00_0001);
    assert_eq!(nets[1].prefix, 16);
}

#[test]
fn local_discovery_yields_well_formed_networks() {
    if let Ok(nets) = discover_local_networks() {
        for n in nets {
            assert!(n.prefix <= 32);
        }
    }
}

#[test]
fn file_lines_filtering() {
    let lines = vec![
        "# comment".to_string(),
        "// comment".to_string(),
        "".to_string(),
        "00:11:22:33:44:55".to_string(),
        "00:11:22".to_string(),
    ];
    let kept = filter_mac_lines(&lines);
    assert_eq!(kept, vec!["00:11:22:33:44:55".to_string()]);
}

#[test]
fn file_lines_are_trimmed_and_checked_for_separator() {
    let lines = vec![
        "  00:11:22:33:44:55\t".to_string(),
        "00112233445566778".to_string(),
        "   ".to_string(),
    ];
    let kept = filter_mac_lines(&lines);
    assert_eq!(kept, vec!["00:11:22:33:44:55".to_string()]);
}
