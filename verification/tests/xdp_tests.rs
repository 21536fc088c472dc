use net_profiling::records::{EthHeader, EtherHeaderType};
use net_profiling::xdp::process_xdp;

#[test]
fn packet_lines_name_type_and_addresses() {
    let header = EthHeader {
        dst_addr: [0x00, 0x1B, 0x44, 0x11, 0x3A, 0xB7],
        src_addr: [0xAA, 0xBB, 0x0C, 0x00, 0x01, 0xFF],
        ether_type: EtherHeaderType::Ipv4,
    };
    let out = process_xdp(vec![(1_200, header)], 1_000);
    assert_eq!(out.len(), 1);
    assert_eq!(out[0].0, 200);
    assert_eq!(out[0].1, "IPv4, SRC: AA:BB:0C:00:01:FF, DST: 00:1B:44:11:3A:B7");
}

#[test]
fn each_frame_type_has_its_label() {
    let mut header = EthHeader {
        dst_addr: [0; 6],
        src_addr: [0; 6],
        ether_type: EtherHeaderType::Arp,
    };
    let out = process_xdp(vec![(0, header)], 0);
    assert!(out[0].1.starts_with("ARP, "));
    header.ether_type = EtherHeaderType::Ipv6;
    let out = process_xdp(vec![(0, header)], 0);
    assert!(out[0].1.starts_with("IPv6, "));
    header.ether_type = EtherHeaderType::LoopbackIeee8023;
    let out = process_xdp(vec![(0, header)], 0);
    assert!(out[0].1.starts_with("LoopbackIeee8023, "));
}

#[test]
fn times_before_the_session_saturate_at_zero() {
    let header = EthHeader {
        dst_addr: [0; 6],
        src_addr: [0; 6],
        ether_type: EtherHeaderType::Loop,
    };
    let out = process_xdp(vec![(500, header)], 1_000);
    assert_eq!(out[0].0, 0);
    assert_eq!(out[0].1, "Loop, SRC: 00:00:00:00:00:00, DST: 00:00:00:00:00:00");
}
