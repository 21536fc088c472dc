use net_profiling::records::{PacketDirection, ThroughputStat};
use net_profiling::throughput::{collect_queue, process_throughput, Interface};

fn stat(timestamp: u64, packet_size: u32, direction: PacketDirection, if_index: u32) -> ThroughputStat {
    ThroughputStat { timestamp, packet_size, direction, if_index }
}

#[test]
fn rows_carry_shifted_time_and_interface_name() {
    let interfaces = vec![
        Interface { name: String::from("lo"), index: Some(1) },
        Interface { name: String::from("eth0"), index: Some(2) },
    ];
    let stats = vec![
        stat(1_500, 64, PacketDirection::Ingress, 2),
        stat(1_700, 128, PacketDirection::Egress, 1),
    ];
    let rows = process_throughput(stats, interfaces, 1_000);
    assert_eq!(rows.len(), 2);
    assert_eq!(rows[0].0, 500);
    assert_eq!(rows[0].1, 64);
    assert_eq!(rows[0].2, PacketDirection::Ingress);
    assert_eq!(rows[0].3, "eth0");
    assert_eq!(rows[1].0, 700);
    assert_eq!(rows[1].3, "lo");
}

#[test]
fn unmatched_interface_index_reads_unknown() {
    let interfaces = vec![Interface { name: String::from("eth0"), index: Some(2) }];
    let stats = vec![stat(10, 60, PacketDirection::Ingress, 9)];
    let rows = process_throughput(stats, interfaces, 0);
    assert_eq!(rows[0].3, "Unknown");
}

#[test]
fn interfaces_without_an_index_never_match() {
    let interfaces = vec![
        Interface { name: String::from("ghost"), index: None },
        Interface { name: String::from("eth1"), index: Some(3) },
    ];
    let stats = vec![stat(10, 60, PacketDirection::Egress, 3)];
    let rows = process_throughput(stats, interfaces, 0);
    assert_eq!(rows[0].3, "eth1");
}

#[test]
fn collect_queue_drops_observations_from_before_the_session() {
    let stats = vec![
        stat(90, 64, PacketDirection::Ingress, 1),
        stat(100, 65, PacketDirection::Ingress, 1),
        stat(150, 66, PacketDirection::Egress, 1),
    ];
    let kept = collect_queue(stats, 100);
    assert_eq!(kept.len(), 2);
    assert_eq!(kept[0].packet_size, 65);
    assert_eq!(kept[1].packet_size, 66);
}
