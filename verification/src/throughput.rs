//! Packet throughput reporting: turns raw packet observations into rows
//! tagged with the interface name they crossed.

use vstd::prelude::*;

use crate::records::{PacketDirection, ThroughputStat};

verus! {

/// What the reporting needs to know of a network interface: its name, and
/// its interface index where the system gave one.
#[derive(Debug)]
pub struct Interface {
    pub name: String,
    pub index: Option<u32>,
}

/// One reported packet observation: session-relative timestamp, packet size
/// in bytes, direction, and the name of the interface it crossed.
#[derive(Debug)]
pub struct ThroughputRow(pub u64, pub u32, pub PacketDirection, pub String);

/// The name of the first listed interface with index `idx`; interfaces
/// without an index never match, and an index no interface carries reads
/// "Unknown".
pub open spec fn interface_name(ifaces: Seq<Interface>, idx: int) -> Seq<char>
    decreases ifaces.len(),
{
    if ifaces.len() == 0 {
        "Unknown"@
    } else {
        match ifaces[0].index {
            Some(i) => if i == idx {
                ifaces[0].name@
            } else {
                interface_name(ifaces.drop_first(), idx)
            },
            None => interface_name(ifaces.drop_first(), idx),
        }
    }
}

/// Keeps the observations captured from the session start on, in arrival
/// order; observations from before the session are discarded.
pub fn collect_queue(throughput_stats: Vec<ThroughputStat>, initial_time: u64) -> (kept: Vec<
    ThroughputStat,
>)
    ensures
        kept@ == throughput_stats@.filter(|s: ThroughputStat| s.timestamp >= initial_time),
{
    let mut kept: Vec<ThroughputStat> = Vec::new();
    let mut i: usize = 0;
    while i < throughput_stats.len()
        invariant
            0 <= i <= throughput_stats@.len(),
            kept@ == throughput_stats@.take(i as int).filter(
                |s: ThroughputStat| s.timestamp >= initial_time,
            ),
        decreases throughput_stats@.len() - i,
    {
        let s = throughput_stats[i];
        proof {
            reveal(Seq::filter);
            assert(throughput_stats@.take(i as int + 1).drop_last() =~= throughput_stats@.take(
                i as int,
            ));
            assert(throughput_stats@.take(i as int + 1).last() == throughput_stats@[i as int]);
        }
        if s.timestamp >= initial_time {
            kept.push(s);
        }
        i = i + 1;
    }
    proof {
        assert(throughput_stats@.take(throughput_stats@.len() as int) =~= throughput_stats@);
    }
    kept
}

/// The name of the first interface with the given index, or "Unknown".
fn lookup_interface_name(interfaces: &Vec<Interface>, if_index: u32) -> (name: String)
    ensures
        name@ == interface_name(interfaces@, if_index as int),
{
    let mut j: usize = 0;
    proof {
        assert(interfaces@.skip(0) =~= interfaces@);
    }
    while j < interfaces.len()
        invariant
            0 <= j <= interfaces@.len(),
            interface_name(interfaces@, if_index as int) == interface_name(
                interfaces@.skip(j as int),
                if_index as int,
            ),
        decreases interfaces@.len() - j,
    {
        let ghost rest = interfaces@.skip(j as int);
        proof {
            assert(rest[0] == interfaces@[j as int]);
            assert(rest.drop_first() =~= interfaces@.skip(j as int + 1));
        }
        let matched = match interfaces[j].index {
            Some(i) => i == if_index,
            None => false,
        };
        if matched {
            return interfaces[j].name.clone();
        }
        j = j + 1;
    }
    proof {
        assert(interfaces@.skip(interfaces@.len() as int) =~= Seq::<Interface>::empty());
    }
    "Unknown".to_owned()
}

/// One row per observation, in order: the timestamp moved to the
/// session-relative clock, the size and direction as captured, and the name
/// of the first listed interface whose index matches the observation's.
pub fn process_throughput(
    throughput_stats: Vec<ThroughputStat>,
    interfaces: Vec<Interface>,
    initial_time: u64,
) -> (rows: Vec<ThroughputRow>)
    ensures
        rows@.len() == throughput_stats@.len(),
        forall|k: int|
            0 <= k < rows@.len() ==> {
                let r = #[trigger] rows@[k];
                let s = throughput_stats@[k];
                r.0 == s.timestamp.saturating_sub(initial_time) && r.1 == s.packet_size && r.2
                    == s.direction && r.3@ == interface_name(interfaces@, s.if_index as int)
            },
{
    let mut rows: Vec<ThroughputRow> = Vec::new();
    let mut i: usize = 0;
    while i < throughput_stats.len()
        invariant
            0 <= i <= throughput_stats@.len(),
            rows@.len() == i,
            forall|k: int|
                0 <= k < i ==> {
                    let r = #[trigger] rows@[k];
                    let s = throughput_stats@[k];
                    r.0 == s.timestamp.saturating_sub(initial_time) && r.1 == s.packet_size
                        && r.2 == s.direction && r.3@ == interface_name(
                        interfaces@,
                        s.if_index as int,
                    )
                },
        decreases throughput_stats@.len() - i,
    {
        let s = throughput_stats[i];
        let name = lookup_interface_name(&interfaces, s.if_index);
        rows.push(
            ThroughputRow(s.timestamp.saturating_sub(initial_time), s.packet_size, s.direction, name),
        );
        i = i + 1;
    }
    rows
}

} // verus!
