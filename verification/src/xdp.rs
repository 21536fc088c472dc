//! Reporting of raw packet sightings: each captured Ethernet header becomes
//! a session-relative timestamp and a line naming the frame type and the
//! source and destination hardware addresses.

use vstd::prelude::*;

use crate::records::{EthHeader, EtherHeaderType};

verus! {

/// The uppercase hexadecimal digit of a value below sixteen.
pub open spec fn hex_digit(n: int) -> Seq<char> {
    if n == 0 {
        "0"@
    } else if n == 1 {
        "1"@
    } else if n == 2 {
        "2"@
    } else if n == 3 {
        "3"@
    } else if n == 4 {
        "4"@
    } else if n == 5 {
        "5"@
    } else if n == 6 {
        "6"@
    } else if n == 7 {
        "7"@
    } else if n == 8 {
        "8"@
    } else if n == 9 {
        "9"@
    } else if n == 10 {
        "A"@
    } else if n == 11 {
        "B"@
    } else if n == 12 {
        "C"@
    } else if n == 13 {
        "D"@
    } else if n == 14 {
        "E"@
    } else {
        "F"@
    }
}

/// A byte as two uppercase hexadecimal digits, zero-padded.
pub open spec fn hex_byte(b: int) -> Seq<char> {
    hex_digit(b / 16) + hex_digit(b % 16)
}

/// A hardware address as six colon-separated hexadecimal byte pairs.
pub open spec fn mac_string(a: Seq<u8>) -> Seq<char> {
    hex_byte(a[0] as int) + ":"@ + hex_byte(a[1] as int) + ":"@ + hex_byte(a[2] as int) + ":"@
        + hex_byte(a[3] as int) + ":"@ + hex_byte(a[4] as int) + ":"@ + hex_byte(a[5] as int)
}

pub open spec fn ether_frame_label(t: EtherHeaderType) -> Seq<char> {
    match t {
        EtherHeaderType::Loop => "Loop"@,
        EtherHeaderType::Ipv4 => "IPv4"@,
        EtherHeaderType::Arp => "ARP"@,
        EtherHeaderType::Ipv6 => "IPv6"@,
        EtherHeaderType::FibreChannel => "FibreChannel"@,
        EtherHeaderType::Infiniband => "Infiniband"@,
        EtherHeaderType::LoopbackIeee8023 => "LoopbackIeee8023"@,
    }
}

/// The reported line for one captured header: frame type, source address,
/// destination address.
pub open spec fn packet_info(h: EthHeader) -> Seq<char> {
    ether_frame_label(h.ether_type) + ", SRC: "@ + mac_string(h.src_addr@) + ", DST: "@ + mac_string(
        h.dst_addr@,
    )
}

fn hex_digit_str(n: u8) -> (s: &'static str)
    requires
        n < 16,
    ensures
        s@ == hex_digit(n as int),
{
    match n {
        0 => "0",
        1 => "1",
        2 => "2",
        3 => "3",
        4 => "4",
        5 => "5",
        6 => "6",
        7 => "7",
        8 => "8",
        9 => "9",
        10 => "A",
        11 => "B",
        12 => "C",
        13 => "D",
        14 => "E",
        _ => "F",
    }
}

fn hex_byte_string(b: u8) -> (s: String)
    ensures
        s@ == hex_byte(b as int),
{
    let mut s = String::new();
    let high = hex_digit_str(b / 16);
    let low = hex_digit_str(b % 16);
    s.append(high);
    proof {
        assert(s@ =~= hex_digit(b as int / 16));
    }
    s.append(low);
    s
}

fn mac_to_string(a: &[u8; 6]) -> (s: String)
    ensures
        s@ == mac_string(a@),
{
    let mut s = hex_byte_string(a[0]);
    s.append(":");
    let b1 = hex_byte_string(a[1]);
    s.append(b1.as_str());
    s.append(":");
    let b2 = hex_byte_string(a[2]);
    s.append(b2.as_str());
    s.append(":");
    let b3 = hex_byte_string(a[3]);
    s.append(b3.as_str());
    s.append(":");
    let b4 = hex_byte_string(a[4]);
    s.append(b4.as_str());
    s.append(":");
    let b5 = hex_byte_string(a[5]);
    s.append(b5.as_str());
    s
}

/// The reported line for one captured header.
fn describe_packet(h: &EthHeader) -> (s: String)
    ensures
        s@ == packet_info(*h),
{
    let mut s = String::new();
    let frame_label = match h.ether_type {
        EtherHeaderType::Loop => "Loop",
        EtherHeaderType::Ipv4 => "IPv4",
        EtherHeaderType::Arp => "ARP",
        EtherHeaderType::Ipv6 => "IPv6",
        EtherHeaderType::FibreChannel => "FibreChannel",
        EtherHeaderType::Infiniband => "Infiniband",
        EtherHeaderType::LoopbackIeee8023 => "LoopbackIeee8023",
    };
    s.append(frame_label);
    proof {
        assert(s@ =~= ether_frame_label(h.ether_type));
    }
    s.append(", SRC: ");
    let src = mac_to_string(&h.src_addr);
    s.append(src.as_str());
    s.append(", DST: ");
    let dst = mac_to_string(&h.dst_addr);
    s.append(dst.as_str());
    s
}

/// One entry per captured header, in order: the capture time moved to the
/// session-relative clock, and the line describing the frame.
pub fn process_xdp(xdp_times: Vec<(u64, EthHeader)>, initial_time: u64) -> (out: Vec<(u64, String)>)
    ensures
        out@.len() == xdp_times@.len(),
        forall|k: int|
            0 <= k < out@.len() ==> (#[trigger] out@[k]).0 == xdp_times@[k].0.saturating_sub(
                initial_time,
            ) && out@[k].1@ == packet_info(xdp_times@[k].1),
{
    let mut out: Vec<(u64, String)> = Vec::new();
    let mut i: usize = 0;
    while i < xdp_times.len()
        invariant
            0 <= i <= xdp_times@.len(),
            out@.len() == i,
            forall|k: int|
                0 <= k < i ==> (#[trigger] out@[k]).0 == xdp_times@[k].0.saturating_sub(
                    initial_time,
                ) && out@[k].1@ == packet_info(xdp_times@[k].1),
        decreases xdp_times@.len() - i,
    {
        let time = xdp_times[i].0;
        let info = describe_packet(&xdp_times[i].1);
        out.push((time.saturating_sub(initial_time), info));
        i = i + 1;
    }
    out
}

} // verus!
