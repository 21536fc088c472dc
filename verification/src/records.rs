//! Shared record definitions: the event shapes the capture layer emits and
//! the derived statistics the engines produce.

use vstd::prelude::*;

verus! {

/// Direction of a captured function-boundary event.
#[derive(Clone, Copy, Debug, PartialEq, Eq, Hash, Structural)]
pub enum FunctionDirection {
    Entry,
    Exit,
}

/// A closed catalog of instrumented functions: each member has a stable
/// small-integer tag and a symbol name.  The reconstruction engine pairs
/// events by the tag and reports rows under the name.
pub trait Program: Sized + Clone + Copy {
    /// The stable integer tag of this catalog member.
    spec fn id_spec(self) -> int;

    /// The symbol name of this catalog member.
    spec fn name_spec(self) -> Seq<char>;

    fn as_id(self) -> (id: u16)
        ensures
            id as int == self.id_spec(),
    ;

    fn to_str(self) -> (name: &'static str)
        ensures
            name@ == self.name_spec(),
    ;
}

/// One captured function-boundary event; its timestamp is the key under
/// which the capture layer stores it.
#[derive(Clone, Copy, Debug)]
pub struct FunctionCall<F: Program> {
    pub function: F,
    pub direction: FunctionDirection,
    /// 1-based nesting depth on the event's CPU, recorded for reporting and
    /// self-time computation, not used as a pairing key.
    pub depth: u32,
    pub cpuid: u32,
}

/// Which allocator subsystem produced an allocation record.
#[allow(non_camel_case_types)]
#[derive(Clone, Copy, Debug, PartialEq, Eq, Structural)]
pub enum AllocType {
    kmalloc,
    kmem_cache,
}

/// Direction of an allocation-lifecycle record.
#[derive(Clone, Copy, Debug, PartialEq, Eq, Structural)]
pub enum AllocDirection {
    Alloc,
    Free,
}

/// One allocation-lifecycle record.  A `Free` always carries the size,
/// call-site id and process id inherited from its paired `Alloc`; pairing by
/// address happens upstream, before the record reaches the tracker.
#[derive(Clone, Copy, Debug)]
pub struct AllocInfo {
    pub alloc_type: AllocType,
    pub alloc_direction: AllocDirection,
    pub size: u64,
    pub timestamp: u64,
    pub stack_id: i64,
    pub pid: u32,
}

/// Per-call-site memory usage statistics, derived from the allocation
/// stream.  `current_usage` is signed: it goes negative when a free without
/// its allocation is visible in the capture window, and that is surfaced
/// unmodified as evidence of an incomplete window.
#[derive(Clone, Copy, Debug)]
pub struct MemStat {
    pub total_allocated: u64,
    pub total_freed: u64,
    pub current_usage: i64,
    pub peak_usage: u64,
    pub alloc_count: u32,
    pub free_count: u32,
}

/// Direction of a counted packet.
#[derive(Clone, Copy, Debug, PartialEq, Eq, Hash, Structural)]
pub enum PacketDirection {
    Ingress,
    Egress,
}

/// One packet observation from the traffic-control hook.
#[derive(Clone, Copy, Debug, PartialEq, Eq, Hash, Structural)]
pub struct ThroughputStat {
    pub timestamp: u64,
    pub packet_size: u32,
    pub direction: PacketDirection,
    pub if_index: u32,
}

/// Ethernet frame header as delivered by the packet capture hook.
#[derive(Clone, Copy, Debug, PartialEq, Eq, Hash)]
pub struct EthHeader {
    pub dst_addr: [u8; 6],
    pub src_addr: [u8; 6],
    pub ether_type: EtherHeaderType,
}

/// The frame types the capture hook decodes.
#[derive(Clone, Copy, Debug, PartialEq, Eq, Hash, Structural)]
pub enum EtherHeaderType {
    Loop,
    Ipv4,
    Arp,
    Ipv6,
    FibreChannel,
    Infiniband,
    LoopbackIeee8023,
}

} // verus!
