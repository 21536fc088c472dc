//! The closed catalogs of instrumented functions.  Each member carries a
//! stable small-integer tag, under which the reconstruction engine pairs
//! its events, and its symbol name, under which rows are reported; a dot in
//! a kernel symbol is spelled `_p_` in the member's name.

use vstd::prelude::*;

use crate::records::Program;

verus! {


/// The instrumented functions of the kernel network path.
#[allow(non_camel_case_types)]
#[derive(Clone, Copy, Debug, PartialEq, Eq, Hash, Structural)]
pub enum KernelFunction {
    e1000_netpoll,
    net_rx_action,
    __napi_poll,
    __netif_receive_skb,
    netif_receive_skb,
    netif_receive_skb_core,
    __netif_receive_skb_core_p_constprop_p_0,
    napi_gro_receive,
    napi_complete_done,
    skb_gro_receive_list,
    eth_type_trans,
    eth_header,
    __dev_queue_xmit,
    dev_queue_xmit_nit,
    ip_list_rcv,
    ip_sublist_rcv,
    ip_rcv,
    ip_rcv_core,
    ip_rcv_finish,
    ip_rcv_finish_core_p_isra_p_0,
    ip_local_deliver,
    ip_mr_input,
    ip_send_skb,
    ip_route_input_rcu_p_part_p_0,
    ip_route_input_noref,
    ip_route_input_slow,
    __fib_lookup,
    fib_table_lookup,
    xdst_queue_output,
    ip_forward,
    ip_forward_options,
    ip_send_check,
    __icmp_send,
    icmp_push_reply,
    ip_append_data,
    ip_setup_cork_p_constprop_p_0,
    tcp_v4_rcv,
    udp_rcv,
    tcp_v4_do_rcv,
    udp_queue_rcv_skb,
    __tcp_transmit_skb,
    udp_send_skb,
    skb_queue_tail,
    vsock_queue_rcv_skb,
    __sock_queue_rcv_skb,
    dev_hard_start_xmit,
    ip_output,
    ip_finish_output,
    ip_finish_output2,
    ip_queue_xmit,
    netpoll_start_xmit,
    __qdisc_run,
    sch_direct_xmit,
    neigh_resolve_output,
    netif_rx,
    netif_rx_internal,
    nf_hook_slow,
    ipt_do_table,
    ip_options_compile,
    ip_fragment_p_constprop_p_0,
    do_xdp_generic,
    xdp_do_redirect,
    bpf_xdp_redirect,
    bpf_msg_redirect_map,
    bpf_sk_redirect_map,
    bpf_xdp_redirect_map,
}

impl KernelFunction {
    /// Number of catalog members.
    pub open spec fn count_spec() -> int {
        66
    }

    /// Number of catalog members, for callers that must screen a raw
    /// tag before turning it into a member.
    pub fn member_count() -> (n: u16)
        ensures
            n as int == KernelFunction::count_spec(),
    {
        66
    }

    /// The member carrying a stable tag.
    pub fn from_id(id: u16) -> (f: KernelFunction)
        requires
            id < KernelFunction::count_spec(),
        ensures
            f.id_spec() == id as int,
    {
        match id {
            0 => KernelFunction::e1000_netpoll,
            1 => KernelFunction::net_rx_action,
            2 => KernelFunction::__napi_poll,
            3 => KernelFunction::__netif_receive_skb,
            4 => KernelFunction::netif_receive_skb,
            5 => KernelFunction::netif_receive_skb_core,
            6 => KernelFunction::__netif_receive_skb_core_p_constprop_p_0,
            7 => KernelFunction::napi_gro_receive,
            8 => KernelFunction::napi_complete_done,
            9 => KernelFunction::skb_gro_receive_list,
            10 => KernelFunction::eth_type_trans,
            11 => KernelFunction::eth_header,
            12 => KernelFunction::__dev_queue_xmit,
            13 => KernelFunction::dev_queue_xmit_nit,
            14 => KernelFunction::ip_list_rcv,
            15 => KernelFunction::ip_sublist_rcv,
            16 => KernelFunction::ip_rcv,
            17 => KernelFunction::ip_rcv_core,
            18 => KernelFunction::ip_rcv_finish,
            19 => KernelFunction::ip_rcv_finish_core_p_isra_p_0,
            20 => KernelFunction::ip_local_deliver,
            21 => KernelFunction::ip_mr_input,
            22 => KernelFunction::ip_send_skb,
            23 => KernelFunction::ip_route_input_rcu_p_part_p_0,
            24 => KernelFunction::ip_route_input_noref,
            25 => KernelFunction::ip_route_input_slow,
            26 => KernelFunction::__fib_lookup,
            27 => KernelFunction::fib_table_lookup,
            28 => KernelFunction::xdst_queue_output,
            29 => KernelFunction::ip_forward,
            30 => KernelFunction::ip_forward_options,
            31 => KernelFunction::ip_send_check,
            32 => KernelFunction::__icmp_send,
            33 => KernelFunction::icmp_push_reply,
            34 => KernelFunction::ip_append_data,
            35 => KernelFunction::ip_setup_cork_p_constprop_p_0,
            36 => KernelFunction::tcp_v4_rcv,
            37 => KernelFunction::udp_rcv,
            38 => KernelFunction::tcp_v4_do_rcv,
            39 => KernelFunction::udp_queue_rcv_skb,
            40 => KernelFunction::__tcp_transmit_skb,
            41 => KernelFunction::udp_send_skb,
            42 => KernelFunction::skb_queue_tail,
            43 => KernelFunction::vsock_queue_rcv_skb,
            44 => KernelFunction::__sock_queue_rcv_skb,
            45 => KernelFunction::dev_hard_start_xmit,
            46 => KernelFunction::ip_output,
            47 => KernelFunction::ip_finish_output,
            48 => KernelFunction::ip_finish_output2,
            49 => KernelFunction::ip_queue_xmit,
            50 => KernelFunction::netpoll_start_xmit,
            51 => KernelFunction::__qdisc_run,
            52 => KernelFunction::sch_direct_xmit,
            53 => KernelFunction::neigh_resolve_output,
            54 => KernelFunction::netif_rx,
            55 => KernelFunction::netif_rx_internal,
            56 => KernelFunction::nf_hook_slow,
            57 => KernelFunction::ipt_do_table,
            58 => KernelFunction::ip_options_compile,
            59 => KernelFunction::ip_fragment_p_constprop_p_0,
            60 => KernelFunction::do_xdp_generic,
            61 => KernelFunction::xdp_do_redirect,
            62 => KernelFunction::bpf_xdp_redirect,
            63 => KernelFunction::bpf_msg_redirect_map,
            64 => KernelFunction::bpf_sk_redirect_map,
            _ => KernelFunction::bpf_xdp_redirect_map,
        }
    }
}

impl Program for KernelFunction {
    open spec fn id_spec(self) -> int {
        match self {
            KernelFunction::e1000_netpoll => 0,
            KernelFunction::net_rx_action => 1,
            KernelFunction::__napi_poll => 2,
            KernelFunction::__netif_receive_skb => 3,
            KernelFunction::netif_receive_skb => 4,
            KernelFunction::netif_receive_skb_core => 5,
            KernelFunction::__netif_receive_skb_core_p_constprop_p_0 => 6,
            KernelFunction::napi_gro_receive => 7,
            KernelFunction::napi_complete_done => 8,
            KernelFunction::skb_gro_receive_list => 9,
            KernelFunction::eth_type_trans => 10,
            KernelFunction::eth_header => 11,
            KernelFunction::__dev_queue_xmit => 12,
            KernelFunction::dev_queue_xmit_nit => 13,
            KernelFunction::ip_list_rcv => 14,
            KernelFunction::ip_sublist_rcv => 15,
            KernelFunction::ip_rcv => 16,
            KernelFunction::ip_rcv_core => 17,
            KernelFunction::ip_rcv_finish => 18,
            KernelFunction::ip_rcv_finish_core_p_isra_p_0 => 19,
            KernelFunction::ip_local_deliver => 20,
            KernelFunction::ip_mr_input => 21,
            KernelFunction::ip_send_skb => 22,
            KernelFunction::ip_route_input_rcu_p_part_p_0 => 23,
            KernelFunction::ip_route_input_noref => 24,
            KernelFunction::ip_route_input_slow => 25,
            KernelFunction::__fib_lookup => 26,
            KernelFunction::fib_table_lookup => 27,
            KernelFunction::xdst_queue_output => 28,
            KernelFunction::ip_forward => 29,
            KernelFunction::ip_forward_options => 30,
            KernelFunction::ip_send_check => 31,
            KernelFunction::__icmp_send => 32,
            KernelFunction::icmp_push_reply => 33,
            KernelFunction::ip_append_data => 34,
            KernelFunction::ip_setup_cork_p_constprop_p_0 => 35,
            KernelFunction::tcp_v4_rcv => 36,
            KernelFunction::udp_rcv => 37,
            KernelFunction::tcp_v4_do_rcv => 38,
            KernelFunction::udp_queue_rcv_skb => 39,
            KernelFunction::__tcp_transmit_skb => 40,
            KernelFunction::udp_send_skb => 41,
            KernelFunction::skb_queue_tail => 42,
            KernelFunction::vsock_queue_rcv_skb => 43,
            KernelFunction::__sock_queue_rcv_skb => 44,
            KernelFunction::dev_hard_start_xmit => 45,
            KernelFunction::ip_output => 46,
            KernelFunction::ip_finish_output => 47,
            KernelFunction::ip_finish_output2 => 48,
            KernelFunction::ip_queue_xmit => 49,
            KernelFunction::netpoll_start_xmit => 50,
            KernelFunction::__qdisc_run => 51,
            KernelFunction::sch_direct_xmit => 52,
            KernelFunction::neigh_resolve_output => 53,
            KernelFunction::netif_rx => 54,
            KernelFunction::netif_rx_internal => 55,
            KernelFunction::nf_hook_slow => 56,
            KernelFunction::ipt_do_table => 57,
            KernelFunction::ip_options_compile => 58,
            KernelFunction::ip_fragment_p_constprop_p_0 => 59,
            KernelFunction::do_xdp_generic => 60,
            KernelFunction::xdp_do_redirect => 61,
            KernelFunction::bpf_xdp_redirect => 62,
            KernelFunction::bpf_msg_redirect_map => 63,
            KernelFunction::bpf_sk_redirect_map => 64,
            KernelFunction::bpf_xdp_redirect_map => 65,
        }
    }

    open spec fn name_spec(self) -> Seq<char> {
        match self {
            KernelFunction::e1000_netpoll => "e1000_netpoll"@,
            KernelFunction::net_rx_action => "net_rx_action"@,
            KernelFunction::__napi_poll => "__napi_poll"@,
            KernelFunction::__netif_receive_skb => "__netif_receive_skb"@,
            KernelFunction::netif_receive_skb => "netif_receive_skb"@,
            KernelFunction::netif_receive_skb_core => "netif_receive_skb_core"@,
            KernelFunction::__netif_receive_skb_core_p_constprop_p_0 => "__netif_receive_skb_core_p_constprop_p_0"@,
            KernelFunction::napi_gro_receive => "napi_gro_receive"@,
            KernelFunction::napi_complete_done => "napi_complete_done"@,
            KernelFunction::skb_gro_receive_list => "skb_gro_receive_list"@,
            KernelFunction::eth_type_trans => "eth_type_trans"@,
            KernelFunction::eth_header => "eth_header"@,
            KernelFunction::__dev_queue_xmit => "__dev_queue_xmit"@,
            KernelFunction::dev_queue_xmit_nit => "dev_queue_xmit_nit"@,
            KernelFunction::ip_list_rcv => "ip_list_rcv"@,
            KernelFunction::ip_sublist_rcv => "ip_sublist_rcv"@,
            KernelFunction::ip_rcv => "ip_rcv"@,
            KernelFunction::ip_rcv_core => "ip_rcv_core"@,
            KernelFunction::ip_rcv_finish => "ip_rcv_finish"@,
            KernelFunction::ip_rcv_finish_core_p_isra_p_0 => "ip_rcv_finish_core_p_isra_p_0"@,
            KernelFunction::ip_local_deliver => "ip_local_deliver"@,
            KernelFunction::ip_mr_input => "ip_mr_input"@,
            KernelFunction::ip_send_skb => "ip_send_skb"@,
            KernelFunction::ip_route_input_rcu_p_part_p_0 => "ip_route_input_rcu_p_part_p_0"@,
            KernelFunction::ip_route_input_noref => "ip_route_input_noref"@,
            KernelFunction::ip_route_input_slow => "ip_route_input_slow"@,
            KernelFunction::__fib_lookup => "__fib_lookup"@,
            KernelFunction::fib_table_lookup => "fib_table_lookup"@,
            KernelFunction::xdst_queue_output => "xdst_queue_output"@,
            KernelFunction::ip_forward => "ip_forward"@,
            KernelFunction::ip_forward_options => "ip_forward_options"@,
            KernelFunction::ip_send_check => "ip_send_check"@,
            KernelFunction::__icmp_send => "__icmp_send"@,
            KernelFunction::icmp_push_reply => "icmp_push_reply"@,
            KernelFunction::ip_append_data => "ip_append_data"@,
            KernelFunction::ip_setup_cork_p_constprop_p_0 => "ip_setup_cork_p_constprop_p_0"@,
            KernelFunction::tcp_v4_rcv => "tcp_v4_rcv"@,
            KernelFunction::udp_rcv => "udp_rcv"@,
            KernelFunction::tcp_v4_do_rcv => "tcp_v4_do_rcv"@,
            KernelFunction::udp_queue_rcv_skb => "udp_queue_rcv_skb"@,
            KernelFunction::__tcp_transmit_skb => "__tcp_transmit_skb"@,
            KernelFunction::udp_send_skb => "udp_send_skb"@,
            KernelFunction::skb_queue_tail => "skb_queue_tail"@,
            KernelFunction::vsock_queue_rcv_skb => "vsock_queue_rcv_skb"@,
            KernelFunction::__sock_queue_rcv_skb => "__sock_queue_rcv_skb"@,
            KernelFunction::dev_hard_start_xmit => "dev_hard_start_xmit"@,
            KernelFunction::ip_output => "ip_output"@,
            KernelFunction::ip_finish_output => "ip_finish_output"@,
            KernelFunction::ip_finish_output2 => "ip_finish_output2"@,
            KernelFunction::ip_queue_xmit => "ip_queue_xmit"@,
            KernelFunction::netpoll_start_xmit => "netpoll_start_xmit"@,
            KernelFunction::__qdisc_run => "__qdisc_run"@,
            KernelFunction::sch_direct_xmit => "sch_direct_xmit"@,
            KernelFunction::neigh_resolve_output => "neigh_resolve_output"@,
            KernelFunction::netif_rx => "netif_rx"@,
            KernelFunction::netif_rx_internal => "netif_rx_internal"@,
            KernelFunction::nf_hook_slow => "nf_hook_slow"@,
            KernelFunction::ipt_do_table => "ipt_do_table"@,
            KernelFunction::ip_options_compile => "ip_options_compile"@,
            KernelFunction::ip_fragment_p_constprop_p_0 => "ip_fragment_p_constprop_p_0"@,
            KernelFunction::do_xdp_generic => "do_xdp_generic"@,
            KernelFunction::xdp_do_redirect => "xdp_do_redirect"@,
            KernelFunction::bpf_xdp_redirect => "bpf_xdp_redirect"@,
            KernelFunction::bpf_msg_redirect_map => "bpf_msg_redirect_map"@,
            KernelFunction::bpf_sk_redirect_map => "bpf_sk_redirect_map"@,
            KernelFunction::bpf_xdp_redirect_map => "bpf_xdp_redirect_map"@,
        }
    }

    fn as_id(self) -> u16 {
        match self {
            KernelFunction::e1000_netpoll => 0,
            KernelFunction::net_rx_action => 1,
            KernelFunction::__napi_poll => 2,
            KernelFunction::__netif_receive_skb => 3,
            KernelFunction::netif_receive_skb => 4,
            KernelFunction::netif_receive_skb_core => 5,
            KernelFunction::__netif_receive_skb_core_p_constprop_p_0 => 6,
            KernelFunction::napi_gro_receive => 7,
            KernelFunction::napi_complete_done => 8,
            KernelFunction::skb_gro_receive_list => 9,
            KernelFunction::eth_type_trans => 10,
            KernelFunction::eth_header => 11,
            KernelFunction::__dev_queue_xmit => 12,
            KernelFunction::dev_queue_xmit_nit => 13,
            KernelFunction::ip_list_rcv => 14,
            KernelFunction::ip_sublist_rcv => 15,
            KernelFunction::ip_rcv => 16,
            KernelFunction::ip_rcv_core => 17,
            KernelFunction::ip_rcv_finish => 18,
            KernelFunction::ip_rcv_finish_core_p_isra_p_0 => 19,
            KernelFunction::ip_local_deliver => 20,
            KernelFunction::ip_mr_input => 21,
            KernelFunction::ip_send_skb => 22,
            KernelFunction::ip_route_input_rcu_p_part_p_0 => 23,
            KernelFunction::ip_route_input_noref => 24,
            KernelFunction::ip_route_input_slow => 25,
            KernelFunction::__fib_lookup => 26,
            KernelFunction::fib_table_lookup => 27,
            KernelFunction::xdst_queue_output => 28,
            KernelFunction::ip_forward => 29,
            KernelFunction::ip_forward_options => 30,
            KernelFunction::ip_send_check => 31,
            KernelFunction::__icmp_send => 32,
            KernelFunction::icmp_push_reply => 33,
            KernelFunction::ip_append_data => 34,
            KernelFunction::ip_setup_cork_p_constprop_p_0 => 35,
            KernelFunction::tcp_v4_rcv => 36,
            KernelFunction::udp_rcv => 37,
            KernelFunction::tcp_v4_do_rcv => 38,
            KernelFunction::udp_queue_rcv_skb => 39,
            KernelFunction::__tcp_transmit_skb => 40,
            KernelFunction::udp_send_skb => 41,
            KernelFunction::skb_queue_tail => 42,
            KernelFunction::vsock_queue_rcv_skb => 43,
            KernelFunction::__sock_queue_rcv_skb => 44,
            KernelFunction::dev_hard_start_xmit => 45,
            KernelFunction::ip_output => 46,
            KernelFunction::ip_finish_output => 47,
            KernelFunction::ip_finish_output2 => 48,
            KernelFunction::ip_queue_xmit => 49,
            KernelFunction::netpoll_start_xmit => 50,
            KernelFunction::__qdisc_run => 51,
            KernelFunction::sch_direct_xmit => 52,
            KernelFunction::neigh_resolve_output => 53,
            KernelFunction::netif_rx => 54,
            KernelFunction::netif_rx_internal => 55,
            KernelFunction::nf_hook_slow => 56,
            KernelFunction::ipt_do_table => 57,
            KernelFunction::ip_options_compile => 58,
            KernelFunction::ip_fragment_p_constprop_p_0 => 59,
            KernelFunction::do_xdp_generic => 60,
            KernelFunction::xdp_do_redirect => 61,
            KernelFunction::bpf_xdp_redirect => 62,
            KernelFunction::bpf_msg_redirect_map => 63,
            KernelFunction::bpf_sk_redirect_map => 64,
            KernelFunction::bpf_xdp_redirect_map => 65,
        }
    }

    fn to_str(self) -> &'static str {
        match self {
            KernelFunction::e1000_netpoll => "e1000_netpoll",
            KernelFunction::net_rx_action => "net_rx_action",
            KernelFunction::__napi_poll => "__napi_poll",
            KernelFunction::__netif_receive_skb => "__netif_receive_skb",
            KernelFunction::netif_receive_skb => "netif_receive_skb",
            KernelFunction::netif_receive_skb_core => "netif_receive_skb_core",
            KernelFunction::__netif_receive_skb_core_p_constprop_p_0 => "__netif_receive_skb_core_p_constprop_p_0",
            KernelFunction::napi_gro_receive => "napi_gro_receive",
            KernelFunction::napi_complete_done => "napi_complete_done",
            KernelFunction::skb_gro_receive_list => "skb_gro_receive_list",
            KernelFunction::eth_type_trans => "eth_type_trans",
            KernelFunction::eth_header => "eth_header",
            KernelFunction::__dev_queue_xmit => "__dev_queue_xmit",
            KernelFunction::dev_queue_xmit_nit => "dev_queue_xmit_nit",
            KernelFunction::ip_list_rcv => "ip_list_rcv",
            KernelFunction::ip_sublist_rcv => "ip_sublist_rcv",
            KernelFunction::ip_rcv => "ip_rcv",
            KernelFunction::ip_rcv_core => "ip_rcv_core",
            KernelFunction::ip_rcv_finish => "ip_rcv_finish",
            KernelFunction::ip_rcv_finish_core_p_isra_p_0 => "ip_rcv_finish_core_p_isra_p_0",
            KernelFunction::ip_local_deliver => "ip_local_deliver",
            KernelFunction::ip_mr_input => "ip_mr_input",
            KernelFunction::ip_send_skb => "ip_send_skb",
            KernelFunction::ip_route_input_rcu_p_part_p_0 => "ip_route_input_rcu_p_part_p_0",
            KernelFunction::ip_route_input_noref => "ip_route_input_noref",
            KernelFunction::ip_route_input_slow => "ip_route_input_slow",
            KernelFunction::__fib_lookup => "__fib_lookup",
            KernelFunction::fib_table_lookup => "fib_table_lookup",
            KernelFunction::xdst_queue_output => "xdst_queue_output",
            KernelFunction::ip_forward => "ip_forward",
            KernelFunction::ip_forward_options => "ip_forward_options",
            KernelFunction::ip_send_check => "ip_send_check",
            KernelFunction::__icmp_send => "__icmp_send",
            KernelFunction::icmp_push_reply => "icmp_push_reply",
            KernelFunction::ip_append_data => "ip_append_data",
            KernelFunction::ip_setup_cork_p_constprop_p_0 => "ip_setup_cork_p_constprop_p_0",
            KernelFunction::tcp_v4_rcv => "tcp_v4_rcv",
            KernelFunction::udp_rcv => "udp_rcv",
            KernelFunction::tcp_v4_do_rcv => "tcp_v4_do_rcv",
            KernelFunction::udp_queue_rcv_skb => "udp_queue_rcv_skb",
            KernelFunction::__tcp_transmit_skb => "__tcp_transmit_skb",
            KernelFunction::udp_send_skb => "udp_send_skb",
            KernelFunction::skb_queue_tail => "skb_queue_tail",
            KernelFunction::vsock_queue_rcv_skb => "vsock_queue_rcv_skb",
            KernelFunction::__sock_queue_rcv_skb => "__sock_queue_rcv_skb",
            KernelFunction::dev_hard_start_xmit => "dev_hard_start_xmit",
            KernelFunction::ip_output => "ip_output",
            KernelFunction::ip_finish_output => "ip_finish_output",
            KernelFunction::ip_finish_output2 => "ip_finish_output2",
            KernelFunction::ip_queue_xmit => "ip_queue_xmit",
            KernelFunction::netpoll_start_xmit => "netpoll_start_xmit",
            KernelFunction::__qdisc_run => "__qdisc_run",
            KernelFunction::sch_direct_xmit => "sch_direct_xmit",
            KernelFunction::neigh_resolve_output => "neigh_resolve_output",
            KernelFunction::netif_rx => "netif_rx",
            KernelFunction::netif_rx_internal => "netif_rx_internal",
            KernelFunction::nf_hook_slow => "nf_hook_slow",
            KernelFunction::ipt_do_table => "ipt_do_table",
            KernelFunction::ip_options_compile => "ip_options_compile",
            KernelFunction::ip_fragment_p_constprop_p_0 => "ip_fragment_p_constprop_p_0",
            KernelFunction::do_xdp_generic => "do_xdp_generic",
            KernelFunction::xdp_do_redirect => "xdp_do_redirect",
            KernelFunction::bpf_xdp_redirect => "bpf_xdp_redirect",
            KernelFunction::bpf_msg_redirect_map => "bpf_msg_redirect_map",
            KernelFunction::bpf_sk_redirect_map => "bpf_sk_redirect_map",
            KernelFunction::bpf_xdp_redirect_map => "bpf_xdp_redirect_map",
        }
    }
}

/// The instrumented allocator functions.
#[allow(non_camel_case_types)]
#[derive(Clone, Copy, Debug, PartialEq, Eq, Hash, Structural)]
pub enum Alloc {
    bio_kmalloc,
    devm_kmalloc,
    devm_kmalloc_match,
    devm_kmalloc_release,
    free_large_kmalloc,
    kmalloc_fix_flags,
    kmalloc_reserve,
    kmalloc_size_roundup,
    mempool_kmalloc,
    sock_kmalloc,
    ___kmalloc_large_node,
    __kmalloc_cache_node_noprof,
    __kmalloc_cache_noprof,
    __kmalloc_large_node_noprof,
    __kmalloc_large_noprof,
    __kmalloc_node_noprof,
    __kmalloc_node_track_caller_noprof,
    __kmalloc_noprof,
    dev_kfree_skb_any_reason,
    dev_kfree_skb_irq_reason,
    kfree,
    kfree_skb_list_reason,
    kfree_skb_partial,
    kfree_skbmem,
    __kfree_skb,
    __napi_kfree_skb,
    do_kmem_cache_create,
    kmem_cache_alloc_bulk_noprof,
    kmem_cache_alloc_lru_noprof,
    kmem_cache_alloc_node_noprof,
    kmem_cache_alloc_noprof,
    kmem_cache_charge,
    kmem_cache_destroy,
    kmem_cache_flags,
    kmem_cache_free,
    kmem_cache_free_bulk,
    kmem_cache_free_bulk_p_part_p_0,
    kmem_cache_release,
    kmem_cache_shrink,
    kmem_cache_size,
    __kmem_cache_do_shrink,
    __kmem_cache_empty,
    __kmem_cache_release,
    __kmem_cache_shrink,
    __kmem_cache_shutdown,
}

impl Alloc {
    /// Number of catalog members.
    pub open spec fn count_spec() -> int {
        45
    }

    /// Number of catalog members, for callers that must screen a raw
    /// tag before turning it into a member.
    pub fn member_count() -> (n: u16)
        ensures
            n as int == Alloc::count_spec(),
    {
        45
    }

    /// The member carrying a stable tag.
    pub fn from_id(id: u16) -> (f: Alloc)
        requires
            id < Alloc::count_spec(),
        ensures
            f.id_spec() == id as int,
    {
        match id {
            0 => Alloc::bio_kmalloc,
            1 => Alloc::devm_kmalloc,
            2 => Alloc::devm_kmalloc_match,
            3 => Alloc::devm_kmalloc_release,
            4 => Alloc::free_large_kmalloc,
            5 => Alloc::kmalloc_fix_flags,
            6 => Alloc::kmalloc_reserve,
            7 => Alloc::kmalloc_size_roundup,
            8 => Alloc::mempool_kmalloc,
            9 => Alloc::sock_kmalloc,
            10 => Alloc::___kmalloc_large_node,
            11 => Alloc::__kmalloc_cache_node_noprof,
            12 => Alloc::__kmalloc_cache_noprof,
            13 => Alloc::__kmalloc_large_node_noprof,
            14 => Alloc::__kmalloc_large_noprof,
            15 => Alloc::__kmalloc_node_noprof,
            16 => Alloc::__kmalloc_node_track_caller_noprof,
            17 => Alloc::__kmalloc_noprof,
            18 => Alloc::dev_kfree_skb_any_reason,
            19 => Alloc::dev_kfree_skb_irq_reason,
            20 => Alloc::kfree,
            21 => Alloc::kfree_skb_list_reason,
            22 => Alloc::kfree_skb_partial,
            23 => Alloc::kfree_skbmem,
            24 => Alloc::__kfree_skb,
            25 => Alloc::__napi_kfree_skb,
            26 => Alloc::do_kmem_cache_create,
            27 => Alloc::kmem_cache_alloc_bulk_noprof,
            28 => Alloc::kmem_cache_alloc_lru_noprof,
            29 => Alloc::kmem_cache_alloc_node_noprof,
            30 => Alloc::kmem_cache_alloc_noprof,
            31 => Alloc::kmem_cache_charge,
            32 => Alloc::kmem_cache_destroy,
            33 => Alloc::kmem_cache_flags,
            34 => Alloc::kmem_cache_free,
            35 => Alloc::kmem_cache_free_bulk,
            36 => Alloc::kmem_cache_free_bulk_p_part_p_0,
            37 => Alloc::kmem_cache_release,
            38 => Alloc::kmem_cache_shrink,
            39 => Alloc::kmem_cache_size,
            40 => Alloc::__kmem_cache_do_shrink,
            41 => Alloc::__kmem_cache_empty,
            42 => Alloc::__kmem_cache_release,
            43 => Alloc::__kmem_cache_shrink,
            _ => Alloc::__kmem_cache_shutdown,
        }
    }
}

impl Program for Alloc {
    open spec fn id_spec(self) -> int {
        match self {
            Alloc::bio_kmalloc => 0,
            Alloc::devm_kmalloc => 1,
            Alloc::devm_kmalloc_match => 2,
            Alloc::devm_kmalloc_release => 3,
            Alloc::free_large_kmalloc => 4,
            Alloc::kmalloc_fix_flags => 5,
            Alloc::kmalloc_reserve => 6,
            Alloc::kmalloc_size_roundup => 7,
            Alloc::mempool_kmalloc => 8,
            Alloc::sock_kmalloc => 9,
            Alloc::___kmalloc_large_node => 10,
            Alloc::__kmalloc_cache_node_noprof => 11,
            Alloc::__kmalloc_cache_noprof => 12,
            Alloc::__kmalloc_large_node_noprof => 13,
            Alloc::__kmalloc_large_noprof => 14,
            Alloc::__kmalloc_node_noprof => 15,
            Alloc::__kmalloc_node_track_caller_noprof => 16,
            Alloc::__kmalloc_noprof => 17,
            Alloc::dev_kfree_skb_any_reason => 18,
            Alloc::dev_kfree_skb_irq_reason => 19,
            Alloc::kfree => 20,
            Alloc::kfree_skb_list_reason => 21,
            Alloc::kfree_skb_partial => 22,
            Alloc::kfree_skbmem => 23,
            Alloc::__kfree_skb => 24,
            Alloc::__napi_kfree_skb => 25,
            Alloc::do_kmem_cache_create => 26,
            Alloc::kmem_cache_alloc_bulk_noprof => 27,
            Alloc::kmem_cache_alloc_lru_noprof => 28,
            Alloc::kmem_cache_alloc_node_noprof => 29,
            Alloc::kmem_cache_alloc_noprof => 30,
            Alloc::kmem_cache_charge => 31,
            Alloc::kmem_cache_destroy => 32,
            Alloc::kmem_cache_flags => 33,
            Alloc::kmem_cache_free => 34,
            Alloc::kmem_cache_free_bulk => 35,
            Alloc::kmem_cache_free_bulk_p_part_p_0 => 36,
            Alloc::kmem_cache_release => 37,
            Alloc::kmem_cache_shrink => 38,
            Alloc::kmem_cache_size => 39,
            Alloc::__kmem_cache_do_shrink => 40,
            Alloc::__kmem_cache_empty => 41,
            Alloc::__kmem_cache_release => 42,
            Alloc::__kmem_cache_shrink => 43,
            Alloc::__kmem_cache_shutdown => 44,
        }
    }

    open spec fn name_spec(self) -> Seq<char> {
        match self {
            Alloc::bio_kmalloc => "bio_kmalloc"@,
            Alloc::devm_kmalloc => "devm_kmalloc"@,
            Alloc::devm_kmalloc_match => "devm_kmalloc_match"@,
            Alloc::devm_kmalloc_release => "devm_kmalloc_release"@,
            Alloc::free_large_kmalloc => "free_large_kmalloc"@,
            Alloc::kmalloc_fix_flags => "kmalloc_fix_flags"@,
            Alloc::kmalloc_reserve => "kmalloc_reserve"@,
            Alloc::kmalloc_size_roundup => "kmalloc_size_roundup"@,
            Alloc::mempool_kmalloc => "mempool_kmalloc"@,
            Alloc::sock_kmalloc => "sock_kmalloc"@,
            Alloc::___kmalloc_large_node => "___kmalloc_large_node"@,
            Alloc::__kmalloc_cache_node_noprof => "__kmalloc_cache_node_noprof"@,
            Alloc::__kmalloc_cache_noprof => "__kmalloc_cache_noprof"@,
            Alloc::__kmalloc_large_node_noprof => "__kmalloc_large_node_noprof"@,
            Alloc::__kmalloc_large_noprof => "__kmalloc_large_noprof"@,
            Alloc::__kmalloc_node_noprof => "__kmalloc_node_noprof"@,
            Alloc::__kmalloc_node_track_caller_noprof => "__kmalloc_node_track_caller_noprof"@,
            Alloc::__kmalloc_noprof => "__kmalloc_noprof"@,
            Alloc::dev_kfree_skb_any_reason => "dev_kfree_skb_any_reason"@,
            Alloc::dev_kfree_skb_irq_reason => "dev_kfree_skb_irq_reason"@,
            Alloc::kfree => "kfree"@,
            Alloc::kfree_skb_list_reason => "kfree_skb_list_reason"@,
            Alloc::kfree_skb_partial => "kfree_skb_partial"@,
            Alloc::kfree_skbmem => "kfree_skbmem"@,
            Alloc::__kfree_skb => "__kfree_skb"@,
            Alloc::__napi_kfree_skb => "__napi_kfree_skb"@,
            Alloc::do_kmem_cache_create => "do_kmem_cache_create"@,
            Alloc::kmem_cache_alloc_bulk_noprof => "kmem_cache_alloc_bulk_noprof"@,
            Alloc::kmem_cache_alloc_lru_noprof => "kmem_cache_alloc_lru_noprof"@,
            Alloc::kmem_cache_alloc_node_noprof => "kmem_cache_alloc_node_noprof"@,
            Alloc::kmem_cache_alloc_noprof => "kmem_cache_alloc_noprof"@,
            Alloc::kmem_cache_charge => "kmem_cache_charge"@,
            Alloc::kmem_cache_destroy => "kmem_cache_destroy"@,
            Alloc::kmem_cache_flags => "kmem_cache_flags"@,
            Alloc::kmem_cache_free => "kmem_cache_free"@,
            Alloc::kmem_cache_free_bulk => "kmem_cache_free_bulk"@,
            Alloc::kmem_cache_free_bulk_p_part_p_0 => "kmem_cache_free_bulk_p_part_p_0"@,
            Alloc::kmem_cache_release => "kmem_cache_release"@,
            Alloc::kmem_cache_shrink => "kmem_cache_shrink"@,
            Alloc::kmem_cache_size => "kmem_cache_size"@,
            Alloc::__kmem_cache_do_shrink => "__kmem_cache_do_shrink"@,
            Alloc::__kmem_cache_empty => "__kmem_cache_empty"@,
            Alloc::__kmem_cache_release => "__kmem_cache_release"@,
            Alloc::__kmem_cache_shrink => "__kmem_cache_shrink"@,
            Alloc::__kmem_cache_shutdown => "__kmem_cache_shutdown"@,
        }
    }

    fn as_id(self) -> u16 {
        match self {
            Alloc::bio_kmalloc => 0,
            Alloc::devm_kmalloc => 1,
            Alloc::devm_kmalloc_match => 2,
            Alloc::devm_kmalloc_release => 3,
            Alloc::free_large_kmalloc => 4,
            Alloc::kmalloc_fix_flags => 5,
            Alloc::kmalloc_reserve => 6,
            Alloc::kmalloc_size_roundup => 7,
            Alloc::mempool_kmalloc => 8,
            Alloc::sock_kmalloc => 9,
            Alloc::___kmalloc_large_node => 10,
            Alloc::__kmalloc_cache_node_noprof => 11,
            Alloc::__kmalloc_cache_noprof => 12,
            Alloc::__kmalloc_large_node_noprof => 13,
            Alloc::__kmalloc_large_noprof => 14,
            Alloc::__kmalloc_node_noprof => 15,
            Alloc::__kmalloc_node_track_caller_noprof => 16,
            Alloc::__kmalloc_noprof => 17,
            Alloc::dev_kfree_skb_any_reason => 18,
            Alloc::dev_kfree_skb_irq_reason => 19,
            Alloc::kfree => 20,
            Alloc::kfree_skb_list_reason => 21,
            Alloc::kfree_skb_partial => 22,
            Alloc::kfree_skbmem => 23,
            Alloc::__kfree_skb => 24,
            Alloc::__napi_kfree_skb => 25,
            Alloc::do_kmem_cache_create => 26,
            Alloc::kmem_cache_alloc_bulk_noprof => 27,
            Alloc::kmem_cache_alloc_lru_noprof => 28,
            Alloc::kmem_cache_alloc_node_noprof => 29,
            Alloc::kmem_cache_alloc_noprof => 30,
            Alloc::kmem_cache_charge => 31,
            Alloc::kmem_cache_destroy => 32,
            Alloc::kmem_cache_flags => 33,
            Alloc::kmem_cache_free => 34,
            Alloc::kmem_cache_free_bulk => 35,
            Alloc::kmem_cache_free_bulk_p_part_p_0 => 36,
            Alloc::kmem_cache_release => 37,
            Alloc::kmem_cache_shrink => 38,
            Alloc::kmem_cache_size => 39,
            Alloc::__kmem_cache_do_shrink => 40,
            Alloc::__kmem_cache_empty => 41,
            Alloc::__kmem_cache_release => 42,
            Alloc::__kmem_cache_shrink => 43,
            Alloc::__kmem_cache_shutdown => 44,
        }
    }

    fn to_str(self) -> &'static str {
        match self {
            Alloc::bio_kmalloc => "bio_kmalloc",
            Alloc::devm_kmalloc => "devm_kmalloc",
            Alloc::devm_kmalloc_match => "devm_kmalloc_match",
            Alloc::devm_kmalloc_release => "devm_kmalloc_release",
            Alloc::free_large_kmalloc => "free_large_kmalloc",
            Alloc::kmalloc_fix_flags => "kmalloc_fix_flags",
            Alloc::kmalloc_reserve => "kmalloc_reserve",
            Alloc::kmalloc_size_roundup => "kmalloc_size_roundup",
            Alloc::mempool_kmalloc => "mempool_kmalloc",
            Alloc::sock_kmalloc => "sock_kmalloc",
            Alloc::___kmalloc_large_node => "___kmalloc_large_node",
            Alloc::__kmalloc_cache_node_noprof => "__kmalloc_cache_node_noprof",
            Alloc::__kmalloc_cache_noprof => "__kmalloc_cache_noprof",
            Alloc::__kmalloc_large_node_noprof => "__kmalloc_large_node_noprof",
            Alloc::__kmalloc_large_noprof => "__kmalloc_large_noprof",
            Alloc::__kmalloc_node_noprof => "__kmalloc_node_noprof",
            Alloc::__kmalloc_node_track_caller_noprof => "__kmalloc_node_track_caller_noprof",
            Alloc::__kmalloc_noprof => "__kmalloc_noprof",
            Alloc::dev_kfree_skb_any_reason => "dev_kfree_skb_any_reason",
            Alloc::dev_kfree_skb_irq_reason => "dev_kfree_skb_irq_reason",
            Alloc::kfree => "kfree",
            Alloc::kfree_skb_list_reason => "kfree_skb_list_reason",
            Alloc::kfree_skb_partial => "kfree_skb_partial",
            Alloc::kfree_skbmem => "kfree_skbmem",
            Alloc::__kfree_skb => "__kfree_skb",
            Alloc::__napi_kfree_skb => "__napi_kfree_skb",
            Alloc::do_kmem_cache_create => "do_kmem_cache_create",
            Alloc::kmem_cache_alloc_bulk_noprof => "kmem_cache_alloc_bulk_noprof",
            Alloc::kmem_cache_alloc_lru_noprof => "kmem_cache_alloc_lru_noprof",
            Alloc::kmem_cache_alloc_node_noprof => "kmem_cache_alloc_node_noprof",
            Alloc::kmem_cache_alloc_noprof => "kmem_cache_alloc_noprof",
            Alloc::kmem_cache_charge => "kmem_cache_charge",
            Alloc::kmem_cache_destroy => "kmem_cache_destroy",
            Alloc::kmem_cache_flags => "kmem_cache_flags",
            Alloc::kmem_cache_free => "kmem_cache_free",
            Alloc::kmem_cache_free_bulk => "kmem_cache_free_bulk",
            Alloc::kmem_cache_free_bulk_p_part_p_0 => "kmem_cache_free_bulk_p_part_p_0",
            Alloc::kmem_cache_release => "kmem_cache_release",
            Alloc::kmem_cache_shrink => "kmem_cache_shrink",
            Alloc::kmem_cache_size => "kmem_cache_size",
            Alloc::__kmem_cache_do_shrink => "__kmem_cache_do_shrink",
            Alloc::__kmem_cache_empty => "__kmem_cache_empty",
            Alloc::__kmem_cache_release => "__kmem_cache_release",
            Alloc::__kmem_cache_shrink => "__kmem_cache_shrink",
            Alloc::__kmem_cache_shutdown => "__kmem_cache_shutdown",
        }
    }
}

/// The allocator tracepoints the capture layer attaches to.
#[allow(non_camel_case_types)]
#[derive(Clone, Copy, Debug, PartialEq, Eq, Hash, Structural)]
pub enum Tracepoint {
    kmalloc,
    kfree,
    kmem_cache_alloc,
    kmem_cache_free,
}

impl Tracepoint {
    /// Number of catalog members.
    pub open spec fn count_spec() -> int {
        4
    }

    /// Number of catalog members, for callers that must screen a raw
    /// tag before turning it into a member.
    pub fn member_count() -> (n: u16)
        ensures
            n as int == Tracepoint::count_spec(),
    {
        4
    }

    /// The member carrying a stable tag.
    pub fn from_id(id: u16) -> (f: Tracepoint)
        requires
            id < Tracepoint::count_spec(),
        ensures
            f.id_spec() == id as int,
    {
        match id {
            0 => Tracepoint::kmalloc,
            1 => Tracepoint::kfree,
            2 => Tracepoint::kmem_cache_alloc,
            _ => Tracepoint::kmem_cache_free,
        }
    }
}

impl Program for Tracepoint {
    open spec fn id_spec(self) -> int {
        match self {
            Tracepoint::kmalloc => 0,
            Tracepoint::kfree => 1,
            Tracepoint::kmem_cache_alloc => 2,
            Tracepoint::kmem_cache_free => 3,
        }
    }

    open spec fn name_spec(self) -> Seq<char> {
        match self {
            Tracepoint::kmalloc => "kmalloc"@,
            Tracepoint::kfree => "kfree"@,
            Tracepoint::kmem_cache_alloc => "kmem_cache_alloc"@,
            Tracepoint::kmem_cache_free => "kmem_cache_free"@,
        }
    }

    fn as_id(self) -> u16 {
        match self {
            Tracepoint::kmalloc => 0,
            Tracepoint::kfree => 1,
            Tracepoint::kmem_cache_alloc => 2,
            Tracepoint::kmem_cache_free => 3,
        }
    }

    fn to_str(self) -> &'static str {
        match self {
            Tracepoint::kmalloc => "kmalloc",
            Tracepoint::kfree => "kfree",
            Tracepoint::kmem_cache_alloc => "kmem_cache_alloc",
            Tracepoint::kmem_cache_free => "kmem_cache_free",
        }
    }
}

} // verus!
