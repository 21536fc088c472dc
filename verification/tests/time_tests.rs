use net_profiling::catalog::KernelFunction;
use net_profiling::records::{FunctionCall, FunctionDirection, Program};
use net_profiling::time::{
    compute_self_times, filter_times, function_summaries, handle_execution_times,
    normalize_symbol, ExecutionTimeRow,
};

fn event(
    time: u64,
    function: KernelFunction,
    direction: FunctionDirection,
    depth: u32,
    cpuid: u32,
) -> (u64, FunctionCall<KernelFunction>) {
    (time, FunctionCall { function, direction, depth, cpuid })
}

fn row(
    name: &str,
    start: u64,
    end: u64,
    duration: u64,
    inner: u64,
    depth: u32,
    cpuid: u32,
) -> ExecutionTimeRow {
    ExecutionTimeRow {
        function_name: String::from(name),
        start_time: start,
        end_time: end,
        duration,
        inner_duration: inner,
        depth,
        cpuid,
    }
}

#[test]
fn nested_entry_exit_yields_outer_and_inner_rows() {
    // Scenario: F opens at 100 at depth 1, G runs inside it from 110 to
    // 150 at depth 2, F closes at 200.  G keeps its whole span as self
    // time; F keeps its span minus G's.
    let f = KernelFunction::ip_rcv;
    let g = KernelFunction::udp_rcv;
    let times = vec![
        event(100, f, FunctionDirection::Entry, 1, 0),
        event(110, g, FunctionDirection::Entry, 2, 0),
        event(150, g, FunctionDirection::Exit, 2, 0),
        event(200, f, FunctionDirection::Exit, 1, 0),
    ];
    let rows = handle_execution_times(times, 0, 1_000_000);
    assert_eq!(rows.len(), 2);
    assert_eq!(rows[0].function_name, "ip_rcv");
    assert_eq!(rows[0].start_time, 100);
    assert_eq!(rows[0].end_time, 200);
    assert_eq!(rows[0].duration, 100);
    assert_eq!(rows[0].inner_duration, 60);
    assert_eq!(rows[0].depth, 1);
    assert_eq!(rows[1].function_name, "udp_rcv");
    assert_eq!(rows[1].start_time, 110);
    assert_eq!(rows[1].end_time, 150);
    assert_eq!(rows[1].duration, 40);
    assert_eq!(rows[1].inner_duration, 40);
    assert_eq!(rows[1].depth, 2);
}

#[test]
fn row_count_equals_exit_count_without_anomalies() {
    // Three well-formed pairs of one function give three rows, with exact
    // durations.
    let f = KernelFunction::tcp_v4_rcv;
    let times = vec![
        event(10, f, FunctionDirection::Entry, 1, 0),
        event(25, f, FunctionDirection::Exit, 1, 0),
        event(30, f, FunctionDirection::Entry, 1, 1),
        event(42, f, FunctionDirection::Exit, 1, 1),
        event(50, f, FunctionDirection::Entry, 1, 0),
        event(53, f, FunctionDirection::Exit, 1, 0),
    ];
    let rows = handle_execution_times(times, 0, 1_000);
    assert_eq!(rows.len(), 3);
    assert_eq!(rows[0].duration, 15);
    assert_eq!(rows[1].duration, 12);
    assert_eq!(rows[2].duration, 3);
    for r in &rows {
        assert!(r.inner_duration <= r.duration);
    }
}

#[test]
fn session_start_shifts_reported_times() {
    let f = KernelFunction::ip_output;
    let times = vec![
        event(1_000, f, FunctionDirection::Entry, 1, 0),
        event(1_300, f, FunctionDirection::Exit, 1, 0),
    ];
    let rows = handle_execution_times(times, 1_000, 10_000);
    assert_eq!(rows.len(), 1);
    assert_eq!(rows[0].start_time, 0);
    assert_eq!(rows[0].end_time, 300);
    assert_eq!(rows[0].duration, 300);
}

#[test]
fn exit_without_entry_is_silent() {
    let f = KernelFunction::netif_rx;
    let times = vec![event(500, f, FunctionDirection::Exit, 1, 0)];
    let rows = handle_execution_times(times, 0, 1_000);
    assert!(rows.is_empty());
}

#[test]
fn empty_stream_yields_no_rows() {
    let times: Vec<(u64, FunctionCall<KernelFunction>)> = Vec::new();
    let rows = handle_execution_times(times, 0, 1_000);
    assert!(rows.is_empty());
}

#[test]
fn anomalous_exit_discards_its_functions_open_entries_only() {
    // F has two open entries when an over-bound exit arrives: both are
    // discarded, so F's later exit finds nothing.  G's open entry is
    // untouched and still pairs.
    let f = KernelFunction::ip_forward;
    let g = KernelFunction::ip_send_check;
    let times = vec![
        event(100, f, FunctionDirection::Entry, 1, 0),
        event(110, f, FunctionDirection::Entry, 2, 0),
        event(9_500, g, FunctionDirection::Entry, 1, 1),
        event(10_000, f, FunctionDirection::Exit, 2, 0),
        event(10_050, f, FunctionDirection::Exit, 1, 0),
        event(10_100, g, FunctionDirection::Exit, 1, 1),
    ];
    let rows = handle_execution_times(times, 0, 1_000);
    assert_eq!(rows.len(), 1);
    assert_eq!(rows[0].function_name, "ip_send_check");
    assert_eq!(rows[0].duration, 600);
}

#[test]
fn span_exactly_at_bound_is_discarded() {
    let f = KernelFunction::udp_send_skb;
    let times = vec![
        event(0, f, FunctionDirection::Entry, 1, 0),
        event(1_000, f, FunctionDirection::Exit, 1, 0),
        event(2_000, f, FunctionDirection::Entry, 1, 0),
        event(2_999, f, FunctionDirection::Exit, 1, 0),
    ];
    let rows = handle_execution_times(times, 0, 1_000);
    assert_eq!(rows.len(), 1);
    assert_eq!(rows[0].duration, 999);
}

#[test]
fn rows_come_sorted_by_start_time_then_depth() {
    let f = KernelFunction::ip_rcv;
    let g = KernelFunction::ip_rcv_finish;
    let times = vec![
        event(100, f, FunctionDirection::Entry, 1, 0),
        event(100, g, FunctionDirection::Entry, 2, 0),
        event(150, g, FunctionDirection::Exit, 2, 0),
        event(200, f, FunctionDirection::Exit, 1, 0),
        event(300, g, FunctionDirection::Entry, 1, 0),
        event(310, g, FunctionDirection::Exit, 1, 0),
    ];
    let rows = handle_execution_times(times, 100, 10_000);
    assert_eq!(rows.len(), 3);
    assert_eq!(rows[0].start_time, 0);
    assert_eq!(rows[0].depth, 1);
    assert_eq!(rows[1].start_time, 0);
    assert_eq!(rows[1].depth, 2);
    assert_eq!(rows[2].start_time, 200);
}

#[test]
fn filter_times_drops_stale_events_and_sorts() {
    let f = KernelFunction::ip_rcv;
    let times = vec![
        event(500, f, FunctionDirection::Exit, 1, 0),
        event(90, f, FunctionDirection::Entry, 1, 0),
        event(200, f, FunctionDirection::Entry, 1, 0),
    ];
    let filtered = filter_times(times, 100);
    assert_eq!(filtered.len(), 2);
    assert_eq!(filtered[0].0, 200);
    assert_eq!(filtered[1].0, 500);
}

#[test]
fn self_time_pass_is_idempotent_on_finalized_rows() {
    let rows = vec![
        row("outer", 0, 100, 100, 100, 1, 0),
        row("middle", 10, 60, 50, 50, 2, 0),
        row("inner", 20, 40, 20, 20, 3, 0),
    ];
    let once = compute_self_times(&rows);
    let twice = compute_self_times(&once);
    assert_eq!(once.len(), 3);
    // every deeper row inside the span counts: the outermost row sees both
    // descendants
    assert_eq!(once[0].inner_duration, 30);
    assert_eq!(once[1].inner_duration, 30);
    assert_eq!(once[2].inner_duration, 20);
    for (a, b) in once.iter().zip(twice.iter()) {
        assert_eq!(a.inner_duration, b.inner_duration);
        assert_eq!(a.function_name, b.function_name);
        assert_eq!(a.start_time, b.start_time);
        assert_eq!(a.end_time, b.end_time);
        assert_eq!(a.duration, b.duration);
    }
}

#[test]
fn self_time_never_goes_negative() {
    // The children's summed durations exceed the parent's span; the self
    // time floors at zero.
    let rows = vec![
        row("parent", 0, 100, 100, 100, 1, 0),
        row("child_a", 0, 100, 100, 100, 2, 0),
        row("child_b", 0, 100, 100, 100, 2, 1),
    ];
    let out = compute_self_times(&rows);
    assert_eq!(out[0].inner_duration, 0);
    assert_eq!(out[1].inner_duration, 100);
    assert_eq!(out[2].inner_duration, 100);
    for r in &out {
        assert!(r.inner_duration <= r.duration);
    }
}

#[test]
fn sibling_spans_do_not_count_as_children() {
    // Same depth, nested times: not a child, so the self time is the whole
    // duration.
    let rows = vec![
        row("first", 0, 100, 100, 100, 1, 0),
        row("second", 10, 50, 40, 40, 1, 0),
    ];
    let out = compute_self_times(&rows);
    assert_eq!(out[0].inner_duration, 100);
    assert_eq!(out[1].inner_duration, 40);
}

#[test]
fn normalize_symbol_restores_dots() {
    assert_eq!(
        normalize_symbol("__netif_receive_skb_core_p_constprop_p_0"),
        "__netif_receive_skb_core.constprop.0"
    );
    assert_eq!(normalize_symbol("_p_"), ".");
    assert_eq!(normalize_symbol("ip_rcv"), "ip_rcv");
    assert_eq!(normalize_symbol(""), "");
    assert_eq!(normalize_symbol("_p"), "_p");
}

#[test]
fn normalized_names_reach_the_rows() {
    let f = KernelFunction::ip_fragment_p_constprop_p_0;
    assert_eq!(f.to_str(), "ip_fragment_p_constprop_p_0");
    let times = vec![
        event(10, f, FunctionDirection::Entry, 1, 0),
        event(20, f, FunctionDirection::Exit, 1, 0),
    ];
    let rows = handle_execution_times(times, 0, 1_000);
    assert_eq!(rows[0].function_name, "ip_fragment.constprop.0");
}

#[test]
fn summaries_group_rows_by_function_in_first_appearance_order() {
    let rows = vec![
        row("alpha", 0, 10, 10, 10, 1, 0),
        row("beta", 5, 25, 20, 20, 1, 0),
        row("alpha", 30, 46, 16, 16, 1, 0),
        row("alpha", 50, 54, 4, 4, 1, 0),
    ];
    let summaries = function_summaries(&rows);
    assert_eq!(summaries.len(), 2);
    assert_eq!(summaries[0].function_name, "alpha");
    assert_eq!(summaries[0].count, 3);
    // mean of 10, 16, 4
    assert_eq!(summaries[0].mean_duration, 10);
    // median is the middle element of the list in row order
    assert_eq!(summaries[0].median_duration, 16);
    assert_eq!(summaries[1].function_name, "beta");
    assert_eq!(summaries[1].count, 1);
    assert_eq!(summaries[1].mean_duration, 20);
    assert_eq!(summaries[1].median_duration, 20);
}

#[test]
fn summary_median_of_even_count_averages_the_middle_pair() {
    let rows = vec![
        row("f", 0, 10, 7, 7, 1, 0),
        row("f", 10, 20, 2, 2, 1, 0),
        row("f", 20, 30, 9, 9, 1, 0),
        row("f", 30, 40, 1, 1, 1, 0),
    ];
    let summaries = function_summaries(&rows);
    assert_eq!(summaries.len(), 1);
    assert_eq!(summaries[0].count, 4);
    // mean of 7, 2, 9, 1 rounds down
    assert_eq!(summaries[0].mean_duration, 4);
    // median averages positions two and three: (2 + 9) / 2
    assert_eq!(summaries[0].median_duration, 5);
}
