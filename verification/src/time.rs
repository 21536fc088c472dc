//! Call-tree reconstruction engine: pairs entry/exit events into
//! per-invocation timing rows, discards corrupted spans, and computes
//! exclusive ("self") time.

use vstd::prelude::*;
use vstd::seq_lib::group_to_multiset_ensures;

use crate::records::{FunctionCall, FunctionDirection, Program};

verus! {

broadcast use group_to_multiset_ensures, vstd::multiset::group_multiset_axioms, vstd::multiset::group_multiset_properties;

/// One reconstructed invocation of an instrumented function.  Times are
/// relative to the session start; `duration` is exit minus entry on the raw
/// clock; `inner_duration` is the time spent outside instrumented children,
/// finalized by the self-time pass.
#[derive(Debug)]
pub struct ExecutionTimeRow {
    pub function_name: String,
    pub start_time: u64,
    pub end_time: u64,
    pub duration: u64,
    pub inner_duration: u64,
    pub depth: u32,
    pub cpuid: u32,
}

/// Mathematical counterpart of [`ExecutionTimeRow`].
pub struct RowModel {
    pub name: Seq<char>,
    pub start: int,
    pub end: int,
    pub duration: int,
    pub inner: int,
    pub depth: int,
    pub cpu: int,
}

impl View for ExecutionTimeRow {
    type V = RowModel;

    open spec fn view(&self) -> RowModel {
        RowModel {
            name: self.function_name@,
            start: self.start_time as int,
            end: self.end_time as int,
            duration: self.duration as int,
            inner: self.inner_duration as int,
            depth: self.depth as int,
            cpu: self.cpuid as int,
        }
    }
}

/// One captured event as the engine's mathematics sees it.
pub struct EventModel {
    pub time: int,
    pub id: int,
    pub entry: bool,
    pub depth: int,
    pub cpu: int,
    pub name: Seq<char>,
}

pub open spec fn event_model<F: Program>(e: (u64, FunctionCall<F>)) -> EventModel {
    EventModel {
        time: e.0 as int,
        id: e.1.function.id_spec(),
        entry: e.1.direction is Entry,
        depth: e.1.depth as int,
        cpu: e.1.cpuid as int,
        name: normalized_name(e.1.function.name_spec()),
    }
}

pub open spec fn event_models<F: Program>(s: Seq<(u64, FunctionCall<F>)>) -> Seq<EventModel> {
    s.map_values(|e: (u64, FunctionCall<F>)| event_model(e))
}

/// Events in non-decreasing timestamp order.
pub open spec fn events_sorted<F: Program>(s: Seq<(u64, FunctionCall<F>)>) -> bool {
    forall|a: int, b: int| 0 <= a <= b < s.len() ==> (#[trigger] s[a]).0 <= (#[trigger] s[b]).0
}

/// Symbol names come from the probe catalog, where a dot in a kernel symbol
/// is written `_p_`; this restores the dots.
pub open spec fn normalized_name(s: Seq<char>) -> Seq<char>
    decreases s.len(),
{
    if s.len() == 0 {
        s
    } else if s.len() >= 3 && s[0] == '_' && s[1] == 'p' && s[2] == '_' {
        seq!['.'] + normalized_name(s.skip(3))
    } else {
        seq![s[0]] + normalized_name(s.skip(1))
    }
}

/// Rewrites each `_p_` in a catalog symbol to the `.` of the real kernel
/// symbol name.
pub fn normalize_symbol(s: &str) -> (out: String)
    ensures
        out@ == normalized_name(s@),
{
    let n = s.unicode_len();
    let mut out = String::new();
    let mut i: usize = 0;
    proof {
        assert(s@.skip(0) =~= s@);
        assert(out@ + normalized_name(s@) =~= normalized_name(s@));
    }
    while i < n
        invariant
            0 <= i <= n,
            n == s@.len(),
            out@ + normalized_name(s@.skip(i as int)) == normalized_name(s@),
        decreases n - i,
    {
        let ghost rest = s@.skip(i as int);
        proof {
            assert(rest.len() == n - i);
            assert(rest[0] == s@[i as int]);
            if n - i >= 3 {
                assert(rest[1] == s@[i as int + 1]);
                assert(rest[2] == s@[i as int + 2]);
            }
        }
        if n - i > 2 && s.get_char(i) == '_' && s.get_char(i + 1) == 'p' && s.get_char(i + 2)
            == '_' {
            out.append(".");
            proof {
                reveal_strlit(".");
                assert(rest.skip(3) =~= s@.skip(i as int + 3));
                assert(normalized_name(rest) == seq!['.'] + normalized_name(
                    s@.skip(i as int + 3),
                ));
                assert("."@ =~= seq!['.']);
                assert(out@ + normalized_name(s@.skip(i as int + 3)) =~= normalized_name(s@));
            }
            i = i + 3;
        } else {
            let piece = s.substring_char(i, i + 1);
            out.append(piece);
            proof {
                assert(piece@ =~= seq![s@[i as int]]);
                assert(rest.skip(1) =~= s@.skip(i as int + 1));
                if rest.len() >= 3 && rest[0] == '_' && rest[1] == 'p' && rest[2] == '_' {
                    assert(false);
                }
                assert(normalized_name(rest) == seq![s@[i as int]] + normalized_name(
                    s@.skip(i as int + 1),
                ));
                assert(out@ + normalized_name(s@.skip(i as int + 1)) =~= normalized_name(s@));
            }
            i = i + 1;
        }
    }
    proof {
        assert(s@.skip(n as int) =~= Seq::<char>::empty());
        assert(out@ + Seq::<char>::empty() =~= out@);
    }
    out
}

/// Time `t` on the session-relative clock: the session start is subtracted,
/// saturating at zero.
pub open spec fn rel_time(t: int, initial: int) -> int {
    if t >= initial {
        t - initial
    } else {
        0
    }
}

/// State of the pairing pass: per-function stacks of open entry timestamps
/// (keyed by the function's catalog tag, not by CPU) and the rows emitted
/// so far.
pub struct PairState {
    pub stacks: Map<int, Seq<int>>,
    pub rows: Seq<RowModel>,
}

pub open spec fn init_pair_state() -> PairState {
    PairState { stacks: Map::total(|id: int| Seq::<int>::empty()), rows: Seq::empty() }
}

/// One event applied to the pairing state.  An entry opens an invocation of
/// its function.  An exit closes the most recently opened one: if none is
/// open it is a silent no-op; if the span is anomalous — at least the
/// anomaly bound long — the function's entire stack of open entries is
/// discarded and nothing is emitted, so one corrupted pairing cannot
/// desynchronize every later pairing of that function; otherwise a row is
/// emitted.  Only the stack of the event's own function is ever touched.
pub open spec fn pair_step(st: PairState, ev: EventModel, initial: int, bound: int) -> PairState {
    if ev.entry {
        PairState {
            stacks: st.stacks.insert(ev.id, st.stacks[ev.id].push(ev.time)),
            rows: st.rows,
        }
    } else if st.stacks[ev.id].len() == 0 {
        st
    } else {
        let entry_time = st.stacks[ev.id].last();
        let duration = ev.time - entry_time;
        if duration >= bound {
            PairState { stacks: st.stacks.insert(ev.id, Seq::empty()), rows: st.rows }
        } else {
            PairState {
                stacks: st.stacks.insert(ev.id, st.stacks[ev.id].drop_last()),
                rows: st.rows.push(
                    RowModel {
                        name: ev.name,
                        start: rel_time(entry_time, initial),
                        end: rel_time(ev.time, initial),
                        duration: duration,
                        inner: duration,
                        depth: ev.depth,
                        cpu: ev.cpu,
                    },
                ),
            }
        }
    }
}

/// The pairing pass over a whole event stream, first event first.
pub open spec fn pair_run(events: Seq<EventModel>, initial: int, bound: int) -> PairState
    decreases events.len(),
{
    if events.len() == 0 {
        init_pair_state()
    } else {
        pair_step(pair_run(events.drop_last(), initial, bound), events.last(), initial, bound)
    }
}

/// Event streams in non-decreasing time order, on the model side.
pub open spec fn models_sorted(events: Seq<EventModel>) -> bool {
    forall|a: int, b: int|
        0 <= a <= b < events.len() ==> (#[trigger] events[a]).time <= (#[trigger] events[b]).time
}

/// Every open entry on a pairing stack is a timestamp of some already
/// processed event, so it is bounded by any bound on the stream's times.
pub proof fn lemma_pair_run_stack_elems(events: Seq<EventModel>, initial: int, bound: int, t: int)
    requires
        forall|k: int| 0 <= k < events.len() ==> (#[trigger] events[k]).time <= t,
    ensures
        forall|id: int, k: int|
            0 <= k < pair_run(events, initial, bound).stacks[id].len() ==> #[trigger] pair_run(
                events,
                initial,
                bound,
            ).stacks[id][k] <= t,
    decreases events.len(),
{
    if events.len() > 0 {
        assert(forall|k: int|
            0 <= k < events.drop_last().len() ==> (#[trigger] events.drop_last()[k]).time <= t);
        lemma_pair_run_stack_elems(events.drop_last(), initial, bound, t);
        assert(events[events.len() - 1] == events.last());
        let prev = pair_run(events.drop_last(), initial, bound);
        let cur = pair_run(events, initial, bound);
        let ev = events.last();
        assert forall|id: int, k: int| 0 <= k < cur.stacks[id].len() implies #[trigger] cur
            .stacks[id][k] <= t by {
            if ev.entry && id == ev.id {
                assert(cur.stacks[id] == prev.stacks[id].push(ev.time));
                if k < prev.stacks[id].len() {
                    assert(prev.stacks[id][k] <= t);
                } else {
                    assert(cur.stacks[id][k] == ev.time);
                }
            } else if !ev.entry && id == ev.id && prev.stacks[ev.id].len() > 0 && ev.time
                - prev.stacks[ev.id].last() < bound {
                assert(cur.stacks[id] == prev.stacks[id].drop_last());
                assert(cur.stacks[id][k] == prev.stacks[id][k]);
            } else {
                assert(cur.stacks[id] == prev.stacks[id] || cur.stacks[id]
                    == Seq::<int>::empty());
                if cur.stacks[id] == prev.stacks[id] {
                    assert(prev.stacks[id][k] <= t);
                }
            }
        }
    }
}

/// Every row the pairing pass emits has its self time still equal to its
/// duration, a duration under the anomaly bound and at least zero, and a
/// start no later than its end.
pub proof fn lemma_pair_run_rows(events: Seq<EventModel>, initial: int, bound: int)
    requires
        models_sorted(events),
    ensures
        forall|k: int|
            0 <= k < pair_run(events, initial, bound).rows.len() ==> {
                let r = #[trigger] pair_run(events, initial, bound).rows[k];
                r.inner == r.duration && 0 <= r.duration < bound && 0 <= r.start <= r.end
            },
    decreases events.len(),
{
    if events.len() > 0 {
        assert(models_sorted(events.drop_last()));
        lemma_pair_run_rows(events.drop_last(), initial, bound);
        let prev = pair_run(events.drop_last(), initial, bound);
        let ev = events.last();
        assert(forall|k: int|
            0 <= k < events.drop_last().len() ==> (#[trigger] events.drop_last()[k]).time
                <= ev.time);
        lemma_pair_run_stack_elems(events.drop_last(), initial, bound, ev.time);
        if !ev.entry && prev.stacks[ev.id].len() > 0 {
            assert(prev.stacks[ev.id].last() <= ev.time);
        }
    }
}

/// Flattens the captured per-CPU tables into one stream: keeps the events
/// captured from the session start on and hands them back sorted ascending
/// by timestamp.
pub fn filter_times<F: Program>(
    times: Vec<(u64, FunctionCall<F>)>,
    initial_time: u64,
) -> (filtered: Vec<(u64, FunctionCall<F>)>)
    ensures
        events_sorted(filtered@),
        filtered@.to_multiset() == times@.filter(
            |e: (u64, FunctionCall<F>)| e.0 >= initial_time,
        ).to_multiset(),
{
    let mut kept: Vec<(u64, FunctionCall<F>)> = Vec::new();
    let mut i: usize = 0;
    while i < times.len()
        invariant
            0 <= i <= times@.len(),
            kept@ == times@.take(i as int).filter(|e: (u64, FunctionCall<F>)| e.0 >= initial_time),
        decreases times@.len() - i,
    {
        let e = times[i];
        proof {
            reveal(Seq::filter);
            assert(times@.take(i as int + 1).drop_last() =~= times@.take(i as int));
            assert(times@.take(i as int + 1).last() == times@[i as int]);
        }
        if e.0 >= initial_time {
            kept.push(e);
        }
        i = i + 1;
    }
    proof {
        assert(times@.take(times@.len() as int) =~= times@);
    }
    sort_events(kept)
}

/// The pairing stacks as the executable pass holds them: one stack of open
/// entry timestamps per catalog tag, the vector grown on demand.
pub open spec fn stack_model(ss: Seq<Vec<u64>>, id: int) -> Seq<int> {
    if 0 <= id < ss.len() {
        ss[id]@.map_values(|t: u64| t as int)
    } else {
        Seq::empty()
    }
}

/// Pairs each exit event with the most recently opened entry of the same
/// function and emits one row per accepted pairing, in exit order; spans at
/// least `anomaly_bound` long are discarded together with their function's
/// remaining open entries, and exits with no open entry are silent no-ops.
fn pair_events<F: Program>(
    times: &Vec<(u64, FunctionCall<F>)>,
    initial_time: u64,
    anomaly_bound: u64,
) -> (rows: Vec<ExecutionTimeRow>)
    requires
        events_sorted(times@),
    ensures
        rows@.map_values(|r: ExecutionTimeRow| r@) == pair_run(
            event_models(times@),
            initial_time as int,
            anomaly_bound as int,
        ).rows,
{
    let ghost evs = event_models(times@);
    let ghost ini = initial_time as int;
    let ghost bnd = anomaly_bound as int;
    let mut stacks: Vec<Vec<u64>> = Vec::new();
    let mut rows: Vec<ExecutionTimeRow> = Vec::new();
    let mut i: usize = 0;
    proof {
        assert(evs.take(0) =~= Seq::<EventModel>::empty());
        assert(rows@.map_values(|r: ExecutionTimeRow| r@) =~= Seq::<RowModel>::empty());
    }
    while i < times.len()
        invariant
            0 <= i <= times@.len(),
            events_sorted(times@),
            evs == event_models(times@),
            ini == initial_time as int,
            bnd == anomaly_bound as int,
            rows@.map_values(|r: ExecutionTimeRow| r@) == pair_run(
                evs.take(i as int),
                ini,
                bnd,
            ).rows,
            forall|id: int| #[trigger] stack_model(stacks@, id) == pair_run(
                evs.take(i as int),
                ini,
                bnd,
            ).stacks[id],
        decreases times@.len() - i,
    {
        let e = times[i];
        let time = e.0;
        let call = e.1;
        let id = call.function.as_id();
        let idu = id as usize;
        let ghost st = pair_run(evs.take(i as int), ini, bnd);
        let ghost ev = evs[i as int];
        proof {
            assert(evs.take(i as int + 1).drop_last() =~= evs.take(i as int));
            assert(evs.take(i as int + 1).last() == evs[i as int]);
            assert(evs[i as int] == event_model(times@[i as int]));
            assert(ev.id == id as int);
            assert(ev.time == time as int);
            assert(pair_run(evs.take(i as int + 1), ini, bnd) == pair_step(st, ev, ini, bnd));
        }
        match call.direction {
            FunctionDirection::Entry => {
                while stacks.len() <= idu
                    invariant
                        forall|g: int| #[trigger] stack_model(stacks@, g) == st.stacks[g],
                    decreases idu + 1 - stacks.len(),
                {
                    let ghost before = stacks@;
                    stacks.push(Vec::new());
                    proof {
                        assert forall|g: int| #[trigger] stack_model(stacks@, g) == st.stacks[g]
                        by {
                            assert(stack_model(before, g) == st.stacks[g]);
                            if g == before.len() {
                                assert(stacks@[g]@ =~= Seq::<u64>::empty());
                                assert(stack_model(before, g) =~= Seq::<int>::empty());
                                assert(stack_model(stacks@, g) =~= Seq::<int>::empty());
                            } else if 0 <= g < before.len() {
                                assert(stacks@[g] == before[g]);
                            }
                        }
                    }
                }
                let ghost before = stacks@;
                stacks[idu].push(time);
                proof {
                    assert(stacks@ =~= before.update(idu as int, stacks@[idu as int]));
                    assert(stacks@[idu as int]@ =~= before[idu as int]@.push(time));
                    assert forall|g: int| #[trigger] stack_model(stacks@, g) == pair_step(
                        st,
                        ev,
                        ini,
                        bnd,
                    ).stacks[g] by {
                        assert(stack_model(before, g) == st.stacks[g]);
                        if g == idu as int {
                            assert(stack_model(stacks@, g) =~= stack_model(before, g).push(
                                time as int,
                            ));
                        } else if 0 <= g < stacks@.len() {
                            assert(stacks@[g] == before[g]);
                        }
                    }
                }
            },
            FunctionDirection::Exit => {
                let mut open_count: usize = 0;
                if idu < stacks.len() {
                    open_count = stacks[idu].len();
                }
                if open_count > 0 {
                    let top = stacks[idu][open_count - 1];
                    proof {
                        assert(stack_model(stacks@, idu as int)[open_count - 1] == top as int);
                        assert(st.stacks[ev.id].len() == open_count);
                        assert(st.stacks[ev.id].last() == top as int);
                        assert(forall|k: int|
                            0 <= k < evs.take(i as int).len() ==> (#[trigger] evs.take(
                                i as int,
                            )[k]).time <= time as int);
                        lemma_pair_run_stack_elems(evs.take(i as int), ini, bnd, time as int);
                        assert(top as int <= time as int);
                    }
                    let duration = time - top;
                    if duration >= anomaly_bound {
                        let ghost before = stacks@;
                        stacks[idu].clear();
                        proof {
                            assert(stacks@ =~= before.update(idu as int, stacks@[idu as int]));
                            assert forall|g: int| #[trigger] stack_model(stacks@, g) == pair_step(
                                st,
                                ev,
                                ini,
                                bnd,
                            ).stacks[g] by {
                                assert(stack_model(before, g) == st.stacks[g]);
                                if g == idu as int {
                                    assert(stack_model(stacks@, g) =~= Seq::<int>::empty());
                                } else if 0 <= g < stacks@.len() {
                                    assert(stacks@[g] == before[g]);
                                }
                            }
                        }
                    } else {
                        let ghost before = stacks@;
                        let popped = stacks[idu].pop();
                        let name = normalize_symbol(call.function.to_str());
                        let ghost rows_before = rows@;
                        rows.push(
                            ExecutionTimeRow {
                                function_name: name,
                                start_time: top.saturating_sub(initial_time),
                                end_time: time.saturating_sub(initial_time),
                                duration: duration,
                                inner_duration: duration,
                                depth: call.depth,
                                cpuid: call.cpuid,
                            },
                        );
                        proof {
                            assert(stacks@ =~= before.update(idu as int, stacks@[idu as int]));
                            assert(stacks@[idu as int]@ =~= before[idu as int]@.drop_last());
                            assert forall|g: int| #[trigger] stack_model(stacks@, g) == pair_step(
                                st,
                                ev,
                                ini,
                                bnd,
                            ).stacks[g] by {
                                assert(stack_model(before, g) == st.stacks[g]);
                                if g == idu as int {
                                    assert(stack_model(stacks@, g) =~= stack_model(
                                        before,
                                        g,
                                    ).drop_last());
                                } else if 0 <= g < stacks@.len() {
                                    assert(stacks@[g] == before[g]);
                                }
                            }
                            let new_row = rows@.last();
                            assert(new_row@.name == ev.name);
                            assert(new_row@.start == rel_time(top as int, ini));
                            assert(new_row@.end == rel_time(time as int, ini));
                            assert(rows@.map_values(|r: ExecutionTimeRow| r@) =~= rows_before
                                .map_values(|r: ExecutionTimeRow| r@).push(new_row@));
                            assert(rows@.map_values(|r: ExecutionTimeRow| r@) =~= pair_step(
                                st,
                                ev,
                                ini,
                                bnd,
                            ).rows);
                        }
                    }
                } else {
                    proof {
                        assert(st.stacks[ev.id].len() == 0) by {
                            assert(stack_model(stacks@, idu as int) == st.stacks[ev.id]);
                        }
                        assert(pair_step(st, ev, ini, bnd) == st);
                    }
                }
            },
        }
        i = i + 1;
    }
    proof {
        assert(evs.take(times@.len() as int) =~= evs);
    }
    rows
}

/// Insertion sort of an event stream by timestamp.
fn sort_events<F: Program>(events: Vec<(u64, FunctionCall<F>)>) -> (sorted: Vec<
    (u64, FunctionCall<F>),
>)
    ensures
        events_sorted(sorted@),
        sorted@.to_multiset() == events@.to_multiset(),
{
    let mut v = events;
    let ghost orig = v@;
    let mut i: usize = 1;
    while i < v.len()
        invariant
            1 <= i <= v@.len() || v@.len() == 0,
            v@.len() == orig.len(),
            v@.to_multiset() == orig.to_multiset(),
            forall|a: int, b: int| 0 <= a <= b < i ==> (#[trigger] v@[a]).0 <= (#[trigger] v@[b]).0,
        decreases v@.len() - i,
    {
        let mut j: usize = i;
        while j > 0 && v[j].0 < v[j - 1].0
            invariant
                0 <= j <= i < v@.len(),
                v@.len() == orig.len(),
                v@.to_multiset() == orig.to_multiset(),
                forall|a: int, b: int|
                    0 <= a < b <= i && b != j ==> (#[trigger] v@[a]).0 <= (#[trigger] v@[b]).0,
            decreases j,
        {
            let ghost before = v@;
            let x = v[j - 1];
            let y = v[j];
            v.set(j - 1, y);
            v.set(j, x);
            proof {
                assert(j >= 1);
                assert(before.len() == orig.len());
                assert(0 <= j - 1 < before.len());
                assert(before[j - 1] == x);
                let u1 = before.update(j - 1, y);
                assert(u1.len() == before.len());
                assert(v@ =~= u1.update(j as int, x));
                vstd::seq_lib::to_multiset_update(before, j - 1, y);
                vstd::seq_lib::to_multiset_update(u1, j as int, x);
                assert(u1[j as int] == y);
                assert(v@.to_multiset() == u1.to_multiset().insert(x).remove(y));
                assert(v@.to_multiset() =~= before.to_multiset());
            }
            j = j - 1;
        }
        i = i + 1;
    }
    v
}

/// Report order of rows: ascending start time, depth breaking ties.
pub open spec fn row_le(a: RowModel, b: RowModel) -> bool {
    a.start < b.start || (a.start == b.start && a.depth <= b.depth)
}

pub open spec fn rows_sorted(rs: Seq<RowModel>) -> bool {
    forall|a: int, b: int| 0 <= a <= b < rs.len() ==> #[trigger] row_le(rs[a], rs[b])
}

/// A row in a span of another row of smaller depth counts as that row's
/// child for the self-time computation.
pub open spec fn is_child(parent: RowModel, cand: RowModel) -> bool {
    cand.depth > parent.depth && cand.start >= parent.start && cand.end <= parent.end
}

/// Summed duration of every row in `rs` that is a child of `parent`.  A row
/// is never its own child — a child has strictly greater depth — so the sum
/// may range over the whole row set.
pub open spec fn child_sum(rs: Seq<RowModel>, parent: RowModel) -> int
    decreases rs.len(),
{
    if rs.len() == 0 {
        0
    } else {
        child_sum(rs.drop_last(), parent) + if is_child(parent, rs.last()) {
            rs.last().duration
        } else {
            0
        }
    }
}

pub open spec fn with_inner(r: RowModel, v: int) -> RowModel {
    RowModel { inner: v, ..r }
}

/// The self time a row gets from a row set: its duration minus its
/// children's summed durations, floored at zero.
pub open spec fn inner_value(rs: Seq<RowModel>, i: int) -> int {
    let d = rs[i].duration;
    let cs = child_sum(rs, rs[i]);
    if d - cs >= 0 {
        d - cs
    } else {
        0
    }
}

/// The self-time pass: every row's inner duration becomes the self time it
/// gets from the row set; nothing else changes.
pub open spec fn self_time_pass(rs: Seq<RowModel>) -> Seq<RowModel> {
    Seq::new(rs.len(), |i: int| with_inner(rs[i], inner_value(rs, i)))
}

pub proof fn lemma_child_sum_nonneg(rs: Seq<RowModel>, parent: RowModel)
    requires
        forall|k: int| 0 <= k < rs.len() ==> (#[trigger] rs[k]).duration >= 0,
    ensures
        child_sum(rs, parent) >= 0,
    decreases rs.len(),
{
    if rs.len() > 0 {
        assert(forall|k: int|
            0 <= k < rs.drop_last().len() ==> (#[trigger] rs.drop_last()[k]).duration >= 0);
        lemma_child_sum_nonneg(rs.drop_last(), parent);
        assert(rs[rs.len() - 1] == rs.last());
    }
}

proof fn lemma_child_sum_take_succ(rs: Seq<RowModel>, j: int, parent: RowModel)
    requires
        0 <= j < rs.len(),
    ensures
        child_sum(rs.take(j + 1), parent) == child_sum(rs.take(j), parent) + if is_child(
            parent,
            rs[j],
        ) {
            rs[j].duration
        } else {
            0
        },
{
    assert(rs.take(j + 1).drop_last() =~= rs.take(j));
    assert(rs.take(j + 1).last() == rs[j]);
}

/// The child sum reads only times, durations and depths, never the inner
/// duration: row sets equal up to inner durations, under parents equal up
/// to inner duration, give the same sum.
pub proof fn lemma_child_sum_ignores_inner(
    rs1: Seq<RowModel>,
    rs2: Seq<RowModel>,
    p1: RowModel,
    p2: RowModel,
)
    requires
        rs1.len() == rs2.len(),
        forall|k: int|
            0 <= k < rs1.len() ==> with_inner(#[trigger] rs1[k], 0) == with_inner(rs2[k], 0),
        with_inner(p1, 0) == with_inner(p2, 0),
    ensures
        child_sum(rs1, p1) == child_sum(rs2, p2),
    decreases rs1.len(),
{
    if rs1.len() > 0 {
        assert(forall|k: int|
            0 <= k < rs1.drop_last().len() ==> with_inner(#[trigger] rs1.drop_last()[k], 0)
                == with_inner(rs2.drop_last()[k], 0));
        lemma_child_sum_ignores_inner(rs1.drop_last(), rs2.drop_last(), p1, p2);
        assert(rs1[rs1.len() - 1] == rs1.last());
        assert(rs2[rs2.len() - 1] == rs2.last());
        assert(with_inner(rs1.last(), 0) == with_inner(rs2.last(), 0));
        assert(is_child(p1, rs1.last()) == is_child(p2, rs2.last()));
        assert(rs1.last().duration == rs2.last().duration);
    }
}

/// Within a row set of non-negative durations, the self time of every row
/// stays between zero and the row's duration.
pub proof fn lemma_inner_within_duration(rs: Seq<RowModel>, i: int)
    requires
        forall|k: int| 0 <= k < rs.len() ==> (#[trigger] rs[k]).duration >= 0,
        0 <= i < rs.len(),
    ensures
        0 <= self_time_pass(rs)[i].inner <= rs[i].duration,
{
    lemma_child_sum_nonneg(rs, rs[i]);
}

/// Re-running the self-time pass on an already finalized row set yields the
/// same inner durations: the pass reads nothing it writes.
pub proof fn lemma_self_time_idempotent(rs: Seq<RowModel>)
    ensures
        self_time_pass(self_time_pass(rs)) == self_time_pass(rs),
{
    let once = self_time_pass(rs);
    assert forall|i: int| 0 <= i < once.len() implies #[trigger] self_time_pass(once)[i]
        == once[i] by {
        assert(with_inner(once[i], 0) == with_inner(rs[i], 0));
        assert(forall|k: int|
            0 <= k < once.len() ==> with_inner(#[trigger] once[k], 0) == with_inner(rs[k], 0));
        lemma_child_sum_ignores_inner(once, rs, once[i], rs[i]);
        assert(inner_value(once, i) == inner_value(rs, i));
    }
    assert(self_time_pass(once) =~= once);
}

/// One full copy of a row.
fn copy_row(r: &ExecutionTimeRow) -> (out: ExecutionTimeRow)
    ensures
        out == *r,
{
    ExecutionTimeRow {
        function_name: r.function_name.clone(),
        start_time: r.start_time,
        end_time: r.end_time,
        duration: r.duration,
        inner_duration: r.inner_duration,
        depth: r.depth,
        cpuid: r.cpuid,
    }
}

/// Insertion sort of rows by start time, depth breaking ties.
fn sort_rows(rows: Vec<ExecutionTimeRow>) -> (sorted: Vec<ExecutionTimeRow>)
    ensures
        rows_sorted(sorted@.map_values(|r: ExecutionTimeRow| r@)),
        sorted@.map_values(|r: ExecutionTimeRow| r@).to_multiset() == rows@.map_values(
            |r: ExecutionTimeRow| r@,
        ).to_multiset(),
{
    let mut v = rows;
    let ghost orig = v@.map_values(|r: ExecutionTimeRow| r@);
    let mut i: usize = 1;
    while i < v.len()
        invariant
            1 <= i <= v@.len() || v@.len() == 0,
            v@.len() == orig.len(),
            v@.map_values(|r: ExecutionTimeRow| r@).to_multiset() == orig.to_multiset(),
            forall|a: int, b: int|
                0 <= a <= b < i ==> #[trigger] row_le(v@[a]@, v@[b]@),
        decreases v@.len() - i,
    {
        let mut j: usize = i;
        while j > 0 && (v[j].start_time < v[j - 1].start_time || (v[j].start_time == v[j
            - 1].start_time && v[j].depth < v[j - 1].depth))
            invariant
                0 <= j <= i < v@.len(),
                v@.len() == orig.len(),
                v@.map_values(|r: ExecutionTimeRow| r@).to_multiset() == orig.to_multiset(),
                forall|a: int, b: int|
                    0 <= a < b <= i && b != j ==> #[trigger] row_le(v@[a]@, v@[b]@),
            decreases j,
        {
            let ghost before = v@;
            let ghost before_m = v@.map_values(|r: ExecutionTimeRow| r@);
            let x = copy_row(&v[j - 1]);
            let y = copy_row(&v[j]);
            v.set(j - 1, y);
            v.set(j, x);
            proof {
                let after_m = v@.map_values(|r: ExecutionTimeRow| r@);
                assert(v@ =~= before.update(j - 1, y).update(j as int, x));
                let u1 = before_m.update(j - 1, before_m[j as int]);
                assert(after_m =~= u1.update(j as int, before_m[j - 1]));
                vstd::seq_lib::to_multiset_update(before_m, j - 1, before_m[j as int]);
                vstd::seq_lib::to_multiset_update(u1, j as int, before_m[j - 1]);
                assert(u1[j as int] == before_m[j as int]);
                assert(after_m.to_multiset() =~= before_m.to_multiset());
            }
            j = j - 1;
        }
        proof {
            assert forall|a: int, b: int| 0 <= a <= b < i + 1 implies #[trigger] row_le(
                v@[a]@,
                v@[b]@,
            ) by {
                if a == b {
                    assert(row_le(v@[a]@, v@[b]@));
                } else if b == j as int {
                    // the inner loop stopped, so the moved row is in order
                    // with its predecessor, and transitively with the rest
                    assert(j > 0);
                    assert(row_le(v@[j - 1]@, v@[j as int]@));
                    if a < j - 1 {
                        assert(row_le(v@[a]@, v@[j - 1]@));
                    }
                } else {
                    assert(row_le(v@[a]@, v@[b]@));
                }
            }
        }
        i = i + 1;
    }
    v
}

/// One row's children summed by a scan over the whole row set, exactly as
/// [`child_sum`] counts them.
fn sum_children(rows: &Vec<ExecutionTimeRow>, i: usize) -> (total: u128)
    requires
        i < rows@.len(),
    ensures
        total as int == child_sum(rows@.map_values(|r: ExecutionTimeRow| r@), rows@[i as int]@),
{
    let ghost rsm = rows@.map_values(|r: ExecutionTimeRow| r@);
    let ghost parent = rows@[i as int]@;
    let mut total: u128 = 0;
    let mut j: usize = 0;
    proof {
        assert(rsm.take(0) =~= Seq::<RowModel>::empty());
    }
    while j < rows.len()
        invariant
            0 <= j <= rows@.len(),
            i < rows@.len(),
            rsm == rows@.map_values(|r: ExecutionTimeRow| r@),
            parent == rows@[i as int]@,
            total as int == child_sum(rsm.take(j as int), parent),
            total as int <= j as int * (u64::MAX as int),
        decreases rows@.len() - j,
    {
        proof {
            lemma_child_sum_take_succ(rsm, j as int, parent);
            assert(rsm[j as int] == rows@[j as int]@);
            assert(j as int + 1 <= u64::MAX as int);
            assert((j as int + 1) * (u64::MAX as int) <= (u64::MAX as int) * (u64::MAX as int));
        }
        if j != i && rows[j].depth > rows[i].depth && rows[j].start_time >= rows[i].start_time
            && rows[j].end_time <= rows[i].end_time {
            total = total + rows[j].duration as u128;
        } else {
            proof {
                if j == i as int {
                    assert(!is_child(parent, rsm[j as int]));
                }
            }
        }
        j = j + 1;
    }
    proof {
        assert(rsm.take(rsm.len() as int) =~= rsm);
    }
    total
}

/// The self-time pass over a finalized row set: each row's inner duration
/// becomes its duration minus the summed durations of its children — the
/// rows of greater depth whose spans lie within its own — floored at zero.
/// Every other field is kept, so the pass can be re-run without change, and
/// no row's inner duration exceeds its duration.
pub fn compute_self_times(rows: &Vec<ExecutionTimeRow>) -> (out: Vec<ExecutionTimeRow>)
    ensures
        out@.map_values(|r: ExecutionTimeRow| r@) == self_time_pass(
            rows@.map_values(|r: ExecutionTimeRow| r@),
        ),
        forall|k: int|
            0 <= k < out@.len() ==> (#[trigger] out@[k]).inner_duration <= out@[k].duration,
{
    let ghost rsm = rows@.map_values(|r: ExecutionTimeRow| r@);
    let mut out: Vec<ExecutionTimeRow> = Vec::new();
    let mut i: usize = 0;
    proof {
        assert(out@.map_values(|r: ExecutionTimeRow| r@) =~= self_time_pass(rsm).take(0));
    }
    while i < rows.len()
        invariant
            0 <= i <= rows@.len(),
            rsm == rows@.map_values(|r: ExecutionTimeRow| r@),
            out@.map_values(|r: ExecutionTimeRow| r@) == self_time_pass(rsm).take(i as int),
            forall|k: int|
                0 <= k < out@.len() ==> (#[trigger] out@[k]).inner_duration <= out@[k].duration,
        decreases rows@.len() - i,
    {
        let total = sum_children(rows, i);
        let r = &rows[i];
        let duration = r.duration;
        let inner: u64 = if total >= duration as u128 {
            0
        } else {
            duration - (total as u64)
        };
        proof {
            assert(rsm[i as int] == rows@[i as int]@);
            assert(inner as int == inner_value(rsm, i as int)) by {
                assert(forall|k: int|
                    0 <= k < rsm.len() ==> (#[trigger] rsm[k]).duration >= 0);
                lemma_child_sum_nonneg(rsm, rsm[i as int]);
            }
        }
        let finished = ExecutionTimeRow {
            function_name: r.function_name.clone(),
            start_time: r.start_time,
            end_time: r.end_time,
            duration: r.duration,
            inner_duration: inner,
            depth: r.depth,
            cpuid: r.cpuid,
        };
        let ghost out_before = out@;
        out.push(finished);
        proof {
            assert(out_before.map_values(|r: ExecutionTimeRow| r@).len() == out_before.len());
            assert(self_time_pass(rsm).len() == rsm.len());
            assert(rsm.len() == rows@.len());
            assert(out_before.len() == i);
            assert(out@.len() == i + 1);
            assert(out@[i as int] == finished);
            assert(finished@ == with_inner(rsm[i as int], inner_value(rsm, i as int)));
            assert(self_time_pass(rsm)[i as int] == with_inner(
                rsm[i as int],
                inner_value(rsm, i as int),
            ));
            assert(forall|k: int| 0 <= k < i ==> out@[k] == #[trigger] out_before[k]);
            assert(out@.map_values(|r: ExecutionTimeRow| r@) =~= self_time_pass(rsm).take(
                i as int + 1,
            ));
        }
        i = i + 1;
    }
    proof {
        assert(self_time_pass(rsm).take(rsm.len() as int) =~= self_time_pass(rsm));
    }
    out
}

/// Rows equal up to the inner duration, which is put back to the duration:
/// the shape rows have when they leave the pairing pass.
pub open spec fn base_rows(rs: Seq<RowModel>) -> Seq<RowModel> {
    rs.map_values(|r: RowModel| with_inner(r, r.duration))
}

/// The rows of a multiset-equal row sequence inherit the pairing pass's
/// pointwise guarantees.
proof fn lemma_rows_transfer(rs: Seq<RowModel>, paired: Seq<RowModel>)
    requires
        rs.to_multiset() == paired.to_multiset(),
        forall|k: int|
            0 <= k < paired.len() ==> {
                let r = #[trigger] paired[k];
                r.inner == r.duration && 0 <= r.duration
            },
    ensures
        forall|k: int|
            0 <= k < rs.len() ==> {
                let r = #[trigger] rs[k];
                r.inner == r.duration && 0 <= r.duration
            },
{
    assert forall|k: int| 0 <= k < rs.len() implies {
        let r = #[trigger] rs[k];
        r.inner == r.duration && 0 <= r.duration
    } by {
        assert(rs.contains(rs[k]));
        assert(rs.to_multiset().count(rs[k]) > 0);
        assert(paired.to_multiset().count(rs[k]) > 0);
        assert(paired.contains(rs[k]));
        let j = choose|j: int| 0 <= j < paired.len() && paired[j] == rs[k];
        assert(paired[j].inner == paired[j].duration);
    }
}

/// The whole reconstruction: pairs the sorted event stream, discards
/// anomalous spans together with their function's open entries, sorts the
/// emitted rows by start time and depth, and finalizes each row's self
/// time.  The rows handed back are, up to the order of ties, exactly the
/// accepted pairings of the stream, and each carries the self time the
/// finalized row set gives it, never more than its duration.
pub fn handle_execution_times<F: Program>(
    times: Vec<(u64, FunctionCall<F>)>,
    initial_time: u64,
    anomaly_bound: u64,
) -> (rows: Vec<ExecutionTimeRow>)
    requires
        events_sorted(times@),
    ensures
        rows_sorted(rows@.map_values(|r: ExecutionTimeRow| r@)),
        base_rows(rows@.map_values(|r: ExecutionTimeRow| r@)).to_multiset() == pair_run(
            event_models(times@),
            initial_time as int,
            anomaly_bound as int,
        ).rows.to_multiset(),
        rows@.map_values(|r: ExecutionTimeRow| r@) == self_time_pass(
            base_rows(rows@.map_values(|r: ExecutionTimeRow| r@)),
        ),
        forall|k: int|
            0 <= k < rows@.len() ==> (#[trigger] rows@[k]).inner_duration <= rows@[k].duration,
{
    let ghost evs = event_models(times@);
    let ghost ini = initial_time as int;
    let ghost bnd = anomaly_bound as int;
    let paired = pair_events(&times, initial_time, anomaly_bound);
    let ghost paired_m = paired@.map_values(|r: ExecutionTimeRow| r@);
    proof {
        assert(models_sorted(evs)) by {
            assert forall|a: int, b: int| 0 <= a <= b < evs.len() implies (#[trigger] evs[a]).time
                <= (#[trigger] evs[b]).time by {
                assert(evs[a] == event_model(times@[a]));
                assert(evs[b] == event_model(times@[b]));
            }
        }
        lemma_pair_run_rows(evs, ini, bnd);
    }
    let sorted = sort_rows(paired);
    let ghost sorted_m = sorted@.map_values(|r: ExecutionTimeRow| r@);
    proof {
        lemma_rows_transfer(sorted_m, paired_m);
    }
    let rows = compute_self_times(&sorted);
    proof {
        let rows_m = rows@.map_values(|r: ExecutionTimeRow| r@);
        // The finalized rows differ from the sorted paired rows only in
        // their inner durations, which the sorted rows still had equal to
        // their durations; putting the inner durations back recovers them.
        assert(base_rows(rows_m) =~= sorted_m);
        assert(rows_sorted(rows_m)) by {
            assert forall|a: int, b: int| 0 <= a <= b < rows_m.len() implies #[trigger] row_le(
                rows_m[a],
                rows_m[b],
            ) by {
                assert(row_le(sorted_m[a], sorted_m[b]));
            }
        }
    }
    rows
}

/// Per-function duration statistics for a finalized row set.
#[derive(Debug)]
pub struct FunctionSummary {
    pub function_name: String,
    pub count: usize,
    pub mean_duration: u64,
    pub median_duration: u64,
}

/// The function names of a row set, in order of first appearance.
pub open spec fn names_in_order(rs: Seq<RowModel>) -> Seq<Seq<char>>
    decreases rs.len(),
{
    if rs.len() == 0 {
        Seq::empty()
    } else {
        let prev = names_in_order(rs.drop_last());
        if prev.contains(rs.last().name) {
            prev
        } else {
            prev.push(rs.last().name)
        }
    }
}

/// The durations of one function's rows, in row order.
pub open spec fn durations_of(rs: Seq<RowModel>, name: Seq<char>) -> Seq<int>
    decreases rs.len(),
{
    if rs.len() == 0 {
        Seq::empty()
    } else {
        let prev = durations_of(rs.drop_last(), name);
        if rs.last().name == name {
            prev.push(rs.last().duration)
        } else {
            prev
        }
    }
}

pub open spec fn sum_int(s: Seq<int>) -> int
    decreases s.len(),
{
    if s.len() == 0 {
        0
    } else {
        sum_int(s.drop_last()) + s.last()
    }
}

/// Median of a duration list in its own order, as [`crate::utils::median`]
/// takes it: the middle element, or for even lengths the rounded-down mean
/// of the two middle elements.
pub open spec fn median_int(s: Seq<int>) -> int {
    let mid = s.len() as int / 2;
    if s.len() % 2 == 0 {
        (s[mid - 1] + s[mid]) / 2
    } else {
        s[mid]
    }
}

/// A summary entry agrees with one function's duration list.
pub open spec fn summary_matches(s: FunctionSummary, name: Seq<char>, durs: Seq<int>) -> bool {
    &&& s.function_name@ == name
    &&& s.count == durs.len()
    &&& s.mean_duration as int == sum_int(durs) / durs.len() as int
    &&& s.median_duration as int == median_int(durs)
}

proof fn lemma_names_in_order_step(rs: Seq<RowModel>)
    requires
        rs.len() > 0,
    ensures
        forall|n: Seq<char>|
            names_in_order(rs.drop_last()).contains(n) ==> #[trigger] names_in_order(rs).contains(
                n,
            ),
        names_in_order(rs).contains(rs.last().name),
        forall|n: Seq<char>|
            #[trigger] names_in_order(rs).contains(n) ==> names_in_order(rs.drop_last()).contains(
                n,
            ) || n == rs.last().name,
{
    let prev = names_in_order(rs.drop_last());
    let cur = names_in_order(rs);
    assert forall|n: Seq<char>| prev.contains(n) implies #[trigger] cur.contains(n) by {
        let j = choose|j: int| 0 <= j < prev.len() && prev[j] == n;
        assert(cur[j] == n);
    }
    if !prev.contains(rs.last().name) {
        assert(cur[prev.len() as int] == rs.last().name);
    }
    assert forall|n: Seq<char>| #[trigger] cur.contains(n) implies prev.contains(n) || n
        == rs.last().name by {
        let j = choose|j: int| 0 <= j < cur.len() && cur[j] == n;
        if j < prev.len() {
            assert(prev[j] == n);
        }
    }
}

proof fn lemma_names_in_order_distinct(rs: Seq<RowModel>)
    ensures
        forall|a: int, b: int|
            0 <= a < b < names_in_order(rs).len() ==> names_in_order(rs)[a] != names_in_order(
                rs,
            )[b],
    decreases rs.len(),
{
    if rs.len() > 0 {
        lemma_names_in_order_distinct(rs.drop_last());
        let prev = names_in_order(rs.drop_last());
        let cur = names_in_order(rs);
        if !prev.contains(rs.last().name) {
            assert forall|a: int, b: int| 0 <= a < b < cur.len() implies cur[a] != cur[b] by {
                if b == prev.len() {
                    assert(cur[a] == prev[a]);
                    if prev[a] == rs.last().name {
                        assert(prev.contains(rs.last().name));
                    }
                } else {
                    assert(cur[a] == prev[a] && cur[b] == prev[b]);
                }
            }
        }
    }
}

/// A function not yet sighted has no durations.
proof fn lemma_durations_absent(rs: Seq<RowModel>, name: Seq<char>)
    requires
        !names_in_order(rs).contains(name),
    ensures
        durations_of(rs, name) == Seq::<int>::empty(),
    decreases rs.len(),
{
    if rs.len() > 0 {
        lemma_names_in_order_step(rs);
        assert(!names_in_order(rs.drop_last()).contains(name));
        assert(rs.last().name != name);
        lemma_durations_absent(rs.drop_last(), name);
    }
}

proof fn lemma_names_in_order_take_succ(rs: Seq<RowModel>, i: int)
    requires
        0 <= i < rs.len(),
    ensures
        names_in_order(rs.take(i + 1)) == if names_in_order(rs.take(i)).contains(rs[i].name) {
            names_in_order(rs.take(i))
        } else {
            names_in_order(rs.take(i)).push(rs[i].name)
        },
{
    assert(rs.take(i + 1).drop_last() =~= rs.take(i));
    assert(rs.take(i + 1).last() == rs[i]);
}

proof fn lemma_durations_take_succ(rs: Seq<RowModel>, i: int, name: Seq<char>)
    requires
        0 <= i < rs.len(),
    ensures
        durations_of(rs.take(i + 1), name) == if rs[i].name == name {
            durations_of(rs.take(i), name).push(rs[i].duration)
        } else {
            durations_of(rs.take(i), name)
        },
{
    assert(rs.take(i + 1).drop_last() =~= rs.take(i));
    assert(rs.take(i + 1).last() == rs[i]);
}

proof fn lemma_sum_int_take_succ(s: Seq<int>, i: int)
    requires
        0 <= i < s.len(),
    ensures
        sum_int(s.take(i + 1)) == sum_int(s.take(i)) + s[i],
{
    assert(s.take(i + 1).drop_last() =~= s.take(i));
    assert(s.take(i + 1).last() == s[i]);
}

/// Index of the group for `name`, if one exists.
fn find_name(names: &Vec<String>, name: &String) -> (found: Option<usize>)
    ensures
        match found {
            Some(j) => j < names@.len() && names@[j as int]@ == name@,
            None => forall|j: int| 0 <= j < names@.len() ==> (#[trigger] names@[j])@ != name@,
        },
{
    let mut j: usize = 0;
    while j < names.len()
        invariant
            0 <= j <= names@.len(),
            forall|k: int| 0 <= k < j ==> (#[trigger] names@[k])@ != name@,
        decreases names@.len() - j,
    {
        if names[j] == *name {
            return Some(j);
        }
        j = j + 1;
    }
    None
}

/// Count, mean and median of one function's durations.
fn summarize_group(name: &String, ds: &Vec<u64>) -> (s: FunctionSummary)
    requires
        ds@.len() >= 1,
    ensures
        summary_matches(s, name@, ds@.map_values(|d: u64| d as int)),
{
    let ghost dsm = ds@.map_values(|d: u64| d as int);
    let count = ds.len();
    let mut total: u128 = 0;
    let mut j: usize = 0;
    proof {
        assert(dsm.take(0) =~= Seq::<int>::empty());
    }
    while j < count
        invariant
            0 <= j <= count,
            count == ds@.len(),
            dsm == ds@.map_values(|d: u64| d as int),
            total as int == sum_int(dsm.take(j as int)),
            total as int <= j as int * (u64::MAX as int),
        decreases count - j,
    {
        proof {
            lemma_sum_int_take_succ(dsm, j as int);
            assert(dsm[j as int] == ds@[j as int] as int);
            assert((j as int + 1) * (u64::MAX as int) <= (u64::MAX as int) * (u64::MAX as int));
        }
        total = total + ds[j] as u128;
        j = j + 1;
    }
    proof {
        assert(dsm.take(count as int) =~= dsm);
    }
    let mean = (total / count as u128) as u64;
    proof {
        vstd::arithmetic::div_mod::lemma_div_is_ordered(
            total as int,
            count as int * (u64::MAX as int),
            count as int,
        );
        vstd::arithmetic::div_mod::lemma_div_multiples_vanish(u64::MAX as int, count as int);
        assert(total as int / count as int <= u64::MAX as int);
    }
    let mid = count / 2;
    let median: u64 = if count % 2 == 0 {
        let a = ds[mid - 1];
        let b = ds[mid];
        let m = (a as u128 + b as u128) / 2;
        proof {
            vstd::arithmetic::div_mod::lemma_div_is_ordered(
                a as int + b as int,
                2 * (u64::MAX as int),
                2,
            );
            vstd::arithmetic::div_mod::lemma_div_multiples_vanish(u64::MAX as int, 2);
            assert((a as int + b as int) / 2 <= u64::MAX as int);
            assert(dsm[mid as int - 1] == a as int && dsm[mid as int] == b as int);
        }
        m as u64
    } else {
        ds[mid]
    };
    FunctionSummary {
        function_name: name.clone(),
        count: count,
        mean_duration: mean,
        median_duration: median,
    }
}

/// Per-function duration statistics of a row set: for each function, in
/// order of first appearance among the rows, the number of its rows and the
/// mean and median of their durations, the median taken positionally over
/// the rows in their given order.
pub fn function_summaries(rows: &Vec<ExecutionTimeRow>) -> (summaries: Vec<FunctionSummary>)
    ensures
        ({
            let rsm = rows@.map_values(|r: ExecutionTimeRow| r@);
            &&& summaries@.len() == names_in_order(rsm).len()
            &&& forall|j: int|
                0 <= j < summaries@.len() ==> summary_matches(
                    #[trigger] summaries@[j],
                    names_in_order(rsm)[j],
                    durations_of(rsm, names_in_order(rsm)[j]),
                )
        }),
{
    let ghost rsm = rows@.map_values(|r: ExecutionTimeRow| r@);
    let mut names: Vec<String> = Vec::new();
    let mut durs: Vec<Vec<u64>> = Vec::new();
    let mut i: usize = 0;
    proof {
        assert(rsm.take(0) =~= Seq::<RowModel>::empty());
        assert(names@.map_values(|s: String| s@) =~= Seq::<Seq<char>>::empty());
    }
    while i < rows.len()
        invariant
            0 <= i <= rows@.len(),
            rsm == rows@.map_values(|r: ExecutionTimeRow| r@),
            names@.len() == durs@.len(),
            names@.map_values(|s: String| s@) == names_in_order(rsm.take(i as int)),
            forall|k: int|
                0 <= k < durs@.len() ==> (#[trigger] durs@[k])@.map_values(|d: u64| d as int)
                    == durations_of(rsm.take(i as int), names@[k]@),
        decreases rows@.len() - i,
    {
        let ghost name_keys = names@.map_values(|s: String| s@);
        let d = rows[i].duration;
        proof {
            assert(rsm[i as int] == rows@[i as int]@);
            lemma_names_in_order_take_succ(rsm, i as int);
            lemma_durations_take_succ(rsm, i as int, rsm[i as int].name);
            lemma_names_in_order_distinct(rsm.take(i as int));
            assert forall|n: Seq<char>| n != rsm[i as int].name implies #[trigger] durations_of(
                rsm.take(i as int + 1),
                n,
            ) == durations_of(rsm.take(i as int), n) by {
                lemma_durations_take_succ(rsm, i as int, n);
            }
        }
        match find_name(&names, &rows[i].function_name) {
            None => {
                proof {
                    assert(!names_in_order(rsm.take(i as int)).contains(rsm[i as int].name)) by {
                        if names_in_order(rsm.take(i as int)).contains(rsm[i as int].name) {
                            let j = choose|j: int|
                                0 <= j < name_keys.len() && name_keys[j] == rsm[i as int].name;
                            assert(names@[j]@ == rsm[i as int].name);
                        }
                    }
                    lemma_durations_absent(rsm.take(i as int), rsm[i as int].name);
                }
                let ghost names_before = names@;
                let ghost durs_before = durs@;
                names.push(rows[i].function_name.clone());
                let mut group: Vec<u64> = Vec::new();
                group.push(d);
                durs.push(group);
                proof {
                    assert(names@.map_values(|s: String| s@) =~= name_keys.push(
                        rsm[i as int].name,
                    ));
                    assert forall|k: int| 0 <= k < durs@.len() implies (#[trigger] durs@[k])@
                        .map_values(|dd: u64| dd as int) == durations_of(
                        rsm.take(i as int + 1),
                        names@[k]@,
                    ) by {
                        if k < durs_before.len() {
                            assert(durs@[k] == durs_before[k]);
                            assert(names@[k] == names_before[k]);
                            assert(names@[k]@ != rsm[i as int].name);
                        } else {
                            assert(durs@[k]@ =~= seq![d]);
                            assert(durs@[k]@.map_values(|dd: u64| dd as int) =~= Seq::<
                                int,
                            >::empty().push(d as int));
                        }
                    }
                }
            },
            Some(k) => {
                proof {
                    assert(names_in_order(rsm.take(i as int)).contains(rsm[i as int].name)) by {
                        assert(name_keys[k as int] == rsm[i as int].name);
                    }
                }
                let ghost durs_before = durs@;
                durs[k].push(d);
                proof {
                    assert(durs@ =~= durs_before.update(k as int, durs@[k as int]));
                    assert(durs@[k as int]@ =~= durs_before[k as int]@.push(d));
                    assert forall|k2: int| 0 <= k2 < durs@.len() implies (#[trigger] durs@[k2])@
                        .map_values(|dd: u64| dd as int) == durations_of(
                        rsm.take(i as int + 1),
                        names@[k2]@,
                    ) by {
                        if k2 == k as int {
                            let prior = durs_before[k2]@.map_values(|dd: u64| dd as int);
                            assert(durs@[k2]@.map_values(|dd: u64| dd as int) =~= prior.push(
                                d as int,
                            ));
                        } else {
                            assert(durs@[k2] == durs_before[k2]);
                            assert(name_keys[k2] != name_keys[k as int]);
                            assert(names@[k2]@ != rsm[i as int].name);
                        }
                    }
                }
            },
        }
        i = i + 1;
    }
    proof {
        assert(rsm.take(rsm.len() as int) =~= rsm);
        assert(rsm.len() == rows@.len());
    }
    let mut summaries: Vec<FunctionSummary> = Vec::new();
    let mut k: usize = 0;
    while k < names.len()
        invariant
            0 <= k <= names@.len(),
            names@.len() == durs@.len(),
            rsm == rows@.map_values(|r: ExecutionTimeRow| r@),
            names@.map_values(|s: String| s@) == names_in_order(rsm),
            forall|k2: int|
                0 <= k2 < durs@.len() ==> (#[trigger] durs@[k2])@.map_values(|d: u64| d as int)
                    == durations_of(rsm, names@[k2]@),
            summaries@.len() == k,
            forall|j: int|
                0 <= j < k ==> summary_matches(
                    #[trigger] summaries@[j],
                    names_in_order(rsm)[j],
                    durations_of(rsm, names_in_order(rsm)[j]),
                ),
        decreases names@.len() - k,
    {
        proof {
            assert(names@[k as int]@ == names_in_order(rsm)[k as int]);
            // every sighted function has at least one row, hence a duration
            if durs@[k as int]@.len() == 0 {
                lemma_names_in_order_has_durations(rsm, k as int);
            }
        }
        let s = summarize_group(&names[k], &durs[k]);
        summaries.push(s);
        k = k + 1;
    }
    summaries
}

/// Every function in the first-appearance order has at least one duration.
proof fn lemma_names_in_order_has_durations(rs: Seq<RowModel>, j: int)
    requires
        0 <= j < names_in_order(rs).len(),
    ensures
        durations_of(rs, names_in_order(rs)[j]).len() > 0,
    decreases rs.len(),
{
    if rs.len() > 0 {
        let prev = names_in_order(rs.drop_last());
        if rs.last().name == names_in_order(rs)[j] {
        } else {
            assert(j < prev.len() && prev[j] == names_in_order(rs)[j]) by {
                if !prev.contains(rs.last().name) {
                    assert(j < prev.len() || names_in_order(rs)[j] == rs.last().name);
                }
            }
            lemma_names_in_order_has_durations(rs.drop_last(), j);
        }
    }
}

/// Count of the exit events in a stream.
pub open spec fn count_exits(events: Seq<EventModel>) -> int
    decreases events.len(),
{
    if events.len() == 0 {
        0
    } else {
        count_exits(events.drop_last()) + if events.last().entry {
            0int
        } else {
            1int
        }
    }
}

/// A well-formed run: every exit finds an open entry of its function, and
/// no accepted span reaches the anomaly bound.
pub open spec fn run_well_formed(events: Seq<EventModel>, initial: int, bound: int) -> bool
    decreases events.len(),
{
    if events.len() == 0 {
        true
    } else {
        run_well_formed(events.drop_last(), initial, bound) && (events.last().entry || {
            let stk = pair_run(events.drop_last(), initial, bound).stacks[events.last().id];
            stk.len() > 0 && events.last().time - stk.last() < bound
        })
    }
}

/// For well-formed streams — every exit pairs, no span reaches the anomaly
/// bound — the pairing pass emits exactly one row per exit event.
pub proof fn lemma_well_formed_row_count(events: Seq<EventModel>, initial: int, bound: int)
    requires
        run_well_formed(events, initial, bound),
    ensures
        pair_run(events, initial, bound).rows.len() == count_exits(events),
    decreases events.len(),
{
    if events.len() > 0 {
        lemma_well_formed_row_count(events.drop_last(), initial, bound);
    }
}

/// The row an accepted exit emits: the pass appends exactly one row, whose
/// duration is the exit time minus the matched entry time — the most
/// recently opened entry of the exit's own function — and whose start and
/// end are those two times on the session-relative clock.
pub proof fn lemma_paired_exit_emits_row(st: PairState, ev: EventModel, initial: int, bound: int)
    requires
        !ev.entry,
        st.stacks[ev.id].len() > 0,
        ev.time - st.stacks[ev.id].last() < bound,
    ensures
        pair_step(st, ev, initial, bound).rows == st.rows.push(
            RowModel {
                name: ev.name,
                start: rel_time(st.stacks[ev.id].last(), initial),
                end: rel_time(ev.time, initial),
                duration: ev.time - st.stacks[ev.id].last(),
                inner: ev.time - st.stacks[ev.id].last(),
                depth: ev.depth,
                cpu: ev.cpu,
            },
        ),
{
}

/// Anomaly containment: no event ever touches the open entries of another
/// function, and an over-bound exit discards exactly the open entries of
/// its own function, emitting nothing.
pub proof fn lemma_anomaly_containment(st: PairState, ev: EventModel, initial: int, bound: int)
    ensures
        forall|g: int|
            g != ev.id ==> #[trigger] pair_step(st, ev, initial, bound).stacks[g] == st.stacks[g],
        (!ev.entry && st.stacks[ev.id].len() > 0 && ev.time - st.stacks[ev.id].last() >= bound)
            ==> pair_step(st, ev, initial, bound).stacks[ev.id] == Seq::<int>::empty()
            && pair_step(st, ev, initial, bound).rows == st.rows,
{
}

} // verus!
