//! Allocation lifecycle tracker: aggregates the already-paired
//! allocation/free stream into per-call-site memory usage statistics.

use vstd::prelude::*;

use crate::records::{AllocDirection, AllocInfo, MemStat};

verus! {

/// Mathematical counterpart of [`MemStat`], with unbounded integers.
pub struct SiteUsage {
    pub total_allocated: int,
    pub total_freed: int,
    pub current_usage: int,
    pub peak_usage: int,
    pub alloc_count: int,
    pub free_count: int,
}

pub open spec fn zero_usage() -> SiteUsage {
    SiteUsage {
        total_allocated: 0,
        total_freed: 0,
        current_usage: 0,
        peak_usage: 0,
        alloc_count: 0,
        free_count: 0,
    }
}

/// One record applied to a site's running statistics: an `Alloc` raises the
/// allocation tallies, a `Free` raises the free tallies, and the peak then
/// tracks the highest usage seen so far.
pub open spec fn apply_record(u: SiteUsage, r: AllocInfo) -> SiteUsage {
    let moved = if r.alloc_direction is Alloc {
        SiteUsage {
            total_allocated: u.total_allocated + r.size,
            total_freed: u.total_freed,
            current_usage: u.current_usage + r.size,
            peak_usage: u.peak_usage,
            alloc_count: u.alloc_count + 1,
            free_count: u.free_count,
        }
    } else {
        SiteUsage {
            total_allocated: u.total_allocated,
            total_freed: u.total_freed + r.size,
            current_usage: u.current_usage - r.size,
            peak_usage: u.peak_usage,
            alloc_count: u.alloc_count,
            free_count: u.free_count + 1,
        }
    };
    SiteUsage {
        peak_usage: if moved.current_usage > moved.peak_usage {
            moved.current_usage
        } else {
            moved.peak_usage
        },
        ..moved
    }
}

/// The statistics a record sequence yields for call-site `site`: the records
/// of other sites are passed over, so each site's statistics depend only on
/// its own records.
pub open spec fn site_usage(s: Seq<AllocInfo>, site: int) -> SiteUsage
    decreases s.len(),
{
    if s.len() == 0 {
        zero_usage()
    } else {
        let prev = site_usage(s.drop_last(), site);
        if s.last().stack_id == site {
            apply_record(prev, s.last())
        } else {
            prev
        }
    }
}

/// The call-site ids of a record sequence, in order of first sighting.
pub open spec fn sites_in_order(s: Seq<AllocInfo>) -> Seq<i64>
    decreases s.len(),
{
    if s.len() == 0 {
        Seq::empty()
    } else {
        let prev = sites_in_order(s.drop_last());
        if prev.contains(s.last().stack_id) {
            prev
        } else {
            prev.push(s.last().stack_id)
        }
    }
}

/// Sum of the sizes of all records, allocations and frees alike.
pub open spec fn sum_sizes(s: Seq<AllocInfo>) -> int
    decreases s.len(),
{
    if s.len() == 0 {
        0
    } else {
        sum_sizes(s.drop_last()) + s.last().size
    }
}

/// Sum of the sizes of the allocation records alone.
pub open spec fn sum_alloc_sizes(s: Seq<AllocInfo>) -> int
    decreases s.len(),
{
    if s.len() == 0 {
        0
    } else {
        sum_alloc_sizes(s.drop_last()) + if s.last().alloc_direction is Alloc {
            s.last().size as int
        } else {
            0
        }
    }
}

/// Sum of the sizes of the free records alone.
pub open spec fn sum_free_sizes(s: Seq<AllocInfo>) -> int
    decreases s.len(),
{
    if s.len() == 0 {
        0
    } else {
        sum_free_sizes(s.drop_last()) + if s.last().alloc_direction is Free {
            s.last().size as int
        } else {
            0
        }
    }
}

/// Number of allocation records.
pub open spec fn count_allocs(s: Seq<AllocInfo>) -> int
    decreases s.len(),
{
    if s.len() == 0 {
        0
    } else {
        count_allocs(s.drop_last()) + if s.last().alloc_direction is Alloc {
            1int
        } else {
            0int
        }
    }
}

/// Number of free records.
pub open spec fn count_frees(s: Seq<AllocInfo>) -> int
    decreases s.len(),
{
    if s.len() == 0 {
        0
    } else {
        count_frees(s.drop_last()) + if s.last().alloc_direction is Free {
            1int
        } else {
            0int
        }
    }
}

/// The highest value the signed usage (allocated minus freed) reaches over
/// any prefix of the stream, and never below zero.
pub open spec fn max_prefix_usage(s: Seq<AllocInfo>) -> int
    decreases s.len(),
{
    if s.len() == 0 {
        0
    } else {
        let whole = sum_alloc_sizes(s) - sum_free_sizes(s);
        if whole > max_prefix_usage(s.drop_last()) {
            whole
        } else {
            max_prefix_usage(s.drop_last())
        }
    }
}

/// For a stream whose records all carry one call-site, the derived
/// statistics are exactly the stream's tallies: the totals are the summed
/// alloc and free sizes, the counts are the record counts per direction,
/// the current usage is their difference, and the peak is the highest
/// usage any prefix of the stream reached.
pub proof fn lemma_single_site_usage(s: Seq<AllocInfo>, site: int)
    requires
        forall|k: int| 0 <= k < s.len() ==> (#[trigger] s[k]).stack_id as int == site,
    ensures
        site_usage(s, site).total_allocated == sum_alloc_sizes(s),
        site_usage(s, site).total_freed == sum_free_sizes(s),
        site_usage(s, site).current_usage == sum_alloc_sizes(s) - sum_free_sizes(s),
        site_usage(s, site).alloc_count == count_allocs(s),
        site_usage(s, site).free_count == count_frees(s),
        site_usage(s, site).peak_usage == max_prefix_usage(s),
    decreases s.len(),
{
    if s.len() > 0 {
        assert(forall|k: int|
            0 <= k < s.drop_last().len() ==> (#[trigger] s.drop_last()[k]).stack_id as int
                == site);
        lemma_single_site_usage(s.drop_last(), site);
        assert(s[s.len() - 1] == s.last());
    }
}

/// MemStat round trip: when every allocation of a call-site is matched by a
/// free — the free sizes sum to the alloc sizes and the free count equals
/// the alloc count — the site's allocated and freed totals agree, its
/// current usage comes back to zero, and its peak is the highest usage any
/// prefix of the stream reached.
pub proof fn lemma_mem_stat_round_trip(s: Seq<AllocInfo>, site: int)
    requires
        forall|k: int| 0 <= k < s.len() ==> (#[trigger] s[k]).stack_id as int == site,
        sum_free_sizes(s) == sum_alloc_sizes(s),
        count_frees(s) == count_allocs(s),
    ensures
        site_usage(s, site).total_allocated == sum_alloc_sizes(s),
        site_usage(s, site).total_freed == sum_alloc_sizes(s),
        site_usage(s, site).current_usage == 0,
        site_usage(s, site).peak_usage == max_prefix_usage(s),
        site_usage(s, site).alloc_count == site_usage(s, site).free_count,
{
    lemma_single_site_usage(s, site);
}

/// The record as the tracker rewrites it: its timestamp moved to the
/// session-relative clock.
pub open spec fn shifted_record(r: AllocInfo, initial_time: u64) -> AllocInfo {
    AllocInfo { timestamp: r.timestamp.saturating_sub(initial_time), ..r }
}

/// An executable statistics entry agrees with the mathematical one.
pub open spec fn stat_matches(m: MemStat, u: SiteUsage) -> bool {
    &&& m.total_allocated as int == u.total_allocated
    &&& m.total_freed as int == u.total_freed
    &&& m.current_usage as int == u.current_usage
    &&& m.peak_usage as int == u.peak_usage
    &&& m.alloc_count as int == u.alloc_count
    &&& m.free_count as int == u.free_count
}

pub proof fn lemma_sum_sizes_nonneg(s: Seq<AllocInfo>)
    ensures
        sum_sizes(s) >= 0,
    decreases s.len(),
{
    if s.len() > 0 {
        lemma_sum_sizes_nonneg(s.drop_last());
    }
}

pub proof fn lemma_sum_sizes_take_succ(s: Seq<AllocInfo>, i: int)
    requires
        0 <= i < s.len(),
    ensures
        sum_sizes(s.take(i + 1)) == sum_sizes(s.take(i)) + s[i].size,
{
    assert(s.take(i + 1).drop_last() =~= s.take(i));
    assert(s.take(i + 1).last() == s[i]);
}

pub proof fn lemma_sum_sizes_take_le(s: Seq<AllocInfo>, i: int)
    requires
        0 <= i <= s.len(),
    ensures
        sum_sizes(s.take(i)) <= sum_sizes(s),
    decreases s.len() - i,
{
    if i == s.len() {
        assert(s.take(i) =~= s);
    } else {
        lemma_sum_sizes_take_succ(s, i);
        lemma_sum_sizes_take_le(s, i + 1);
    }
}

/// Every tally of a site's statistics is bounded by the stream it came
/// from: totals by the sum of all sizes, counts by the record count, the
/// current usage between minus the freed total and the allocated total, and
/// the peak between zero and the allocated total.
pub proof fn lemma_site_usage_bounds(s: Seq<AllocInfo>, site: int)
    ensures
        0 <= site_usage(s, site).total_allocated,
        0 <= site_usage(s, site).total_freed,
        site_usage(s, site).total_allocated + site_usage(s, site).total_freed <= sum_sizes(s),
        -site_usage(s, site).total_freed <= site_usage(s, site).current_usage
            <= site_usage(s, site).total_allocated,
        0 <= site_usage(s, site).peak_usage <= site_usage(s, site).total_allocated,
        site_usage(s, site).current_usage == site_usage(s, site).total_allocated - site_usage(
            s,
            site,
        ).total_freed,
        0 <= site_usage(s, site).alloc_count,
        0 <= site_usage(s, site).free_count,
        site_usage(s, site).alloc_count + site_usage(s, site).free_count <= s.len(),
    decreases s.len(),
{
    if s.len() > 0 {
        lemma_site_usage_bounds(s.drop_last(), site);
        assert(sum_sizes(s) == sum_sizes(s.drop_last()) + s.last().size);
    }
}

pub proof fn lemma_site_usage_take_succ(s: Seq<AllocInfo>, i: int, site: int)
    requires
        0 <= i < s.len(),
    ensures
        site_usage(s.take(i + 1), site) == if s[i].stack_id == site {
            apply_record(site_usage(s.take(i), site), s[i])
        } else {
            site_usage(s.take(i), site)
        },
{
    assert(s.take(i + 1).drop_last() =~= s.take(i));
    assert(s.take(i + 1).last() == s[i]);
}

pub proof fn lemma_sites_in_order_take_succ(s: Seq<AllocInfo>, i: int)
    requires
        0 <= i < s.len(),
    ensures
        sites_in_order(s.take(i + 1)) == if sites_in_order(s.take(i)).contains(s[i].stack_id) {
            sites_in_order(s.take(i))
        } else {
            sites_in_order(s.take(i)).push(s[i].stack_id)
        },
{
    assert(s.take(i + 1).drop_last() =~= s.take(i));
    assert(s.take(i + 1).last() == s[i]);
}

/// Keeps the records captured from the session start on, in arrival order;
/// records from before the session (stale data of an earlier run) are
/// discarded.
pub fn collect_queue(allocations: Vec<AllocInfo>, initial_time: u64) -> (kept: Vec<AllocInfo>)
    ensures
        kept@ == allocations@.filter(|r: AllocInfo| r.timestamp >= initial_time),
{
    let mut kept: Vec<AllocInfo> = Vec::new();
    let mut i: usize = 0;
    while i < allocations.len()
        invariant
            0 <= i <= allocations@.len(),
            kept@ == allocations@.take(i as int).filter(
                |r: AllocInfo| r.timestamp >= initial_time,
            ),
        decreases allocations@.len() - i,
    {
        let r = allocations[i];
        proof {
            reveal(Seq::filter);
            assert(allocations@.take(i as int + 1).drop_last() =~= allocations@.take(i as int));
            assert(allocations@.take(i as int + 1).last() == allocations@[i as int]);
        }
        if r.timestamp >= initial_time {
            kept.push(r);
        }
        i = i + 1;
    }
    proof {
        assert(allocations@.take(allocations@.len() as int) =~= allocations@);
    }
    kept
}

/// Index of the entry for `site`, if one exists.
fn find_site(stats: &Vec<(i64, MemStat)>, site: i64) -> (found: Option<usize>)
    ensures
        match found {
            Some(j) => j < stats@.len() && stats@[j as int].0 == site,
            None => forall|j: int| 0 <= j < stats@.len() ==> (#[trigger] stats@[j]).0 != site,
        },
{
    let mut j: usize = 0;
    while j < stats.len()
        invariant
            0 <= j <= stats@.len(),
            forall|k: int| 0 <= k < j ==> (#[trigger] stats@[k]).0 != site,
        decreases stats@.len() - j,
    {
        if stats[j].0 == site {
            return Some(j);
        }
        j = j + 1;
    }
    None
}

/// Whatever the first-sighting order of the shorter stream holds, the
/// longer stream's order holds too, and the freshly seen site joins it.
proof fn lemma_sites_in_order_step(s: Seq<AllocInfo>)
    requires
        s.len() > 0,
    ensures
        forall|c: i64|
            sites_in_order(s.drop_last()).contains(c) ==> #[trigger] sites_in_order(s).contains(c),
        sites_in_order(s).contains(s.last().stack_id),
        forall|c: i64|
            #[trigger] sites_in_order(s).contains(c) ==> sites_in_order(s.drop_last()).contains(c)
                || c == s.last().stack_id,
{
    let prev = sites_in_order(s.drop_last());
    let cur = sites_in_order(s);
    assert forall|c: i64| prev.contains(c) implies #[trigger] cur.contains(c) by {
        let j = choose|j: int| 0 <= j < prev.len() && prev[j] == c;
        assert(cur[j] == c);
    }
    if !prev.contains(s.last().stack_id) {
        assert(cur[prev.len() as int] == s.last().stack_id);
    }
    assert forall|c: i64| #[trigger] cur.contains(c) implies prev.contains(c) || c
        == s.last().stack_id by {
        let j = choose|j: int| 0 <= j < cur.len() && cur[j] == c;
        if j < prev.len() {
            assert(prev[j] == c);
        }
    }
}

/// A site appears in the first-sighting order exactly when some record
/// carries it.
pub proof fn lemma_sites_in_order_contains(s: Seq<AllocInfo>, site: i64)
    ensures
        sites_in_order(s).contains(site) <==> exists|k: int|
            0 <= k < s.len() && (#[trigger] s[k]).stack_id == site,
    decreases s.len(),
{
    if s.len() > 0 {
        lemma_sites_in_order_contains(s.drop_last(), site);
        lemma_sites_in_order_step(s);
        assert(s[s.len() - 1] == s.last());
        if s.last().stack_id == site {
        } else {
            if sites_in_order(s).contains(site) {
                let k = choose|k: int|
                    0 <= k < s.drop_last().len() && (#[trigger] s.drop_last()[k]).stack_id == site;
                assert(s[k].stack_id == site);
            }
            if exists|k: int| 0 <= k < s.len() && (#[trigger] s[k]).stack_id == site {
                let k = choose|k: int| 0 <= k < s.len() && (#[trigger] s[k]).stack_id == site;
                assert(k < s.len() - 1);
                assert(s.drop_last()[k].stack_id == site);
            }
        }
    }
}

/// The first-sighting order lists each site once.
pub proof fn lemma_sites_in_order_distinct(s: Seq<AllocInfo>)
    ensures
        forall|a: int, b: int|
            0 <= a < b < sites_in_order(s).len() ==> sites_in_order(s)[a] != sites_in_order(s)[b],
    decreases s.len(),
{
    if s.len() > 0 {
        lemma_sites_in_order_distinct(s.drop_last());
        let prev = sites_in_order(s.drop_last());
        let cur = sites_in_order(s);
        if !prev.contains(s.last().stack_id) {
            assert forall|a: int, b: int| 0 <= a < b < cur.len() implies cur[a] != cur[b] by {
                if b == prev.len() {
                    assert(cur[a] == prev[a]);
                    if prev[a] == s.last().stack_id {
                        assert(prev.contains(s.last().stack_id));
                    }
                } else {
                    assert(cur[a] == prev[a] && cur[b] == prev[b]);
                }
            }
        }
    }
}

/// Builds the per-call-site statistics for a captured allocation stream and
/// moves every record's timestamp to the session-relative clock.
///
/// The statistics entry of each sighted call-site is created at its first
/// record, zeroed, and then every record of that site is applied to it in
/// stream order: an `Alloc` raises `alloc_count`, `total_allocated` and
/// `current_usage` by its size, a `Free` raises `free_count` and
/// `total_freed` and lowers `current_usage`, and after every record
/// `peak_usage` becomes the highest `current_usage` seen so far.  A
/// `current_usage` driven negative by a free whose allocation fell outside
/// the capture window is kept as it is.  The entries come back in the order
/// the sites were first sighted.
pub fn handle_memory_usage(allocations: &mut Vec<AllocInfo>, initial_time: u64) -> (stats: Vec<
    (i64, MemStat),
>)
    requires
        sum_sizes(old(allocations)@) <= i64::MAX,
        old(allocations)@.len() <= u32::MAX,
    ensures
        final(allocations)@.len() == old(allocations)@.len(),
        forall|k: int|
            0 <= k < old(allocations)@.len() ==> final(allocations)@[k] == shifted_record(
                #[trigger] old(allocations)@[k],
                initial_time,
            ),
        stats@.map_values(|p: (i64, MemStat)| p.0) == sites_in_order(old(allocations)@),
        forall|j: int|
            0 <= j < stats@.len() ==> stat_matches(
                (#[trigger] stats@[j]).1,
                site_usage(old(allocations)@, stats@[j].0 as int),
            ),
{
    let ghost orig = allocations@;
    let mut stats: Vec<(i64, MemStat)> = Vec::new();
    let mut i: usize = 0;
    while i < allocations.len()
        invariant
            0 <= i <= orig.len(),
            allocations@.len() == orig.len(),
            sum_sizes(orig) <= i64::MAX,
            orig.len() <= u32::MAX,
            forall|k: int|
                0 <= k < i ==> allocations@[k] == shifted_record(
                    #[trigger] orig[k],
                    initial_time,
                ),
            forall|k: int| i <= k < orig.len() ==> allocations@[k] == #[trigger] orig[k],
            stats@.map_values(|p: (i64, MemStat)| p.0) == sites_in_order(orig.take(i as int)),
            forall|j: int|
                0 <= j < stats@.len() ==> stat_matches(
                    (#[trigger] stats@[j]).1,
                    site_usage(orig.take(i as int), stats@[j].0 as int),
                ),
        decreases orig.len() - i,
    {
        let r = allocations[i];
        proof {
            assert(r == orig[i as int]);
        }
        let shifted = AllocInfo {
            alloc_type: r.alloc_type,
            alloc_direction: r.alloc_direction,
            size: r.size,
            timestamp: r.timestamp.saturating_sub(initial_time),
            stack_id: r.stack_id,
            pid: r.pid,
        };
        allocations.set(i, shifted);
        let ghost keys = stats@.map_values(|p: (i64, MemStat)| p.0);
        proof {
            lemma_sites_in_order_take_succ(orig, i as int);
            lemma_site_usage_take_succ(orig, i as int, r.stack_id as int);
            lemma_site_usage_bounds(orig.take(i as int), r.stack_id as int);
            lemma_sum_sizes_take_succ(orig, i as int);
            lemma_sum_sizes_take_le(orig, i as int + 1);
            lemma_sum_sizes_nonneg(orig.take(i as int));
            lemma_sites_in_order_contains(orig.take(i as int), r.stack_id);
            lemma_sites_in_order_distinct(orig.take(i as int));
            // The record list that feeds a site's statistics grows only at
            // this record's own site; other sites keep their value.
            assert forall|c: int| c != r.stack_id as int implies #[trigger] site_usage(
                orig.take(i as int + 1),
                c,
            ) == site_usage(orig.take(i as int), c) by {
                lemma_site_usage_take_succ(orig, i as int, c);
            }
        }
        match find_site(&stats, r.stack_id) {
            None => {
                proof {
                    // No entry for the site means no earlier record of it.
                    assert(!sites_in_order(orig.take(i as int)).contains(r.stack_id)) by {
                        if sites_in_order(orig.take(i as int)).contains(r.stack_id) {
                            let j = choose|j: int|
                                0 <= j < keys.len() && keys[j] == r.stack_id;
                            assert(stats@[j].0 == r.stack_id);
                        }
                    }
                    // The site's statistics over the prefix are still zero.
                    lemma_site_usage_absent(orig.take(i as int), r.stack_id);
                }
                let m = fresh_stat(&r);
                let ghost before = stats@;
                stats.push((r.stack_id, m));
                proof {
                    assert(stats@.map_values(|p: (i64, MemStat)| p.0) =~= keys.push(r.stack_id));
                    assert forall|j: int| 0 <= j < stats@.len() implies stat_matches(
                        (#[trigger] stats@[j]).1,
                        site_usage(orig.take(i as int + 1), stats@[j].0 as int),
                    ) by {
                        if j < before.len() {
                            assert(stats@[j] == before[j]);
                            assert(stats@[j].0 != r.stack_id);
                            assert(site_usage(orig.take(i as int + 1), stats@[j].0 as int)
                                == site_usage(orig.take(i as int), stats@[j].0 as int));
                        } else {
                            assert(stats@[j] == (r.stack_id, m));
                            assert(site_usage(orig.take(i as int), r.stack_id as int)
                                == zero_usage());
                        }
                    }
                }
            },
            Some(j) => {
                proof {
                    assert(sites_in_order(orig.take(i as int)).contains(r.stack_id)) by {
                        assert(keys[j as int] == r.stack_id);
                    }
                }
                let current = stats[j];
                let m = updated_stat(
                    &current.1,
                    &r,
                    Ghost(site_usage(orig.take(i as int), r.stack_id as int)),
                );
                let ghost before = stats@;
                stats.set(j, (r.stack_id, m));
                proof {
                    assert(stats@.map_values(|p: (i64, MemStat)| p.0) =~= keys);
                    assert forall|j2: int| 0 <= j2 < stats@.len() implies stat_matches(
                        (#[trigger] stats@[j2]).1,
                        site_usage(orig.take(i as int + 1), stats@[j2].0 as int),
                    ) by {
                        if j2 == j as int {
                            assert(stats@[j2] == (r.stack_id, m));
                        } else {
                            assert(stats@[j2] == before[j2]);
                            assert(keys[j2] != keys[j as int]);
                            assert(stats@[j2].0 != r.stack_id);
                            assert(site_usage(orig.take(i as int + 1), stats@[j2].0 as int)
                                == site_usage(orig.take(i as int), stats@[j2].0 as int));
                        }
                    }
                }
            },
        }
        i = i + 1;
    }
    proof {
        assert(orig.take(orig.len() as int) =~= orig);
    }
    stats
}

/// A site with no record yet has the zero statistics.
proof fn lemma_site_usage_absent(s: Seq<AllocInfo>, site: i64)
    requires
        !sites_in_order(s).contains(site),
    ensures
        site_usage(s, site as int) == zero_usage(),
    decreases s.len(),
{
    if s.len() > 0 {
        lemma_sites_in_order_step(s);
        assert(!sites_in_order(s.drop_last()).contains(site));
        assert(s.last().stack_id != site);
        lemma_site_usage_absent(s.drop_last(), site);
    }
}

/// The statistics entry a site starts with: the zero statistics with its
/// first record applied.
fn fresh_stat(r: &AllocInfo) -> (m: MemStat)
    requires
        r.size <= i64::MAX,
    ensures
        stat_matches(m, apply_record(zero_usage(), *r)),
{
    match r.alloc_direction {
        AllocDirection::Alloc => MemStat {
            total_allocated: r.size,
            total_freed: 0,
            current_usage: r.size as i64,
            peak_usage: r.size,
            alloc_count: 1,
            free_count: 0,
        },
        AllocDirection::Free => MemStat {
            total_allocated: 0,
            total_freed: r.size,
            current_usage: -(r.size as i64),
            peak_usage: 0,
            alloc_count: 0,
            free_count: 1,
        },
    }
}

/// One record folded into an existing statistics entry.
fn updated_stat(m: &MemStat, r: &AllocInfo, Ghost(u): Ghost<SiteUsage>) -> (out: MemStat)
    requires
        stat_matches(*m, u),
        u.total_allocated + u.total_freed + r.size <= i64::MAX,
        u.alloc_count + u.free_count + 1 <= u32::MAX,
        -u.total_freed <= u.current_usage <= u.total_allocated,
        0 <= u.peak_usage <= u.total_allocated,
    ensures
        stat_matches(out, apply_record(u, *r)),
{
    let mut out = match r.alloc_direction {
        AllocDirection::Alloc => MemStat {
            total_allocated: m.total_allocated + r.size,
            total_freed: m.total_freed,
            current_usage: m.current_usage + r.size as i64,
            peak_usage: m.peak_usage,
            alloc_count: m.alloc_count + 1,
            free_count: m.free_count,
        },
        AllocDirection::Free => MemStat {
            total_allocated: m.total_allocated,
            total_freed: m.total_freed + r.size,
            current_usage: m.current_usage - r.size as i64,
            peak_usage: m.peak_usage,
            alloc_count: m.alloc_count,
            free_count: m.free_count + 1,
        },
    };
    if out.current_usage > out.peak_usage as i64 {
        out.peak_usage = out.current_usage as u64;
    }
    out
}

} // verus!
