//! Capture-side bookkeeping: per-CPU call-depth counters and active flags,
//! and the call-site registration table.
//!
//! The capture layer keeps one depth counter and one active flag per logical
//! CPU, with no cross-CPU synchronization; every recorded event carries its
//! CPU id instead of relying on a global counter.  Here that state is an
//! array indexed by CPU id, grown on demand, so every operation's effect on
//! its own CPU — and its silence about every other CPU — is stated exactly.

use vstd::prelude::*;

verus! {

/// Per-CPU call-depth counters and active flags.
pub struct DepthTracker {
    depths: Vec<u32>,
    active: Vec<bool>,
}

impl DepthTracker {
    /// The depth counter of a CPU; zero before the CPU is first seen.
    pub closed spec fn depth_of(self, cpu: int) -> int {
        if 0 <= cpu < self.depths@.len() {
            self.depths@[cpu] as int
        } else {
            0
        }
    }

    /// The active flag of a CPU; clear before the CPU is first seen.
    pub closed spec fn active_of(self, cpu: int) -> bool {
        if 0 <= cpu < self.active@.len() {
            self.active@[cpu]
        } else {
            false
        }
    }

    pub fn new() -> (t: DepthTracker)
        ensures
            forall|c: int| #[trigger] t.depth_of(c) == 0,
            forall|c: int| !(#[trigger] t.active_of(c)),
    {
        DepthTracker { depths: Vec::new(), active: Vec::new() }
    }

    /// Raises the depth counter of one CPU by one and hands the new depth
    /// back; every other CPU's state is untouched.  An entry probe calls
    /// this before recording its event.
    pub fn increment_depth(&mut self, cpu: u32) -> (depth: u32)
        requires
            old(self).depth_of(cpu as int) < u32::MAX,
        ensures
            depth as int == final(self).depth_of(cpu as int),
            final(self).depth_of(cpu as int) == old(self).depth_of(cpu as int) + 1,
            forall|c: int| c != cpu as int ==> #[trigger] final(self).depth_of(c) == old(
                self,
            ).depth_of(c),
            forall|c: int| #[trigger] final(self).active_of(c) == old(self).active_of(c),
    {
        self.grow_depths(cpu);
        let ghost mid = *self;
        let idx = cpu as usize;
        let new_depth = self.depths[idx] + 1;
        self.depths.set(idx, new_depth);
        proof {
            assert forall|c: int| c != cpu as int implies #[trigger] self.depth_of(c) == old(
                self,
            ).depth_of(c) by {
                assert(mid.depth_of(c) == old(self).depth_of(c));
            }
            assert forall|c: int| #[trigger] self.active_of(c) == old(self).active_of(c) by {
                assert(mid.active_of(c) == old(self).active_of(c));
            }
        }
        new_depth
    }

    /// Lowers the depth counter of one CPU by one, saturating at zero, and
    /// hands the new depth back; every other CPU's state is untouched.  An
    /// exit probe calls this after recording its event.
    pub fn decrement_depth(&mut self, cpu: u32) -> (depth: u32)
        ensures
            depth as int == final(self).depth_of(cpu as int),
            final(self).depth_of(cpu as int) == if old(self).depth_of(cpu as int) > 0 {
                old(self).depth_of(cpu as int) - 1
            } else {
                0
            },
            forall|c: int| c != cpu as int ==> #[trigger] final(self).depth_of(c) == old(
                self,
            ).depth_of(c),
            forall|c: int| #[trigger] final(self).active_of(c) == old(self).active_of(c),
    {
        self.grow_depths(cpu);
        let ghost mid = *self;
        let idx = cpu as usize;
        let new_depth = self.depths[idx].saturating_sub(1);
        self.depths.set(idx, new_depth);
        proof {
            assert forall|c: int| c != cpu as int implies #[trigger] self.depth_of(c) == old(
                self,
            ).depth_of(c) by {
                assert(mid.depth_of(c) == old(self).depth_of(c));
            }
            assert forall|c: int| #[trigger] self.active_of(c) == old(self).active_of(c) by {
                assert(mid.active_of(c) == old(self).active_of(c));
            }
        }
        new_depth
    }

    /// Sets one CPU's active flag; every other CPU's state is untouched.
    pub fn set_function_active(&mut self, cpu: u32, state: bool)
        ensures
            final(self).active_of(cpu as int) == state,
            forall|c: int| c != cpu as int ==> #[trigger] final(self).active_of(c) == old(
                self,
            ).active_of(c),
            forall|c: int| #[trigger] final(self).depth_of(c) == old(self).depth_of(c),
    {
        let idx = cpu as usize;
        while self.active.len() <= idx
            invariant
                forall|c: int| #[trigger] self.active_of(c) == old(self).active_of(c),
                self.depths == old(self).depths,
            decreases idx + 1 - self.active.len(),
        {
            let ghost before = *self;
            self.active.push(false);
            proof {
                assert forall|c: int| #[trigger] self.active_of(c) == before.active_of(c) by {
                    if c == before.active@.len() {
                        assert(self.active@[c] == false);
                    }
                }
            }
        }
        let ghost mid = *self;
        self.active.set(idx, state);
        proof {
            assert forall|c: int| c != cpu as int implies #[trigger] self.active_of(c) == old(
                self,
            ).active_of(c) by {
                assert(mid.active_of(c) == old(self).active_of(c));
            }
            assert forall|c: int| #[trigger] self.depth_of(c) == old(self).depth_of(c) by {
                assert(mid.depth_of(c) == old(self).depth_of(c));
            }
        }
    }

    /// Whether allocation events on this CPU should be profiled: true
    /// exactly while an instrumented function is active on it.
    pub fn should_profile_stack_id(&self, cpu: u32) -> (active: bool)
        ensures
            active == self.active_of(cpu as int),
    {
        let idx = cpu as usize;
        if idx < self.active.len() {
            self.active[idx]
        } else {
            false
        }
    }

    fn grow_depths(&mut self, cpu: u32)
        ensures
            cpu < final(self).depths@.len(),
            forall|c: int| #[trigger] final(self).depth_of(c) == old(self).depth_of(c),
            forall|c: int| #[trigger] final(self).active_of(c) == old(self).active_of(c),
            final(self).depth_of(cpu as int) == final(self).depths@[cpu as int] as int,
    {
        let idx = cpu as usize;
        while self.depths.len() <= idx
            invariant
                forall|c: int| #[trigger] self.depth_of(c) == old(self).depth_of(c),
                self.active == old(self).active,
            decreases idx + 1 - self.depths.len(),
        {
            let ghost before = *self;
            self.depths.push(0);
            proof {
                assert forall|c: int| #[trigger] self.depth_of(c) == before.depth_of(c) by {
                    if c == before.depths@.len() {
                        assert(self.depths@[c] == 0);
                    }
                }
            }
        }
    }
}

/// The call-site registration table: call-site id to the catalog tag of the
/// function first seen allocating along that call path.
pub struct FunctionRegistry {
    entries: Vec<(i64, u16)>,
}

impl FunctionRegistry {
    /// The tag registered for a call-site id, if any.
    pub closed spec fn registered(self, stack_id: int) -> Option<u16> {
        Self::lookup(self.entries@, stack_id)
    }

    pub open spec fn lookup(entries: Seq<(i64, u16)>, stack_id: int) -> Option<u16>
        decreases entries.len(),
    {
        if entries.len() == 0 {
            None
        } else if entries[0].0 == stack_id {
            Some(entries[0].1)
        } else {
            Self::lookup(entries.drop_first(), stack_id)
        }
    }

    pub fn new() -> (r: FunctionRegistry)
        ensures
            forall|s: int| #[trigger] r.registered(s) is None,
    {
        FunctionRegistry { entries: Vec::new() }
    }

    /// Registers a function tag for a call-site id.  The first registration
    /// of a call-site wins: registering an already known id changes
    /// nothing, and no other id is ever affected.
    pub fn register_function(&mut self, stack_id: i64, function_id: u16)
        ensures
            final(self).registered(stack_id as int) == match old(self).registered(
                stack_id as int,
            ) {
                Some(existing) => Some(existing),
                None => Some(function_id),
            },
            forall|s: int| s != stack_id as int ==> #[trigger] final(self).registered(s) == old(
                self,
            ).registered(s),
    {
        let mut j: usize = 0;
        while j < self.entries.len()
            invariant
                0 <= j <= self.entries@.len(),
                *self == *old(self),
                forall|k: int| 0 <= k < j ==> (#[trigger] self.entries@[k]).0 != stack_id,
            decreases self.entries@.len() - j,
        {
            if self.entries[j].0 == stack_id {
                proof {
                    lemma_lookup_found(self.entries@, j as int);
                }
                return ;
            }
            j = j + 1;
        }
        let ghost before = self.entries@;
        self.entries.push((stack_id, function_id));
        proof {
            assert forall|s: int| true implies #[trigger] FunctionRegistry::lookup(
                self.entries@,
                s,
            ) == if s == stack_id as int && FunctionRegistry::lookup(before, s) is None {
                Some(function_id)
            } else {
                FunctionRegistry::lookup(before, s)
            } by {
                lemma_lookup_push(before, (stack_id, function_id), s);
            }
            lemma_lookup_none(before, stack_id as int);
        }
    }

    /// The tag registered for a call-site id, if any.
    pub fn get(&self, stack_id: i64) -> (found: Option<u16>)
        ensures
            found == self.registered(stack_id as int),
    {
        let mut j: usize = 0;
        while j < self.entries.len()
            invariant
                0 <= j <= self.entries@.len(),
                forall|k: int| 0 <= k < j ==> (#[trigger] self.entries@[k]).0 != stack_id,
        decreases self.entries@.len() - j,
        {
            if self.entries[j].0 == stack_id {
                proof {
                    lemma_lookup_found(self.entries@, j as int);
                }
                return Some(self.entries[j].1);
            }
            j = j + 1;
        }
        proof {
            lemma_lookup_none(self.entries@, stack_id as int);
        }
        None
    }
}

/// A key whose earlier entries all differ from it is looked up at its own
/// position.
proof fn lemma_lookup_found(entries: Seq<(i64, u16)>, j: int)
    requires
        0 <= j < entries.len(),
        forall|k: int| 0 <= k < j ==> (#[trigger] entries[k]).0 != entries[j].0,
    ensures
        FunctionRegistry::lookup(entries, entries[j].0 as int) == Some(entries[j].1),
    decreases j,
{
    if j > 0 {
        assert(entries.drop_first()[j - 1] == entries[j]);
        assert(forall|k: int|
            0 <= k < j - 1 ==> (#[trigger] entries.drop_first()[k]).0 != entries[j].0);
        lemma_lookup_found(entries.drop_first(), j - 1);
    }
}

/// A key held by no entry is not found.
proof fn lemma_lookup_none(entries: Seq<(i64, u16)>, stack_id: int)
    requires
        forall|k: int| 0 <= k < entries.len() ==> (#[trigger] entries[k]).0 != stack_id,
    ensures
        FunctionRegistry::lookup(entries, stack_id) is None,
    decreases entries.len(),
{
    if entries.len() > 0 {
        assert(forall|k: int|
            0 <= k < entries.drop_first().len() ==> (#[trigger] entries.drop_first()[k]).0
                != stack_id);
        lemma_lookup_none(entries.drop_first(), stack_id);
    }
}

/// Appending an entry resolves only lookups of its own key, and only when
/// that key was absent.
proof fn lemma_lookup_push(entries: Seq<(i64, u16)>, e: (i64, u16), s: int)
    ensures
        FunctionRegistry::lookup(entries.push(e), s) == if s == e.0 as int
            && FunctionRegistry::lookup(entries, s) is None {
            Some(e.1)
        } else {
            FunctionRegistry::lookup(entries, s)
        },
    decreases entries.len(),
{
    reveal_with_fuel(FunctionRegistry::lookup, 3);
    if entries.len() == 0 {
        assert(entries.push(e)[0] == e);
        assert(entries.push(e).drop_first() =~= Seq::<(i64, u16)>::empty());
    } else {
        assert(entries.push(e)[0] == entries[0]);
        assert(entries.push(e).drop_first() =~= entries.drop_first().push(e));
        lemma_lookup_push(entries.drop_first(), e, s);
        if entries[0].0 as int == s {
            assert(FunctionRegistry::lookup(entries.push(e), s) == Some(entries[0].1));
            assert(FunctionRegistry::lookup(entries, s) == Some(entries[0].1));
        } else {
            assert(FunctionRegistry::lookup(entries.push(e), s) == FunctionRegistry::lookup(
                entries.drop_first().push(e),
                s,
            ));
            assert(FunctionRegistry::lookup(entries, s) == FunctionRegistry::lookup(
                entries.drop_first(),
                s,
            ));
        }
    }
}

} // verus!
