//! The function-pointer table: a registry mapping each hot-patchable
//! identity to its currently active function pointer and the pointer that was
//! active before the most recent patch touched that entry.
//!
//! Identities are stable, process-unique keys that survive a rebuild; function
//! pointers are opaque addresses that change on every patch. The table is the
//! single point of indirection: a wrapped system resolves its identity here on
//! every invocation.

use vstd::prelude::*;

verus! {

/// One entry of the function-pointer table.
///
/// `current` is mutated only inside the synchronous patch-apply step; `last`
/// retains the pre-patch value, so a failed or partial patch can be told from
/// a successful one by comparing the two.
#[derive(Clone, Copy, Debug)]
pub struct TableEntry {
    /// Stable identity of the hot-patchable system this entry belongs to.
    pub identity: u64,
    /// The currently active function pointer.
    pub current: u64,
    /// The function pointer that was active before the last patch that
    /// touched this entry; equal to `current` until a patch first lands.
    pub last: u64,
}

/// A jump table delivered by the external patch channel: for each affected
/// identity, the newly compiled function pointer.
pub struct JumpTable {
    targets: Vec<(u64, u64)>,
}

impl JumpTable {
    /// The mapping this jump table denotes: affected identity to new pointer.
    pub closed spec fn view(self) -> Map<u64, u64> {
        Map::new(
            |id: u64| exists|i: int| 0 <= i < self.targets@.len() && (#[trigger] self.targets@[i]).0 == id,
            |id: u64| {
                let i = choose|i: int| 0 <= i < self.targets@.len() && (#[trigger] self.targets@[i]).0 == id;
                self.targets@[i].1
            },
        )
    }

    /// Identities are listed at most once.
    pub closed spec fn wf(self) -> bool {
        forall|i: int, j: int|
            0 <= i < j < self.targets@.len() ==> (#[trigger] self.targets@[i]).0 != (#[trigger] self.targets@[j]).0
    }

    /// An empty jump table: no identity is affected.
    pub fn new() -> (t: JumpTable)
        ensures
            t.wf(),
            t@ == Map::<u64, u64>::empty(),
    {
        let t = JumpTable { targets: Vec::new() };
        proof {
            assert(t@ =~= Map::<u64, u64>::empty());
        }
        t
    }

    /// Record that `identity` now maps to `new_ptr`. A repeated identity is
    /// ignored: the first recorded target wins.
    pub fn add(&mut self, identity: u64, new_ptr: u64)
        requires
            old(self).wf(),
        ensures
            final(self).wf(),
            final(self)@ == if old(self)@.contains_key(identity) {
                old(self)@
            } else {
                old(self)@.insert(identity, new_ptr)
            },
    {
        if self.lookup(identity).is_none() {
            let ghost pre = self.targets@;
            self.targets.push((identity, new_ptr));
            proof {
                assert forall|i: int| 0 <= i < pre.len() implies (#[trigger] self.targets@[i]) == pre[i] by {}
                assert(self.targets@[pre.len() as int] == (identity, new_ptr));
                assert(self.wf());
                lemma_jump_view(*self);
                assert(self@ =~= old(self)@.insert(identity, new_ptr)) by {
                    assert forall|id: u64| #[trigger] old(self)@.contains_key(id) implies self@.contains_key(id)
                        && self@[id] == old(self)@[id] by {
                        let i = choose|i: int| 0 <= i < pre.len() && (#[trigger] pre[i]).0 == id;
                        assert(self.targets@[i].0 == id);
                        lemma_jump_at(*self, i);
                        lemma_jump_at(*old(self), i);
                    }
                    assert(self.targets@[pre.len() as int].0 == identity);
                    lemma_jump_at(*self, pre.len() as int);
                }
            }
        }
    }

    /// The new pointer for `identity`, if this jump table affects it.
    pub fn lookup(&self, identity: u64) -> (r: Option<u64>)
        requires
            self.wf(),
        ensures
            r == if self@.contains_key(identity) {
                Some(self@[identity])
            } else {
                None::<u64>
            },
    {
        let n = self.targets.len();
        let mut k: usize = 0;
        while k < n
            invariant
                self.wf(),
                n == self.targets@.len(),
                k <= n,
                forall|i: int| 0 <= i < k ==> (#[trigger] self.targets@[i]).0 != identity,
            decreases n - k,
        {
            if self.targets[k].0 == identity {
                proof {
                    lemma_jump_at(*self, k as int);
                }
                return Some(self.targets[k].1);
            }
            k += 1;
        }
        proof {
            assert(!self@.contains_key(identity));
        }
        None
    }
}

/// With identities unique, the jump-table view at the identity of slot `i` is
/// exactly slot `i`'s target.
proof fn lemma_jump_at(t: JumpTable, i: int)
    requires
        t.wf(),
        0 <= i < t.targets@.len(),
    ensures
        t@.contains_key(t.targets@[i].0),
        t@[t.targets@[i].0] == t.targets@[i].1,
{
    let id = t.targets@[i].0;
    assert(exists|k: int| 0 <= k < t.targets@.len() && (#[trigger] t.targets@[k]).0 == id);
    let k = choose|k: int| 0 <= k < t.targets@.len() && (#[trigger] t.targets@[k]).0 == id;
    assert(k == i);
}

/// Helper for reasoning about the view after a push.
proof fn lemma_jump_view(t: JumpTable)
    requires
        t.wf(),
    ensures
        forall|id: u64| t@.contains_key(id) ==> exists|i: int|
            0 <= i < t.targets@.len() && (#[trigger] t.targets@[i]).0 == id,
{
}

/// What a patch does to the table, as a mapping: every identity the jump
/// table affects gets the new pointer as `current` and keeps the old
/// `current` as `last`; every other identity is left untouched. No identity
/// is added or removed by a patch.
pub open spec fn spec_update(m: Map<u64, (u64, u64)>, jump: Map<u64, u64>) -> Map<u64, (u64, u64)> {
    Map::new(
        |id: u64| m.contains_key(id),
        |id: u64| if jump.contains_key(id) {
            (jump[id], m[id].0)
        } else {
            m[id]
        },
    )
}

/// The process-wide function-pointer table: one entry per hot-patchable
/// identity, created at wrap time and mutated only by patch application.
pub struct FnPtrTable {
    entries: Vec<TableEntry>,
}

impl FnPtrTable {
    /// The mapping this table denotes: identity to (current, last).
    pub closed spec fn view(self) -> Map<u64, (u64, u64)> {
        Map::new(
            |id: u64| exists|i: int| 0 <= i < self.entries@.len() && (#[trigger] self.entries@[i]).identity == id,
            |id: u64| {
                let i = choose|i: int| 0 <= i < self.entries@.len() && (#[trigger] self.entries@[i]).identity == id;
                (self.entries@[i].current, self.entries@[i].last)
            },
        )
    }

    /// Identities are registered at most once.
    pub closed spec fn wf(self) -> bool {
        forall|i: int, j: int|
            0 <= i < j < self.entries@.len() ==> (#[trigger] self.entries@[i]).identity != (#[trigger] self.entries@[j]).identity
    }

    /// An empty table: nothing registered yet.
    pub fn new() -> (t: FnPtrTable)
        ensures
            t.wf(),
            t@ == Map::<u64, (u64, u64)>::empty(),
    {
        let t = FnPtrTable { entries: Vec::new() };
        proof {
            assert(t@ =~= Map::<u64, (u64, u64)>::empty());
        }
        t
    }

    /// Register a hot-patchable identity with the pointer its body was
    /// compiled to. Idempotent: a second registration of the same identity
    /// changes nothing. Until a patch lands, `last` equals `current`.
    pub fn register(&mut self, identity: u64, initial_ptr: u64)
        requires
            old(self).wf(),
        ensures
            final(self).wf(),
            final(self)@ == if old(self)@.contains_key(identity) {
                old(self)@
            } else {
                old(self)@.insert(identity, (initial_ptr, initial_ptr))
            },
    {
        if self.resolve(identity).is_none() {
            let ghost pre = self.entries@;
            self.entries.push(TableEntry { identity, current: initial_ptr, last: initial_ptr });
            proof {
                assert(self.wf());
                assert(self@ =~= old(self)@.insert(identity, (initial_ptr, initial_ptr))) by {
                    assert forall|id: u64| #[trigger] old(self)@.contains_key(id) implies self@.contains_key(id)
                        && self@[id] == old(self)@[id] by {
                        let i = choose|i: int| 0 <= i < pre.len() && (#[trigger] pre[i]).identity == id;
                        assert(self.entries@[i].identity == id);
                        lemma_table_at(*self, i);
                        lemma_table_at(*old(self), i);
                    }
                    assert(self.entries@[pre.len() as int].identity == identity);
                    lemma_table_at(*self, pre.len() as int);
                }
            }
        }
    }

    /// The current pointer for `identity`, or `None` if it was never
    /// registered. This is the hot execution path: a plain table lookup.
    pub fn resolve(&self, identity: u64) -> (r: Option<u64>)
        requires
            self.wf(),
        ensures
            r == if self@.contains_key(identity) {
                Some(self@[identity].0)
            } else {
                None::<u64>
            },
    {
        let n = self.entries.len();
        let mut k: usize = 0;
        while k < n
            invariant
                self.wf(),
                n == self.entries@.len(),
                k <= n,
                forall|i: int| 0 <= i < k ==> (#[trigger] self.entries@[i]).identity != identity,
            decreases n - k,
        {
            if self.entries[k].identity == identity {
                proof {
                    lemma_table_at(*self, k as int);
                }
                return Some(self.entries[k].current);
            }
            k += 1;
        }
        None
    }

    /// The pointer that was active before the last patch that touched
    /// `identity`, or `None` if it was never registered.
    pub fn resolve_last(&self, identity: u64) -> (r: Option<u64>)
        requires
            self.wf(),
        ensures
            r == if self@.contains_key(identity) {
                Some(self@[identity].1)
            } else {
                None::<u64>
            },
    {
        let n = self.entries.len();
        let mut k: usize = 0;
        while k < n
            invariant
                self.wf(),
                n == self.entries@.len(),
                k <= n,
                forall|i: int| 0 <= i < k ==> (#[trigger] self.entries@[i]).identity != identity,
            decreases n - k,
        {
            if self.entries[k].identity == identity {
                proof {
                    lemma_table_at(*self, k as int);
                }
                return Some(self.entries[k].last);
            }
            k += 1;
        }
        None
    }

    /// Apply a jump table: for every registered identity the jump table
    /// affects, move the prior `current` into `last` and install the new
    /// pointer as `current`. Identities not named by the jump table are left
    /// untouched; identities the jump table names but that were never
    /// registered are ignored. Runs synchronously at patch-apply time, before
    /// the patched event is ever observable.
    pub fn update(&mut self, jump: &JumpTable)
        requires
            old(self).wf(),
            jump.wf(),
        ensures
            final(self).wf(),
            final(self)@ == spec_update(old(self)@, jump@),
    {
        let n = self.entries.len();
        let mut k: usize = 0;
        while k < n
            invariant
                jump.wf(),
                n == self.entries@.len(),
                k <= n,
                forall|i: int| 0 <= i < n ==>
                    (#[trigger] self.entries@[i]).identity == old(self).entries@[i].identity,
                forall|i: int| k <= i < n ==> #[trigger] self.entries@[i] == old(self).entries@[i],
                forall|i: int| 0 <= i < k ==>
                    #[trigger] self.entries@[i] == spec_patched_entry(old(self).entries@[i], jump@),
            decreases n - k,
        {
            let e = self.entries[k];
            if let Some(p) = jump.lookup(e.identity) {
                self.entries[k] = TableEntry { identity: e.identity, current: p, last: e.current };
            }
            k += 1;
        }
        proof {
            assert(old(self).wf());
            assert(self.wf());
            assert(self@ =~= spec_update(old(self)@, jump@)) by {
                assert forall|id: u64| #[trigger] old(self)@.contains_key(id) implies self@.contains_key(id)
                    && self@[id] == spec_update(old(self)@, jump@)[id] by {
                    let i = choose|i: int|
                        0 <= i < old(self).entries@.len() && (#[trigger] old(self).entries@[i]).identity == id;
                    assert(self.entries@[i].identity == id);
                    lemma_table_at(*self, i);
                    lemma_table_at(*old(self), i);
                }
                assert forall|id: u64| #[trigger] self@.contains_key(id) implies old(self)@.contains_key(id) by {
                    let i = choose|i: int|
                        0 <= i < self.entries@.len() && (#[trigger] self.entries@[i]).identity == id;
                    assert(old(self).entries@[i].identity == id);
                    lemma_table_at(*old(self), i);
                }
            }
        }
    }
}

/// What a patch does to a single entry.
pub open spec fn spec_patched_entry(e: TableEntry, jump: Map<u64, u64>) -> TableEntry {
    if jump.contains_key(e.identity) {
        TableEntry { identity: e.identity, current: jump[e.identity], last: e.current }
    } else {
        e
    }
}

/// With identities unique, the table's view at the identity of slot `i` is
/// exactly slot `i`'s pointer pair.
proof fn lemma_table_at(t: FnPtrTable, i: int)
    requires
        t.wf(),
        0 <= i < t.entries@.len(),
    ensures
        t@.contains_key(t.entries@[i].identity),
        t@[t.entries@[i].identity] == (t.entries@[i].current, t.entries@[i].last),
{
    let id = t.entries@[i].identity;
    assert(exists|k: int| 0 <= k < t.entries@.len() && (#[trigger] t.entries@[k]).identity == id);
    let k = choose|k: int| 0 <= k < t.entries@.len() && (#[trigger] t.entries@[k]).identity == id;
    assert(k == i);
}

/// Identity stability, at the level of the table mapping: whatever patches
/// have landed, resolving an identity yields exactly the pointer the latest
/// patch installed for it. Updating with `j1` and then invoking observes
/// `j1`'s pointer; updating again with `j2` and invoking observes `j2`'s.
pub proof fn lemma_identity_stability(
    m: Map<u64, (u64, u64)>,
    j1: Map<u64, u64>,
    j2: Map<u64, u64>,
    id: u64,
)
    requires
        m.contains_key(id),
        j1.contains_key(id),
        j2.contains_key(id),
    ensures
        spec_update(m, j1)[id].0 == j1[id],
        spec_update(spec_update(m, j1), j2)[id].0 == j2[id],
        spec_update(spec_update(m, j1), j2)[id].1 == j1[id],
{
}

/// Identities untouched by a patch keep both pointers.
pub proof fn lemma_update_untouched(m: Map<u64, (u64, u64)>, jump: Map<u64, u64>, id: u64)
    requires
        m.contains_key(id),
        !jump.contains_key(id),
    ensures
        spec_update(m, jump)[id] == m[id],
{
}

} // verus!
