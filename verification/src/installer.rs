//! The indirection installer.
//!
//! At startup, after all user registration and before the first tick, every
//! system registered with the host scheduler is replaced by a wrapped unit
//! whose execution body is exactly "resolve my identity in the function-pointer
//! table and invoke the current pointer". The schedule graph the scheduler
//! sees is unchanged: same schedules, same systems, same order; only the
//! indirection is added.
//!
//! Ownership discipline: every original system body is moved into an arena and
//! owned there alone; a wrapped unit holds a non-owning arena index, never a
//! second owning handle. Distinct wrapped units hold distinct indices, so no
//! body can ever be released twice.

use vstd::prelude::*;
use crate::table::FnPtrTable;

verus! {

/// An original unit of logic as the user registered it: a stable identity and
/// the pointer to the body it was compiled with.
#[derive(Clone, Copy, Debug, PartialEq, Eq, Structural)]
pub struct SystemBody {
    /// Stable, process-unique identity of this system.
    pub identity: u64,
    /// The compiled body the system was registered with.
    pub entry_ptr: u64,
}

/// One schedule of the host scheduler: an ordered list of systems under a
/// label.
#[derive(Debug)]
pub struct Schedule {
    /// The schedule's label within the scheduler.
    pub label: u64,
    /// The systems of this schedule, in their scheduled order.
    pub systems: Vec<SystemBody>,
}

/// A wrapped unit: invoking it resolves `identity` in the function-pointer
/// table and calls whatever body is current. It holds a non-owning index into
/// the arena where its original body lives; it never owns the body itself.
#[derive(Clone, Copy, Debug, PartialEq, Eq, Structural)]
pub struct WrappedSystem {
    /// The identity the wrapper resolves on every invocation.
    pub identity: u64,
    /// The arena slot of the original body; non-owning.
    pub arena_index: usize,
}

/// A schedule rebuilt from wrapped units: same label, same order, same
/// membership as the schedule it replaces.
#[derive(Debug)]
pub struct WrappedSchedule {
    /// The label of the schedule this one replaces.
    pub label: u64,
    /// The wrapped systems, in the original order.
    pub systems: Vec<WrappedSystem>,
}

/// The arena that owns every original system body after installation. The
/// single owner: wrapped schedules refer into it by index and the scheduler
/// never holds a second owning handle to any body.
#[derive(Debug)]
pub struct Arena {
    bodies: Vec<SystemBody>,
}

impl Arena {
    /// The bodies this arena owns, in adoption order.
    pub closed spec fn view(self) -> Seq<SystemBody> {
        self.bodies@
    }

    /// An empty arena.
    pub fn new() -> (a: Arena)
        ensures
            a@ == Seq::<SystemBody>::empty(),
    {
        Arena { bodies: Vec::new() }
    }

    /// Take sole ownership of a body; the returned index is the only handle.
    pub fn adopt(&mut self, body: SystemBody) -> (idx: usize)
        ensures
            final(self)@ == old(self)@.push(body),
            idx == old(self)@.len(),
    {
        let idx = self.bodies.len();
        self.bodies.push(body);
        idx
    }

    /// How many bodies the arena owns.
    pub fn len(&self) -> (n: usize)
        ensures
            n == self@.len(),
    {
        self.bodies.len()
    }

    /// Read a body without taking it out.
    pub fn body_at(&self, idx: usize) -> (b: &SystemBody)
        requires
            idx < self@.len(),
        ensures
            *b == self@[idx as int],
    {
        &self.bodies[idx]
    }
}

/// Whether some system identity before the limit position (in schedule order,
/// then system order) equals `id`.
pub open spec fn id_in_prefix(schedules: Seq<Schedule>, s_lim: int, i_lim: int, id: u64) -> bool {
    exists|s: int, i: int|
        0 <= s < schedules.len() && 0 <= i < schedules[s].systems@.len() && (s < s_lim || (s == s_lim
            && i < i_lim)) && (#[trigger] schedules[s].systems@[i]).identity == id
}

/// Identities are process-unique across the whole schedule set: no system's
/// identity already occurs before it.
pub open spec fn identities_unique(schedules: Seq<Schedule>) -> bool {
    forall|s: int, i: int|
        0 <= s < schedules.len() && 0 <= i < schedules[s].systems@.len() ==> !id_in_prefix(
            schedules,
            s,
            i,
            (#[trigger] schedules[s].systems@[i]).identity,
        )
}

/// Whether `id` occurs among the systems before the limit position.
fn prefix_contains(schedules: &Vec<Schedule>, s_lim: usize, i_lim: usize, id: u64) -> (r: bool)
    requires
        s_lim < schedules@.len(),
        i_lim <= schedules@[s_lim as int].systems@.len(),
    ensures
        r == id_in_prefix(schedules@, s_lim as int, i_lim as int, id),
{
    let ns = schedules.len();
    let mut s: usize = 0;
    while s <= s_lim
        invariant
            ns == schedules@.len(),
            s_lim < ns,
            i_lim <= schedules@[s_lim as int].systems@.len(),
            s <= s_lim + 1,
            forall|s2: int, i2: int|
                0 <= s2 < s && 0 <= i2 < schedules@[s2].systems@.len() && (s2 < s_lim || (s2 == s_lim
                    && i2 < i_lim)) ==> (#[trigger] schedules@[s2].systems@[i2]).identity != id,
        decreases s_lim + 1 - s,
    {
        let row_end = if s == s_lim {
            i_lim
        } else {
            schedules[s].systems.len()
        };
        let mut i: usize = 0;
        while i < row_end
            invariant
                s_lim < schedules@.len(),
                i_lim <= schedules@[s_lim as int].systems@.len(),
                s <= s_lim,
                row_end == if s == s_lim { i_lim as int } else { schedules@[s as int].systems@.len() as int },
                i <= row_end,
                forall|s2: int, i2: int|
                    0 <= s2 < s && 0 <= i2 < schedules@[s2].systems@.len() && (s2 < s_lim || (s2
                        == s_lim && i2 < i_lim)) ==> (#[trigger] schedules@[s2].systems@[i2]).identity
                        != id,
                forall|i2: int| 0 <= i2 < i ==> (#[trigger] schedules@[s as int].systems@[i2]).identity
                    != id,
            decreases row_end - i,
        {
            if schedules[s].systems[i].identity == id {
                return true;
            }
            i += 1;
        }
        s += 1;
    }
    false
}

/// Scan the schedule set for a repeated identity. Returns an identity that
/// occurs twice, if any does.
pub fn find_duplicate_identity(schedules: &Vec<Schedule>) -> (r: Option<u64>)
    ensures
        r is None <==> identities_unique(schedules@),
        r is Some ==> exists|s: int, i: int|
            0 <= s < schedules@.len() && 0 <= i < schedules@[s].systems@.len()
                && (#[trigger] schedules@[s].systems@[i]).identity == r->Some_0 && id_in_prefix(
                schedules@,
                s,
                i,
                r->Some_0,
            ),
{
    let ns = schedules.len();
    let mut s: usize = 0;
    while s < ns
        invariant
            ns == schedules@.len(),
            s <= ns,
            forall|s2: int, i2: int|
                0 <= s2 < s && 0 <= i2 < schedules@[s2].systems@.len() ==> !id_in_prefix(
                    schedules@,
                    s2,
                    i2,
                    (#[trigger] schedules@[s2].systems@[i2]).identity,
                ),
        decreases ns - s,
    {
        let ni = schedules[s].systems.len();
        let mut i: usize = 0;
        while i < ni
            invariant
                ns == schedules@.len(),
                s < ns,
                ni == schedules@[s as int].systems@.len(),
                i <= ni,
                forall|s2: int, i2: int|
                    0 <= s2 < s && 0 <= i2 < schedules@[s2].systems@.len() ==> !id_in_prefix(
                        schedules@,
                        s2,
                        i2,
                        (#[trigger] schedules@[s2].systems@[i2]).identity,
                    ),
                forall|i2: int| 0 <= i2 < i ==> !id_in_prefix(
                    schedules@,
                    s as int,
                    i2,
                    (#[trigger] schedules@[s as int].systems@[i2]).identity,
                ),
            decreases ni - i,
        {
            let id = schedules[s].systems[i].identity;
            if prefix_contains(schedules, s, i, id) {
                return Some(id);
            }
            i += 1;
        }
        s += 1;
    }
    None
}

/// The number of systems in the first `s` schedules: the arena slot where
/// schedule `s`'s first body lands.
pub open spec fn flat_len(schedules: Seq<Schedule>, s: int) -> int
    decreases s,
{
    if s <= 0 {
        0
    } else {
        flat_len(schedules, s - 1) + schedules[s - 1].systems@.len()
    }
}

/// Prefix lengths grow monotonically with the schedule index.
pub proof fn lemma_flat_len_monotone(schedules: Seq<Schedule>, a: int, b: int)
    requires
        0 <= a <= b,
    ensures
        flat_len(schedules, a) <= flat_len(schedules, b),
    decreases b - a,
{
    if a < b {
        lemma_flat_len_monotone(schedules, a, b - 1);
    }
}

/// The whole-set contract of installation, shared by the installer's ensures
/// and the ownership lemma: same graph shape, one arena slot per system at
/// the flattened position, the original body in that slot.
pub open spec fn installed(schedules: Seq<Schedule>, wrapped: Seq<WrappedSchedule>, arena: Seq<SystemBody>) -> bool {
    &&& wrapped.len() == schedules.len()
    &&& forall|s: int| 0 <= s < schedules.len() ==> (#[trigger] wrapped[s]).label == schedules[s].label
    &&& forall|s: int| 0 <= s < schedules.len() ==> (#[trigger] wrapped[s]).systems@.len()
        == schedules[s].systems@.len()
    &&& forall|s: int, i: int|
        0 <= s < schedules.len() && 0 <= i < schedules[s].systems@.len() ==> {
            &&& (#[trigger] wrapped[s].systems@[i]).identity == schedules[s].systems@[i].identity
            &&& wrapped[s].systems@[i].arena_index == flat_len(schedules, s) + i
        }
    &&& arena.len() == flat_len(schedules, schedules.len() as int)
    &&& forall|s: int, i: int|
        0 <= s < schedules.len() && 0 <= i < schedules[s].systems@.len() ==> arena[flat_len(
            schedules,
            s,
        ) + i] == (#[trigger] schedules[s].systems@[i])
}

/// Rewrite the whole schedule set for hot patching. Each system's body is
/// moved into the arena, its identity is registered in the function-pointer
/// table with the pointer it was compiled with, and a wrapped unit carrying
/// identity and arena index takes its place. The schedule set keeps its
/// shape: same labels, same system order, same membership.
///
/// Runs exactly once, at startup, on a fresh table and a fresh arena, after a
/// repeated identity has been ruled out (a repeated identity is a fatal
/// configuration error; see `find_duplicate_identity`).
pub fn install(schedules: &Vec<Schedule>, table: &mut FnPtrTable, arena: &mut Arena) -> (wrapped: Vec<WrappedSchedule>)
    requires
        identities_unique(schedules@),
        old(table).wf(),
        old(table)@ == Map::<u64, (u64, u64)>::empty(),
        old(arena)@ == Seq::<SystemBody>::empty(),
    ensures
        final(table).wf(),
        installed(schedules@, wrapped@, final(arena)@),
        forall|s: int, i: int|
            0 <= s < schedules@.len() && 0 <= i < schedules@[s].systems@.len() ==> {
                &&& final(table)@.contains_key((#[trigger] schedules@[s].systems@[i]).identity)
                &&& final(table)@[schedules@[s].systems@[i].identity] == (
                    schedules@[s].systems@[i].entry_ptr,
                    schedules@[s].systems@[i].entry_ptr,
                )
            },
        forall|id: u64| final(table)@.contains_key(id) ==> id_in_prefix(
            schedules@,
            schedules@.len() as int,
            0,
            id,
        ),
{
    let ns = schedules.len();
    let mut wrapped: Vec<WrappedSchedule> = Vec::new();
    let mut s: usize = 0;
    while s < ns
        invariant
            identities_unique(schedules@),
            ns == schedules@.len(),
            s <= ns,
            table.wf(),
            arena@.len() == flat_len(schedules@, s as int),
            wrapped@.len() == s,
            forall|s2: int| 0 <= s2 < s ==> (#[trigger] wrapped@[s2]).label == schedules@[s2].label,
            forall|s2: int| 0 <= s2 < s ==> (#[trigger] wrapped@[s2]).systems@.len()
                == schedules@[s2].systems@.len(),
            forall|s2: int, i2: int|
                0 <= s2 < s && 0 <= i2 < schedules@[s2].systems@.len() ==> {
                    &&& (#[trigger] wrapped@[s2].systems@[i2]).identity == schedules@[s2].systems@[i2].identity
                    &&& wrapped@[s2].systems@[i2].arena_index == flat_len(schedules@, s2) + i2
                },
            forall|s2: int, i2: int|
                0 <= s2 < s && 0 <= i2 < schedules@[s2].systems@.len() ==> arena@[flat_len(
                    schedules@,
                    s2,
                ) + i2] == (#[trigger] schedules@[s2].systems@[i2]),
            forall|s2: int, i2: int|
                0 <= s2 < s && 0 <= i2 < schedules@[s2].systems@.len() ==> {
                    &&& table@.contains_key((#[trigger] schedules@[s2].systems@[i2]).identity)
                    &&& table@[schedules@[s2].systems@[i2].identity] == (
                        schedules@[s2].systems@[i2].entry_ptr,
                        schedules@[s2].systems@[i2].entry_ptr,
                    )
                },
            forall|id: u64| table@.contains_key(id) ==> id_in_prefix(schedules@, s as int, 0, id),
        decreases ns - s,
    {
        let ni = schedules[s].systems.len();
        let mut row: Vec<WrappedSystem> = Vec::new();
        let mut i: usize = 0;
        while i < ni
            invariant
                identities_unique(schedules@),
                ns == schedules@.len(),
                s < ns,
                ni == schedules@[s as int].systems@.len(),
                i <= ni,
                table.wf(),
                arena@.len() == flat_len(schedules@, s as int) + i,
                row@.len() == i,
                forall|i2: int| 0 <= i2 < i ==> {
                    &&& (#[trigger] row@[i2]).identity == schedules@[s as int].systems@[i2].identity
                    &&& row@[i2].arena_index == flat_len(schedules@, s as int) + i2
                },
                forall|s2: int, i2: int|
                    0 <= s2 < s && 0 <= i2 < schedules@[s2].systems@.len() ==> arena@[flat_len(
                        schedules@,
                        s2,
                    ) + i2] == (#[trigger] schedules@[s2].systems@[i2]),
                forall|i2: int| 0 <= i2 < i ==> arena@[flat_len(schedules@, s as int) + i2] == (
                #[trigger] schedules@[s as int].systems@[i2]),
                forall|s2: int, i2: int|
                    0 <= s2 < s && 0 <= i2 < schedules@[s2].systems@.len() ==> {
                        &&& table@.contains_key((#[trigger] schedules@[s2].systems@[i2]).identity)
                        &&& table@[schedules@[s2].systems@[i2].identity] == (
                            schedules@[s2].systems@[i2].entry_ptr,
                            schedules@[s2].systems@[i2].entry_ptr,
                        )
                    },
                forall|i2: int| 0 <= i2 < i ==> {
                    &&& table@.contains_key((#[trigger] schedules@[s as int].systems@[i2]).identity)
                    &&& table@[schedules@[s as int].systems@[i2].identity] == (
                        schedules@[s as int].systems@[i2].entry_ptr,
                        schedules@[s as int].systems@[i2].entry_ptr,
                    )
                },
                forall|id: u64| table@.contains_key(id) ==> id_in_prefix(schedules@, s as int, i as int, id),
            decreases ni - i,
        {
            let body = schedules[s].systems[i];
            proof {
                // this system's identity was not registered yet: it does not
                // occur before position (s, i)
                assert(!id_in_prefix(schedules@, s as int, i as int, body.identity));
            }
            let idx = arena.adopt(body);
            table.register(body.identity, body.entry_ptr);
            row.push(WrappedSystem { identity: body.identity, arena_index: idx });
            proof {
                lemma_flat_len_monotone(schedules@, 0, s as int);
                assert forall|s2: int| 0 <= s2 < s implies (#[trigger] flat_len(schedules@, s2)) >= 0
                    && flat_len(schedules@, s2) + schedules@[s2].systems@.len() <= flat_len(
                    schedules@,
                    s as int,
                ) by {
                    lemma_flat_len_monotone(schedules@, 0, s2);
                    assert(flat_len(schedules@, s2 + 1) == flat_len(schedules@, s2)
                        + schedules@[s2].systems@.len());
                    lemma_flat_len_monotone(schedules@, s2 + 1, s as int);
                }
                assert forall|id: u64| table@.contains_key(id) implies id_in_prefix(
                    schedules@,
                    s as int,
                    i + 1,
                    id,
                ) by {
                    if id != body.identity {
                        assert(old(table)@.insert(body.identity, (body.entry_ptr, body.entry_ptr)) == table@
                            || id_in_prefix(schedules@, s as int, i as int, id));
                    }
                }
            }
            i += 1;
        }
        wrapped.push(WrappedSchedule { label: schedules[s].label, systems: row });
        proof {
            assert(flat_len(schedules@, s + 1) == flat_len(schedules@, s as int)
                + schedules@[s as int].systems@.len());
            assert forall|id: u64| table@.contains_key(id) implies id_in_prefix(
                schedules@,
                s + 1,
                0,
                id,
            ) by {
                assert(id_in_prefix(schedules@, s as int, ni as int, id));
            }
        }
        s += 1;
    }
    wrapped
}

/// Double-release safety: under the installed relation, distinct wrapped
/// units hold distinct arena indices, each in bounds — every original body
/// has exactly one owner, the arena, and exactly one handle pointing at it.
pub proof fn lemma_single_owner(schedules: Seq<Schedule>, wrapped: Seq<WrappedSchedule>, arena: Seq<SystemBody>)
    requires
        installed(schedules, wrapped, arena),
    ensures
        forall|s: int, i: int|
            0 <= s < wrapped.len() && 0 <= i < wrapped[s].systems@.len() ==> 0 <= (
            #[trigger] wrapped[s].systems@[i]).arena_index < arena.len(),
        forall|s1: int, i1: int, s2: int, i2: int|
            0 <= s1 < wrapped.len() && 0 <= i1 < wrapped[s1].systems@.len() && 0 <= s2
                < wrapped.len() && 0 <= i2 < wrapped[s2].systems@.len() && (s1 != s2 || i1 != i2)
                ==> (#[trigger] wrapped[s1].systems@[i1]).arena_index != (
            #[trigger] wrapped[s2].systems@[i2]).arena_index,
{
    assert forall|s: int, i: int|
        0 <= s < wrapped.len() && 0 <= i < wrapped[s].systems@.len() implies 0 <= (
    #[trigger] wrapped[s].systems@[i]).arena_index < arena.len() by {
        lemma_flat_len_monotone(schedules, s + 1, schedules.len() as int);
    }
    assert forall|s1: int, i1: int, s2: int, i2: int|
        0 <= s1 < wrapped.len() && 0 <= i1 < wrapped[s1].systems@.len() && 0 <= s2 < wrapped.len()
            && 0 <= i2 < wrapped[s2].systems@.len() && (s1 != s2 || i1 != i2) implies (
    #[trigger] wrapped[s1].systems@[i1]).arena_index != (
    #[trigger] wrapped[s2].systems@[i2]).arena_index by {
        if s1 < s2 {
            lemma_flat_len_monotone(schedules, s1 + 1, s2);
        } else if s2 < s1 {
            lemma_flat_len_monotone(schedules, s2 + 1, s1);
        }
    }
}

/// A wrapped unit's execution body: resolve the identity, yielding the
/// currently active pointer — whatever the latest applied patch installed.
/// The inputs and outputs are the original's; only the resolution is added.
pub fn resolve_target(w: &WrappedSystem, table: &FnPtrTable) -> (r: Option<u64>)
    requires
        table.wf(),
    ensures
        r == if table@.contains_key(w.identity) {
            Some(table@[w.identity].0)
        } else {
            None::<u64>
        },
{
    table.resolve(w.identity)
}

} // verus!
