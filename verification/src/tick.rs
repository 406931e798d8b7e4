//! Tick orchestration: the synchronous patch-apply step on the delivery side,
//! and the two strictly ordered per-tick slots — function-pointer refresh
//! first, component migration second — that run before general application
//! logic each tick.

use vstd::prelude::*;
use crate::migration::{ComponentMigrations, Instance, ShapeCatalog, migration_pass_post};
use crate::notifier::Mailbox;
use crate::table::{FnPtrTable, JumpTable, spec_update};

verus! {

/// The two per-tick slots, in their fixed order within the tick.
#[derive(Clone, Copy, Debug, PartialEq, Eq, Hash, Structural)]
pub enum SimpleSubsecondSystemSet {
    /// The slot where function-pointer resolution for the tick takes effect:
    /// the table was already updated at patch-apply time, and systems that
    /// rerun after a patch are scheduled here.
    UpdateFunctionPtrs,
    /// The slot where registered record types are migrated to their newly
    /// compiled shapes; always after `UpdateFunctionPtrs`.
    ComponentMigrations,
}

/// What one tick reports back: whether a patched event was published this
/// tick, whether any record instance was converted, and the order in which
/// the two slots ran.
#[derive(Debug)]
pub struct TickReport {
    /// Whether the patched event was published this tick.
    pub patched: bool,
    /// Whether the migration slot converted any instance.
    pub converted: bool,
    /// The slots of this tick, in execution order.
    pub phases: Vec<SimpleSubsecondSystemSet>,
}

/// The synchronous patch-apply step, run by the delivery callback the moment
/// a patch carrying a jump table arrives: the function-pointer table is
/// updated first, and only then is the patched notification made pending. In
/// any state in which the notification can be observed, the table update is
/// already in force, so no wrapped system ever sees a torn table.
pub fn apply_patch(table: &mut FnPtrTable, jump: &JumpTable, mailbox: &mut Mailbox)
    requires
        old(table).wf(),
        jump.wf(),
    ensures
        final(table).wf(),
        final(table)@ == spec_update(old(table)@, jump@),
        final(mailbox).is_pending(),
{
    table.update(jump);
    let _accepted = mailbox.offer();
}

/// One tick's hot-patch work, run before general application logic: drain the
/// hand-off slot, publishing at most one patched event however many patches
/// landed since the previous tick; then run the two ordered slots, the
/// function-pointer refresh strictly before the migration pass.
pub fn run_tick(
    mailbox: &mut Mailbox,
    migrations: &mut ComponentMigrations,
    catalog: &ShapeCatalog,
    store: &mut Vec<Instance>,
) -> (report: TickReport)
    requires
        old(migrations).wf(),
        catalog.wf(),
    ensures
        report.patched == old(mailbox).is_pending(),
        !final(mailbox).is_pending(),
        final(migrations).wf(),
        migration_pass_post(
            old(migrations)@,
            final(migrations)@,
            catalog@,
            old(store)@,
            final(store)@,
            report.converted,
        ),
        report.phases@ == seq![
            SimpleSubsecondSystemSet::UpdateFunctionPtrs,
            SimpleSubsecondSystemSet::ComponentMigrations,
        ],
{
    let ev = mailbox.drain();
    let patched = ev.is_some();
    let mut phases: Vec<SimpleSubsecondSystemSet> = Vec::new();
    phases.push(SimpleSubsecondSystemSet::UpdateFunctionPtrs);
    let converted = migrations.detect_and_migrate(catalog, store);
    phases.push(SimpleSubsecondSystemSet::ComponentMigrations);
    proof {
        assert(phases@ =~= seq![
            SimpleSubsecondSystemSet::UpdateFunctionPtrs,
            SimpleSubsecondSystemSet::ComponentMigrations,
        ]);
    }
    TickReport { patched, converted, phases }
}

/// Ordering invariant: in any tick's phase trace, the migration slot is never
/// observed before the function-pointer refresh slot.
pub proof fn lemma_ordering_invariant(phases: Seq<SimpleSubsecondSystemSet>)
    requires
        phases == seq![
            SimpleSubsecondSystemSet::UpdateFunctionPtrs,
            SimpleSubsecondSystemSet::ComponentMigrations,
        ],
    ensures
        forall|i: int, j: int|
            0 <= i < phases.len() && 0 <= j < phases.len() && phases[i]
                is ComponentMigrations && phases[j] is UpdateFunctionPtrs ==> j < i,
{
    assert(phases.len() == 2);
    assert(phases[0] is UpdateFunctionPtrs);
    assert(phases[1] is ComponentMigrations);
}

} // verus!
