use hotpatch_core::migration::{
    ComponentMigrations, Field, FieldType, FieldValue, Instance, Shape, ShapeCatalog,
};
use hotpatch_core::notifier::Mailbox;
use hotpatch_core::table::FnPtrTable;
use hotpatch_core::table::JumpTable;
use hotpatch_core::tick::{apply_patch, run_tick, SimpleSubsecondSystemSet};
use hotpatch_core::HotPatched;

fn one_field_shape(sig: u64, ty: FieldType, default: FieldValue) -> Shape {
    Shape::new(sig, vec![Field { name: 1, ty, default }]).unwrap()
}

#[test]
fn patch_then_tick_updates_pointers_before_migration() {
    let mut table = FnPtrTable::new();
    table.register(1, 100);
    let mut mailbox = Mailbox::new();

    let mut reg = ComponentMigrations::new();
    reg.register_migratable(100, one_field_shape(10, FieldType::Int, FieldValue::Int(0)));
    let mut catalog = ShapeCatalog::new();
    catalog.add(100, one_field_shape(11, FieldType::Int, FieldValue::Int(7)));

    let mut store = vec![Instance { entity: 1, type_id: 100, values: vec![FieldValue::Int(5)] }];

    // the delivery callback applies the jump table synchronously, then makes
    // the notification pending: by the time the event can be observed, the
    // table is already updated
    let mut jump = JumpTable::new();
    jump.add(1, 111);
    apply_patch(&mut table, &jump, &mut mailbox);
    assert_eq!(table.resolve(1), Some(111));

    let report = run_tick(&mut mailbox, &mut reg, &catalog, &mut store);
    assert!(report.patched);
    assert!(report.converted);
    // the two slots ran in their fixed order: pointers first, migration second
    assert_eq!(
        report.phases,
        vec![
            SimpleSubsecondSystemSet::UpdateFunctionPtrs,
            SimpleSubsecondSystemSet::ComponentMigrations,
        ]
    );
    // the same-name same-type field survived the shape change
    assert_eq!(store[0].values, vec![FieldValue::Int(5)]);
}

#[test]
fn tick_without_patch_publishes_nothing() {
    let mut mailbox = Mailbox::new();
    let mut reg = ComponentMigrations::new();
    let catalog = ShapeCatalog::new();
    let mut store: Vec<Instance> = Vec::new();
    let report = run_tick(&mut mailbox, &mut reg, &catalog, &mut store);
    assert!(!report.patched);
    assert!(!report.converted);
}

#[test]
fn many_patches_one_event() {
    let mut table = FnPtrTable::new();
    table.register(1, 100);
    let mut mailbox = Mailbox::new();
    let mut reg = ComponentMigrations::new();
    let catalog = ShapeCatalog::new();
    let mut store: Vec<Instance> = Vec::new();

    // several patches land within the same tick window
    let mut j1 = JumpTable::new();
    j1.add(1, 111);
    apply_patch(&mut table, &j1, &mut mailbox);
    let mut j2 = JumpTable::new();
    j2.add(1, 222);
    apply_patch(&mut table, &j2, &mut mailbox);

    // exactly one patched event for that tick, and resolution already
    // reflects the latest patch
    let report = run_tick(&mut mailbox, &mut reg, &catalog, &mut store);
    assert!(report.patched);
    assert_eq!(table.resolve(1), Some(222));
    assert_eq!(table.resolve_last(1), Some(111));

    // the next tick sees no further event
    let next = run_tick(&mut mailbox, &mut reg, &catalog, &mut store);
    assert!(!next.patched);
}

#[test]
fn patched_event_is_zero_payload() {
    // the event carries nothing: two of them are indistinguishable
    assert_eq!(HotPatched, HotPatched);
}
