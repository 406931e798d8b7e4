use hotpatch_core::migration::{
    fields_well_formed, migrate_row, ComponentMigrations, Field, FieldType, FieldValue, Instance,
    Shape, ShapeCatalog,
};

const NAME_A: u64 = 1;
const NAME_B: u64 = 2;
const NAME_C: u64 = 3;

fn int_field(name: u64) -> Field {
    Field { name, ty: FieldType::Int, default: FieldValue::Int(0) }
}

fn text_field(name: u64) -> Field {
    Field { name, ty: FieldType::Text, default: FieldValue::Text(String::new()) }
}

/// Old shape {a: int, b: text}.
fn old_shape() -> Shape {
    Shape::new(10, vec![int_field(NAME_A), text_field(NAME_B)]).unwrap()
}

/// New shape {b: text, c: int default 0}.
fn new_shape() -> Shape {
    Shape::new(11, vec![text_field(NAME_B), int_field(NAME_C)]).unwrap()
}

#[test]
fn field_preservation() {
    // migrating {a = 5, b = "x"} yields {b = "x", c = 0}: a is dropped
    // silently, b keeps its value, c takes its declared default
    let vals = vec![FieldValue::Int(5), FieldValue::Text(String::from("x"))];
    let migrated = migrate_row(&old_shape(), &new_shape(), &vals);
    assert_eq!(
        migrated,
        vec![FieldValue::Text(String::from("x")), FieldValue::Int(0)]
    );
}

#[test]
fn type_incompatible_field_is_defaulted() {
    // the field keeps its name but changes type: the value is dropped and the
    // new default used instead
    let old = Shape::new(20, vec![int_field(NAME_A)]).unwrap();
    let new = Shape::new(21, vec![text_field(NAME_A)]).unwrap();
    let vals = vec![FieldValue::Int(41)];
    let migrated = migrate_row(&old, &new, &vals);
    assert_eq!(migrated, vec![FieldValue::Text(String::new())]);
}

#[test]
fn nonconforming_row_becomes_all_defaults() {
    // a row that does not even conform to the old shape is replaced by the
    // new shape's defaults rather than aborting the pass
    let vals = vec![FieldValue::Flag(true)];
    let migrated = migrate_row(&old_shape(), &new_shape(), &vals);
    assert_eq!(
        migrated,
        vec![FieldValue::Text(String::new()), FieldValue::Int(0)]
    );
}

#[test]
fn shape_new_rejects_repeated_name() {
    assert!(Shape::new(1, vec![int_field(NAME_A), text_field(NAME_A)]).is_none());
}

#[test]
fn shape_new_rejects_mistyped_default() {
    let bad = Field { name: NAME_A, ty: FieldType::Int, default: FieldValue::Flag(false) };
    assert!(Shape::new(1, vec![bad]).is_none());
    assert!(!fields_well_formed(&vec![Field {
        name: NAME_B,
        ty: FieldType::Text,
        default: FieldValue::Int(3),
    }]));
}

#[test]
fn migration_totality_across_the_store() {
    let mut reg = ComponentMigrations::new();
    reg.register_migratable(100, old_shape());
    let mut catalog = ShapeCatalog::new();
    catalog.add(100, new_shape());

    let mut store = vec![
        Instance {
            entity: 1,
            type_id: 100,
            values: vec![FieldValue::Int(5), FieldValue::Text(String::from("x"))],
        },
        // an instance of an unregistered type is left untouched
        Instance { entity: 2, type_id: 200, values: vec![FieldValue::Flag(true)] },
        // a corrupt instance of the registered type is replaced by defaults
        Instance { entity: 3, type_id: 100, values: vec![] },
    ];
    let changed = reg.detect_and_migrate(&catalog, &mut store);
    assert!(changed);
    assert_eq!(store.len(), 3);
    assert_eq!(store[0].entity, 1);
    assert_eq!(store[0].type_id, 100);
    assert_eq!(
        store[0].values,
        vec![FieldValue::Text(String::from("x")), FieldValue::Int(0)]
    );
    assert_eq!(store[1].values, vec![FieldValue::Flag(true)]);
    assert_eq!(store[2].entity, 3);
    assert_eq!(
        store[2].values,
        vec![FieldValue::Text(String::new()), FieldValue::Int(0)]
    );
}

#[test]
fn no_op_stability_of_detect_and_migrate() {
    let mut reg = ComponentMigrations::new();
    reg.register_migratable(100, old_shape());
    let mut catalog = ShapeCatalog::new();
    catalog.add(100, new_shape());

    let mut store = vec![Instance {
        entity: 1,
        type_id: 100,
        values: vec![FieldValue::Int(5), FieldValue::Text(String::from("x"))],
    }];
    assert!(reg.detect_and_migrate(&catalog, &mut store));
    let snapshot = store.clone();
    // no intervening patch: the second pass performs zero conversions
    assert!(!reg.detect_and_migrate(&catalog, &mut store));
    assert_eq!(store, snapshot);
}

#[test]
fn unchanged_signature_is_a_no_op() {
    let mut reg = ComponentMigrations::new();
    reg.register_migratable(100, old_shape());
    let mut catalog = ShapeCatalog::new();
    catalog.add(100, old_shape());
    let mut store = vec![Instance {
        entity: 1,
        type_id: 100,
        values: vec![FieldValue::Int(5), FieldValue::Text(String::from("x"))],
    }];
    let snapshot = store.clone();
    assert!(!reg.detect_and_migrate(&catalog, &mut store));
    assert_eq!(store, snapshot);
}

#[test]
fn registration_is_once_per_type() {
    let mut reg = ComponentMigrations::new();
    reg.register_migratable(100, old_shape());
    // a second registration of the same type is ignored
    reg.register_migratable(100, new_shape());
    assert!(reg.is_registered(100));
    let mut catalog = ShapeCatalog::new();
    catalog.add(100, new_shape());
    let mut store = vec![Instance {
        entity: 1,
        type_id: 100,
        values: vec![FieldValue::Int(5), FieldValue::Text(String::from("x"))],
    }];
    // the stored shape is still the first one, so the pass converts
    assert!(reg.detect_and_migrate(&catalog, &mut store));
}
