use hotpatch_core::table::{FnPtrTable, JumpTable};

#[test]
fn register_and_resolve() {
    let mut t = FnPtrTable::new();
    t.register(1, 100);
    t.register(2, 200);
    assert_eq!(t.resolve(1), Some(100));
    assert_eq!(t.resolve(2), Some(200));
    assert_eq!(t.resolve_last(1), Some(100));
    assert_eq!(t.resolve(3), None);
    assert_eq!(t.resolve_last(3), None);
}

#[test]
fn register_is_idempotent() {
    let mut t = FnPtrTable::new();
    t.register(7, 700);
    t.register(7, 999);
    assert_eq!(t.resolve(7), Some(700));
    assert_eq!(t.resolve_last(7), Some(700));
}

#[test]
fn update_moves_current_into_last() {
    let mut t = FnPtrTable::new();
    t.register(1, 100);
    t.register(2, 200);
    let mut jump = JumpTable::new();
    jump.add(1, 111);
    t.update(&jump);
    assert_eq!(t.resolve(1), Some(111));
    assert_eq!(t.resolve_last(1), Some(100));
    // an identity the jump table does not name is left untouched
    assert_eq!(t.resolve(2), Some(200));
    assert_eq!(t.resolve_last(2), Some(200));
}

#[test]
fn second_update_observes_second_pointer() {
    let mut t = FnPtrTable::new();
    t.register(1, 100);
    let mut j1 = JumpTable::new();
    j1.add(1, 111);
    t.update(&j1);
    assert_eq!(t.resolve(1), Some(111));
    let mut j2 = JumpTable::new();
    j2.add(1, 222);
    t.update(&j2);
    assert_eq!(t.resolve(1), Some(222));
    assert_eq!(t.resolve_last(1), Some(111));
}

#[test]
fn update_ignores_unregistered_identity() {
    let mut t = FnPtrTable::new();
    t.register(1, 100);
    let mut jump = JumpTable::new();
    jump.add(9, 900);
    t.update(&jump);
    assert_eq!(t.resolve(1), Some(100));
    assert_eq!(t.resolve(9), None);
}

#[test]
fn jump_table_first_target_wins() {
    let mut jump = JumpTable::new();
    jump.add(5, 50);
    jump.add(5, 51);
    assert_eq!(jump.lookup(5), Some(50));
    assert_eq!(jump.lookup(6), None);
}
