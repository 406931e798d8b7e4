use hotpatch_core::installer::{
    find_duplicate_identity, install, resolve_target, Arena, Schedule, SystemBody,
};
use hotpatch_core::table::{FnPtrTable, JumpTable};

fn sample_schedules() -> Vec<Schedule> {
    vec![
        Schedule {
            label: 10,
            systems: vec![
                SystemBody { identity: 1, entry_ptr: 100 },
                SystemBody { identity: 2, entry_ptr: 200 },
            ],
        },
        Schedule { label: 20, systems: vec![SystemBody { identity: 3, entry_ptr: 300 }] },
    ]
}

#[test]
fn install_preserves_the_schedule_graph() {
    let schedules = sample_schedules();
    let mut table = FnPtrTable::new();
    let mut arena = Arena::new();
    assert!(find_duplicate_identity(&schedules).is_none());
    let wrapped = install(&schedules, &mut table, &mut arena);

    assert_eq!(wrapped.len(), 2);
    assert_eq!(wrapped[0].label, 10);
    assert_eq!(wrapped[1].label, 20);
    assert_eq!(wrapped[0].systems.len(), 2);
    assert_eq!(wrapped[1].systems.len(), 1);
    assert_eq!(wrapped[0].systems[0].identity, 1);
    assert_eq!(wrapped[0].systems[1].identity, 2);
    assert_eq!(wrapped[1].systems[0].identity, 3);

    // the arena owns each original body, reachable through the wrapper's index
    assert_eq!(arena.len(), 3);
    let b = arena.body_at(wrapped[1].systems[0].arena_index);
    assert_eq!(b.identity, 3);
    assert_eq!(b.entry_ptr, 300);
}

#[test]
fn identity_stability_through_the_wrapper() {
    let schedules = sample_schedules();
    let mut table = FnPtrTable::new();
    let mut arena = Arena::new();
    let wrapped = install(&schedules, &mut table, &mut arena);
    let w = wrapped[0].systems[0];

    // before any patch, the wrapper resolves to the compiled body
    assert_eq!(resolve_target(&w, &table), Some(100));

    // after a patch, the same wrapper observes the update
    let mut j1 = JumpTable::new();
    j1.add(1, 111);
    table.update(&j1);
    assert_eq!(resolve_target(&w, &table), Some(111));

    // and a second update is observed by the next invocation
    let mut j2 = JumpTable::new();
    j2.add(1, 222);
    table.update(&j2);
    assert_eq!(resolve_target(&w, &table), Some(222));

    // an unaffected system keeps resolving to its own body
    assert_eq!(resolve_target(&wrapped[0].systems[1], &table), Some(200));
}

#[test]
fn single_owner_per_original_body() {
    let schedules = sample_schedules();
    let mut table = FnPtrTable::new();
    let mut arena = Arena::new();
    let wrapped = install(&schedules, &mut table, &mut arena);

    // every wrapper holds an in-bounds arena index, and no two wrappers hold
    // the same one: exactly one handle per owned body
    let mut indices: Vec<usize> = Vec::new();
    for ws in &wrapped {
        for w in &ws.systems {
            assert!(w.arena_index < arena.len());
            assert!(!indices.contains(&w.arena_index));
            indices.push(w.arena_index);
        }
    }
    assert_eq!(indices.len(), arena.len());
}

#[test]
fn duplicate_identity_is_a_configuration_error() {
    let schedules = vec![
        Schedule { label: 10, systems: vec![SystemBody { identity: 1, entry_ptr: 100 }] },
        Schedule { label: 20, systems: vec![SystemBody { identity: 1, entry_ptr: 300 }] },
    ];
    assert_eq!(find_duplicate_identity(&schedules), Some(1));
}

#[test]
fn empty_schedule_set_installs_to_nothing() {
    let schedules: Vec<Schedule> = Vec::new();
    let mut table = FnPtrTable::new();
    let mut arena = Arena::new();
    assert!(find_duplicate_identity(&schedules).is_none());
    let wrapped = install(&schedules, &mut table, &mut arena);
    assert!(wrapped.is_empty());
    assert_eq!(arena.len(), 0);
}
