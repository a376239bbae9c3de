use kcore::pid_ns::{
    clone_pid_ns, find_task_by_pid_ns, new_init_pid_ns, pid_is_ancestor_of, register_task_pids,
    task_pid_nr, task_pid_nr_ns, unregister_task_pids, MAX_PID_NS_LEVEL,
};
use kcore::user_ns::{
    can_set_uid_gid_map, clone_user_ns, from_kuid_ns, new_init_user_ns, to_kgid_ns, to_kuid_ns,
    user_is_ancestor_of, UidGidExtent, UidGidMap, MAX_USER_NS_LEVEL,
};

#[test]
fn pid_namespace_scenario() {
    // Child namespace of root; register(tid=T) => pid 1 in child, reaper=T.
    let mut table = new_init_pid_ns();
    let child = clone_pid_ns(&mut table, 0).unwrap();
    let t: u64 = 77;

    let pid = register_task_pids(&mut table, t, child).unwrap();
    assert_eq!(pid, 1);
    assert_eq!(table.spaces[child].get_child_reaper(), Some(t));

    // A second register => pid 2.
    let t2: u64 = 88;
    let pid2 = register_task_pids(&mut table, t2, child).unwrap();
    assert_eq!(pid2, 2);

    // task_pid_nr_ns(T, root) returns the fresh PID allocated in root.
    let root_pid = task_pid_nr_ns(&table, t, 0);
    assert!(root_pid >= 1);
    assert_eq!(task_pid_nr(&table, t), root_pid);

    // find_task_by_pid_ns(1, child) == Some(T).
    assert_eq!(find_task_by_pid_ns(&table, 1, child), Some(t));

    // unregister removes both maps.
    unregister_task_pids(&mut table, t, child);
    assert_eq!(find_task_by_pid_ns(&table, 1, child), None);
    assert_eq!(task_pid_nr_ns(&table, t, child), 0);
    assert_eq!(task_pid_nr_ns(&table, t, 0), 0);
}

#[test]
fn pid_allocation_monotonic() {
    let mut table = new_init_pid_ns();
    let mut last = 0u32;
    for tid in 1u64..6 {
        let pid = register_task_pids(&mut table, tid, 0).unwrap();
        assert!(pid > last);
        last = pid;
    }
}

#[test]
fn pid_alloc_exhaustion() {
    let mut table = new_init_pid_ns();
    table.spaces[0].next_pid = table.spaces[0].pid_max;
    assert_eq!(table.spaces[0].alloc_pid(), Err(11));
    assert_eq!(register_task_pids(&mut table, 5, 0), Err(11));
}

#[test]
fn pid_ns_nesting_limit() {
    let mut table = new_init_pid_ns();
    let mut cur = 0usize;
    for _ in 0..MAX_PID_NS_LEVEL {
        cur = clone_pid_ns(&mut table, cur).unwrap();
    }
    assert_eq!(clone_pid_ns(&mut table, cur), Err(11));
}

#[test]
fn pid_ns_ancestry() {
    let mut table = new_init_pid_ns();
    let a = clone_pid_ns(&mut table, 0).unwrap();
    let b = clone_pid_ns(&mut table, a).unwrap();
    let c = clone_pid_ns(&mut table, 0).unwrap();
    assert!(pid_is_ancestor_of(&table, 0, b));
    assert!(pid_is_ancestor_of(&table, a, b));
    assert!(!pid_is_ancestor_of(&table, b, a));
    assert!(!pid_is_ancestor_of(&table, c, b));
    assert!(!pid_is_ancestor_of(&table, b, b));
}

#[test]
fn uid_map_translation() {
    let mut map = UidGidMap::new();
    assert!(!map.is_set());
    map.set_mapping(vec![
        UidGidExtent { first: 0, lower_first: 100000, count: 1000 },
        UidGidExtent { first: 2000, lower_first: 200000, count: 50 },
    ])
    .unwrap();
    assert!(map.is_set());
    assert_eq!(map.map_id_down(0), Some(100000));
    assert_eq!(map.map_id_down(999), Some(100999));
    assert_eq!(map.map_id_down(1000), None);
    assert_eq!(map.map_id_down(2049), Some(200049));
    assert_eq!(map.map_id_up(100500), Some(500));
    assert_eq!(map.map_id_up(200000), Some(2000));
    assert_eq!(map.map_id_up(99999), None);
}

#[test]
fn uid_map_set_only_once() {
    let mut map = UidGidMap::new();
    let exts = vec![UidGidExtent { first: 0, lower_first: 1000, count: 10 }];
    map.set_mapping(exts.clone()).unwrap();
    // Re-setting the identical extents is an idempotent no-op; a
    // differing second set fails with EPERM; the map never changes.
    assert_eq!(map.set_mapping(exts), Ok(()));
    assert_eq!(
        map.set_mapping(vec![UidGidExtent { first: 5, lower_first: 9, count: 1 }]),
        Err(1)
    );
    assert_eq!(
        map.set_mapping(vec![
            UidGidExtent { first: 0, lower_first: 1000, count: 10 },
            UidGidExtent { first: 50, lower_first: 60, count: 1 },
        ]),
        Err(1)
    );
    assert_eq!(map.extents.len(), 1);
    assert_eq!(map.map_id_down(3), Some(1003));
}

#[test]
fn uid_map_rejects_overlap() {
    let mut map = UidGidMap::new();
    // Overlap on the namespace side.
    assert_eq!(
        map.set_mapping(vec![
            UidGidExtent { first: 0, lower_first: 1000, count: 10 },
            UidGidExtent { first: 5, lower_first: 5000, count: 10 },
        ]),
        Err(22)
    );
    assert!(!map.is_set());
    // Overlap on the parent side.
    assert_eq!(
        map.set_mapping(vec![
            UidGidExtent { first: 0, lower_first: 1000, count: 10 },
            UidGidExtent { first: 100, lower_first: 1005, count: 10 },
        ]),
        Err(22)
    );
    assert!(!map.is_set());
}

#[test]
fn identity_map_covers_everything() {
    // The whole 32-bit range [0, 2^32) maps to itself, including the top
    // ID, which needs the second one-ID extent.
    let map = UidGidMap::new_identity();
    assert_eq!(map.extents.len(), 2);
    assert_eq!(map.map_id_down(0), Some(0));
    assert_eq!(map.map_id_down(123456), Some(123456));
    assert_eq!(map.map_id_up(u32::MAX - 1), Some(u32::MAX - 1));
    assert_eq!(map.map_id_down(u32::MAX), Some(u32::MAX));
    assert_eq!(map.map_id_up(u32::MAX), Some(u32::MAX));
}

#[test]
fn user_ns_tree() {
    let mut table = new_init_user_ns();
    assert_eq!(table.spaces[0].to_kuid(42), Some(42));
    let child = clone_user_ns(&mut table, 0, 1000, 1000).unwrap();
    assert_eq!(table.spaces[child].owner, 1000);
    assert_eq!(table.spaces[child].to_kuid(0), None); // unmapped until set
    table.spaces[child]
        .uid_map
        .set_mapping(vec![UidGidExtent { first: 0, lower_first: 100000, count: 65536 }])
        .unwrap();
    assert_eq!(table.spaces[child].to_kuid(0), Some(100000));
    assert_eq!(table.spaces[child].from_kuid(100007), Some(7));
    assert_eq!(table.spaces[child].to_kgid(0), None);
    assert!(user_is_ancestor_of(&table, 0, child));
    assert!(!user_is_ancestor_of(&table, child, 0));
}

#[test]
fn kuid_translation_chains_through_ancestors() {
    let mut table = new_init_user_ns();
    let child = clone_user_ns(&mut table, 0, 1000, 1000).unwrap();
    let grand = clone_user_ns(&mut table, child, 0, 0).unwrap();
    table.spaces[child]
        .uid_map
        .set_mapping(vec![UidGidExtent { first: 0, lower_first: 100000, count: 65536 }])
        .unwrap();
    table.spaces[grand]
        .uid_map
        .set_mapping(vec![UidGidExtent { first: 0, lower_first: 500, count: 1000 }])
        .unwrap();
    // grand UID 7 -> child UID 507 -> kernel UID 100507 (root identity).
    assert_eq!(to_kuid_ns(&table, grand, 7), Some(100507));
    // And back down.
    assert_eq!(from_kuid_ns(&table, grand, 100507), Some(7));
    // A kernel UID outside the child's range never reaches the grandchild.
    assert_eq!(from_kuid_ns(&table, grand, 99999), None);
    // The grandchild's GID map is unset: the chain stops there.
    assert_eq!(to_kgid_ns(&table, grand, 0), None);
    // At the root the chain is the identity.
    assert_eq!(to_kuid_ns(&table, 0, 4242), Some(4242));
}

#[test]
fn user_ns_nesting_limit() {
    let mut table = new_init_user_ns();
    let mut cur = 0usize;
    for _ in 0..MAX_USER_NS_LEVEL {
        cur = clone_user_ns(&mut table, cur, 0, 0).unwrap();
    }
    assert_eq!(clone_user_ns(&mut table, cur, 0, 0), Err(11));
}

#[test]
fn only_root_sets_maps() {
    assert!(can_set_uid_gid_map(0));
    assert!(!can_set_uid_gid_map(1000));
}
