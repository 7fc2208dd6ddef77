//! The entry store, entry handles, tables and connection snapshots.
use ntcore::connection::{ConnectionData, ConnectionInfo};
use ntcore::entry::{EntryMask, EntryType};
use ntcore::instance::NetworkMode;
use ntcore::value::Value;
use ntcore::{Instance, NetworkTable, now};

fn bits(d: f64) -> u64 {
    d.to_bits()
}

#[test]
fn unwritten_entry_does_not_exist() {
    let mut inst = Instance::new();
    let e = inst.get_entry("/never/written");
    assert_eq!(e.entry_type(&inst), EntryType::Unassigned);
    assert!(!e.is_present(&inst));
    assert_eq!(e.value(&inst), None);
    assert_eq!(e.last_changed(&inst).raw(), 0);
}

#[test]
fn resolution_is_idempotent() {
    let mut inst = Instance::new();
    let a = inst.get_entry("/a");
    let b = inst.get_entry("/b");
    let a2 = inst.get_entry("/a");
    assert_eq!(a, a2);
    assert_ne!(a, b);
}

#[test]
fn set_then_get_returns_the_value() {
    let mut inst = Instance::new();
    let e = inst.get_entry("/x");
    assert_eq!(e.set(&mut inst, Value::Double(bits(6.25))), Ok(()));
    assert!(e.is_present(&inst));
    assert_eq!(e.entry_type(&inst), EntryType::Double);
    assert_eq!(e.value(&inst), Some(Value::Double(bits(6.25))));
    assert_eq!(e.name(&inst), Some("/x".to_string()));
}

#[test]
fn set_type_mismatch_reports_current_type() {
    let mut inst = Instance::new();
    let e = inst.get_entry("/x");
    assert_eq!(e.set(&mut inst, Value::Double(bits(1.0))), Ok(()));
    let r = e.set(&mut inst, Value::String("a".to_string()));
    assert_eq!(r, Err(EntryType::Double));
    // the rejected write changed nothing
    assert_eq!(e.value(&inst), Some(Value::Double(bits(1.0))));
    // a write of the same type is accepted
    assert_eq!(e.set(&mut inst, Value::Double(bits(2.0))), Ok(()));
}

#[test]
fn stamps_are_monotonic() {
    let mut inst = Instance::new();
    let e = inst.get_entry("/x");
    assert_eq!(now(&inst).raw(), 0);
    e.set(&mut inst, Value::Bool(true)).unwrap();
    let t1 = e.last_changed(&inst);
    e.set(&mut inst, Value::Bool(false)).unwrap();
    let t2 = e.last_changed(&inst);
    assert!(t1 < t2);
    assert_eq!(now(&inst).raw(), 2);
}

#[test]
fn table_caches_handles() {
    let mut inst = Instance::new();
    let mut table = inst.get_table("/foo/bar".to_string());
    let e1 = table.get(&mut inst, "baz");
    let e2 = table.get(&mut inst, "baz");
    assert_eq!(e1, e2);
    // the cached handle is the one the store resolves for the full path
    let direct = inst.get_entry("/foo/bar/baz");
    assert_eq!(e1, direct);
}

#[test]
fn subtable_has_independent_empty_cache() {
    let mut inst = Instance::new();
    let mut parent = NetworkTable::new("/p".to_string());
    let in_parent = parent.get(&mut inst, "x");
    let mut sub = parent.get_subtable("y");
    // the subtable resolves under its own, longer prefix
    let in_sub = sub.get(&mut inst, "x");
    assert_ne!(in_parent, in_sub);
    assert_eq!(in_sub.name(&inst), Some("/p/y/x".to_string()));
    // the parent cache is untouched by the subtable's resolution
    assert_eq!(parent.get(&mut inst, "x"), in_parent);
}

#[test]
fn end_to_end_edit_increments() {
    let mut inst = Instance::new();
    let mut table = inst.get_table("/foo/bar".to_string());
    let e = table.get(&mut inst, "baz");
    assert_eq!(e.name(&inst), Some("/foo/bar/baz".to_string()));
    assert_eq!(table.set(&mut inst, "baz", Value::Double(bits(0.0))), Ok(()));
    for step in 1..=4u32 {
        let wrote = e.edit(&mut inst, |v| {
            v.map_double(|b| f64::to_bits(f64::from_bits(b) + 1.0))
        });
        assert!(wrote);
        assert_eq!(e.value(&inst), Some(Value::Double(bits(step as f64))));
    }
}

#[test]
fn edit_of_missing_entry_does_nothing() {
    let mut inst = Instance::new();
    let e = inst.get_entry("/absent");
    let wrote = e.edit(&mut inst, |v| v);
    assert!(!wrote);
    assert!(!e.is_present(&inst));
}

#[test]
fn filtered_enumeration_respects_prefix_and_mask() {
    let mut inst = Instance::new();
    let ax = inst.get_entry("/a/x");
    let ay = inst.get_entry("/a/y");
    let bz = inst.get_entry("/b/z");
    let unset = inst.get_entry("/a/unset");
    ax.set(&mut inst, Value::Double(bits(1.0))).unwrap();
    ay.set(&mut inst, Value::String("s".to_string())).unwrap();
    bz.set(&mut inst, Value::Bool(true)).unwrap();
    let _ = unset;

    let under_a = inst.get_entries_filtered("/a", EntryMask::all());
    assert_eq!(under_a, vec![ax, ay]);

    let doubles = inst.get_entries_filtered("", EntryMask::new(EntryType::Double));
    assert_eq!(doubles, vec![ax]);

    let strings_or_bools = inst.get_entries_filtered(
        "",
        EntryMask::new(EntryType::String).bitor(EntryType::Boolean),
    );
    assert_eq!(strings_or_bools, vec![ay, bz]);

    let everything = inst.get_all_entries();
    assert_eq!(everything, vec![ax, ay, bz]);
}

#[test]
fn table_get_filtered_caches_by_full_path() {
    let mut inst = Instance::new();
    let mut table = inst.get_table("/a".to_string());
    let e = inst.get_entry("/a/x");
    e.set(&mut inst, Value::Bool(true)).unwrap();
    let found = table.get_filtered(&inst, "/x", EntryMask::all());
    assert_eq!(found, vec![e]);
}

#[test]
fn put_behaves_like_set() {
    let mut inst = Instance::new();
    let mut table = inst.get_table("/t".to_string());
    assert_eq!(table.put(&mut inst, "k", Value::Bool(true)), Ok(()));
    assert_eq!(
        table.set(&mut inst, "k", Value::Double(bits(1.0))),
        Err(EntryType::Boolean)
    );
    let e = table.get(&mut inst, "k");
    assert_eq!(e.value(&inst), Some(Value::Bool(true)));
}

#[test]
fn delete_all_clears_values_but_keeps_handles() {
    let mut inst = Instance::new();
    let e = inst.get_entry("/x");
    e.set(&mut inst, Value::Raw(vec![1, 2])).unwrap();
    inst.delete_all_entries();
    assert!(!e.is_present(&inst));
    assert_eq!(e.value(&inst), None);
    assert_eq!(inst.get_entry("/x"), e);
    // the key is free for a value of another type now
    assert_eq!(e.set(&mut inst, Value::Bool(true)), Ok(()));
}

#[test]
fn connection_snapshot_views() {
    let data = vec![
        ConnectionData {
            remote_id: "peer-1".to_string(),
            remote_ip: "127.0.0.1".to_string(),
            remote_port: 1735,
            protocol_version: 0x0300,
            last_update: 42,
        },
        ConnectionData {
            remote_id: "peer-2".to_string(),
            remote_ip: "10.0.0.9".to_string(),
            remote_port: 1735,
            protocol_version: 0x0300,
            last_update: 43,
        },
    ];
    let snapshot = ConnectionInfo::new(data);
    assert_eq!(snapshot.len(), 2);
    let first = snapshot.get(0).unwrap();
    assert_eq!(first.remote_id(), "peer-1");
    assert_eq!(first.remote_ip_str(), "127.0.0.1");
    assert_eq!(first.remote_port(), 1735);
    assert_eq!(first.protocol_version(), 0x0300);
    assert_eq!(first.last_update().raw(), 42);
    assert!(snapshot.get(2).is_none());
    let again = snapshot.get(0).unwrap();
    assert!(first == again);
    let second = snapshot.get(1).unwrap();
    assert!(!(first == second));
}

#[test]
fn network_mode_bits() {
    assert!(NetworkMode::new(0x01).server());
    assert!(NetworkMode::new(0x02).client());
    assert!(NetworkMode::new(0x04).starting());
    assert!(NetworkMode::new(0x08).failure());
    assert!(NetworkMode::new(0).none());
    let mixed = NetworkMode::new(0x02 | 0x04);
    assert!(mixed.client());
    assert!(mixed.starting());
    assert!(!mixed.server());
    assert!(!mixed.none());
}
