//! Wire marshalling: round trips, boolean width expansion, tags and masks.
use ntcore::entry::{EntryMask, EntryType};
use ntcore::value::{Value, WireData, WireError, from_wire, to_wire};

fn round_trips(v: Value, expected: Value, stamp: u64) {
    let wire = to_wire(v, stamp);
    assert_eq!(wire.last_change, stamp);
    assert_eq!(from_wire(wire), Ok(expected));
}

#[test]
fn round_trip_bool() {
    round_trips(Value::Bool(true), Value::Bool(true), 0);
    round_trips(Value::Bool(false), Value::Bool(false), 17);
}

#[test]
fn round_trip_bool_array() {
    let v = vec![true, false, true, true];
    round_trips(Value::BoolArray(v.clone()), Value::BoolArray(v), 3);
    round_trips(Value::BoolArray(vec![]), Value::BoolArray(vec![]), 3);
}

#[test]
fn round_trip_double() {
    let bits = (1.5f64).to_bits();
    round_trips(Value::Double(bits), Value::Double(bits), 9);
    let zero = (0.0f64).to_bits();
    round_trips(Value::Double(zero), Value::Double(zero), 0);
}

#[test]
fn round_trip_double_array() {
    let v = vec![(0.5f64).to_bits(), (-2.25f64).to_bits()];
    round_trips(Value::DoubleArray(v.clone()), Value::DoubleArray(v), 1);
    round_trips(Value::DoubleArray(vec![]), Value::DoubleArray(vec![]), 1);
}

#[test]
fn round_trip_string() {
    round_trips(
        Value::String("hello".to_string()),
        Value::String("hello".to_string()),
        4,
    );
    round_trips(Value::String(String::new()), Value::String(String::new()), 4);
}

#[test]
fn round_trip_string_array() {
    let v = vec!["a".to_string(), String::new(), "long entry name".to_string()];
    round_trips(Value::StringArray(v.clone()), Value::StringArray(v), 2);
    round_trips(Value::StringArray(vec![]), Value::StringArray(vec![]), 2);
}

#[test]
fn round_trip_raw() {
    let v = vec![0u8, 255, 128, 7];
    round_trips(Value::Raw(v.clone()), Value::Raw(v), 11);
    round_trips(Value::Raw(vec![]), Value::Raw(vec![]), 11);
}

#[test]
fn bool_array_width_expansion() {
    let wire = to_wire(Value::BoolArray(vec![true, false, false, true, true]), 0);
    match wire.data {
        WireData::BooleanArray(flags) => {
            assert_eq!(flags, vec![1, 0, 0, 1, 1]);
            for f in flags {
                assert!(f == 0 || f == 1);
            }
        }
        other => panic!("wrong wire payload: {:?}", other),
    }
}

#[test]
fn wide_flags_narrow_by_nonzero() {
    let wire = ntcore::value::WireValue {
        last_change: 0,
        data: WireData::BooleanArray(vec![0, 1, 2, -7]),
    };
    assert_eq!(
        from_wire(wire),
        Ok(Value::BoolArray(vec![false, true, true, true]))
    );
}

#[test]
fn rpc_wire_value_is_refused() {
    let wire = ntcore::value::WireValue {
        last_change: 5,
        data: WireData::Rpc(vec![1, 2, 3]),
    };
    assert_eq!(from_wire(wire), Err(WireError::UnsupportedType));
}

fn all_types() -> Vec<EntryType> {
    vec![
        EntryType::Boolean,
        EntryType::BooleanArray,
        EntryType::Double,
        EntryType::DoubleArray,
        EntryType::Raw,
        EntryType::Rpc,
        EntryType::String,
        EntryType::StringArray,
        EntryType::Unassigned,
    ]
}

#[test]
fn mask_all_or_equals_new() {
    for t in all_types() {
        assert_eq!(EntryMask::all().bitor(t), EntryMask::new(t));
    }
}

#[test]
fn mask_or_commutes_and_is_idempotent() {
    for a in all_types() {
        for b in all_types() {
            let m = EntryMask::new(EntryType::Raw);
            assert_eq!(m.bitor(a).bitor(b), m.bitor(b).bitor(a));
            assert_eq!(m.bitor(a).bitor(a), m.bitor(a));
        }
    }
}

#[test]
fn mask_zero_accepts_everything() {
    for t in all_types() {
        assert!(EntryMask::all().accepts(t));
    }
    let only_double = EntryMask::new(EntryType::Double);
    assert!(only_double.accepts(EntryType::Double));
    assert!(!only_double.accepts(EntryType::String));
}

#[test]
fn tags_round_trip() {
    for t in all_types() {
        assert_eq!(EntryType::from_tag(t.tag()), t);
    }
    assert_eq!(EntryType::from_tag(0x00), EntryType::Unassigned);
    assert_eq!(EntryType::from_tag(0x80), EntryType::Rpc);
}

#[test]
fn maps_apply_only_to_matching_variant() {
    let one = (1.0f64).to_bits();
    let two = (2.0f64).to_bits();
    let doubled = Value::Double(one).map_double(|b| f64::to_bits(f64::from_bits(b) * 2.0));
    assert_eq!(doubled, Value::Double(two));

    let untouched = Value::String("x".to_string()).map_double(|b| b + 1);
    assert_eq!(untouched, Value::String("x".to_string()));

    let flipped = Value::Bool(false).map_bool(|b| !b);
    assert_eq!(flipped, Value::Bool(true));

    let raw = Value::Raw(vec![3]).map_string(|s| s + "!");
    assert_eq!(raw, Value::Raw(vec![3]));
}
