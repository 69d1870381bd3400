use plugin_sdk::datastore::Data;
use plugin_sdk::error::ManagerError;
use plugin_sdk::token::{AccessToken, DataHandle};
use plugin_sdk::value::{FloatText, Value};
use std::hash::{Hash, Hasher};

fn read_float(text: &String) -> Option<u64> {
    text.parse::<f64>().ok().map(f64::to_bits)
}

fn write_float(bits: u64) -> String {
    f64::from_bits(bits).to_string()
}

type Store = Data<fn(&String) -> Option<u64>, fn(u64) -> String>;

fn store() -> Store {
    Data::new(FloatText::new(
        read_float as fn(&String) -> Option<u64>,
        write_float as fn(u64) -> String,
    ))
}

fn token(text: &str) -> AccessToken {
    AccessToken::new(text.to_string())
}

#[test]
fn a_bool_slot_turns_a_positive_integer_into_true() {
    let mut data = store();
    let owner = token("owner");
    let handle = data.create_value("x".to_string(), &owner, Value::Bool(true)).unwrap();
    assert_eq!(data.set_value(&handle, &owner, Value::Int(5)), Ok(()));
    assert_eq!(data.get_value(&handle), Ok(Value::Bool(true)));
    assert_eq!(data.set_value(&handle, &owner, Value::Int(0)), Ok(()));
    assert_eq!(data.get_value(&handle), Ok(Value::Bool(false)));
}

#[test]
fn a_float_slot_refuses_text_that_is_no_number() {
    let mut data = store();
    let owner = token("owner");
    let handle =
        data.create_value("f".to_string(), &owner, Value::Float(1.5f64.to_bits())).unwrap();
    assert_eq!(
        data.set_value(&handle, &owner, Value::Str("notanumber".to_string())),
        Err(ManagerError::TypeCoercion)
    );
    assert_eq!(data.get_value(&handle), Ok(Value::Float(1.5f64.to_bits())));
    assert_eq!(data.set_value(&handle, &owner, Value::Str("2.75".to_string())), Ok(()));
    assert_eq!(data.get_value(&handle), Ok(Value::Float(2.75f64.to_bits())));
}

#[test]
fn values_under_distinct_names_are_all_created_with_distinct_handles() {
    let mut data = store();
    let owner = token("owner");
    let mut handles: Vec<DataHandle> = Vec::new();
    for i in 0..50 {
        let handle = data.create_value(format!("name-{}", i), &owner, Value::Int(i)).unwrap();
        assert_eq!(handle.index, i as usize);
        assert!(!handles.contains(&handle));
        handles.push(handle);
    }
    assert_eq!(data.len(), 50);
    for (i, handle) in handles.iter().enumerate() {
        assert_eq!(data.get_value(handle), Ok(Value::Int(i as i64)));
        assert_eq!(data.get_data_handle(&format!("name-{}", i)), Some(*handle));
    }
}

#[test]
fn a_repeated_name_is_refused_and_changes_nothing() {
    let mut data = store();
    let owner = token("owner");
    let other = token("other");
    let first = data.create_value("a".to_string(), &owner, Value::Int(1)).unwrap();
    let second = data.create_value("b".to_string(), &owner, Value::Str("two".to_string())).unwrap();
    assert_eq!(
        data.create_value("a".to_string(), &owner, Value::Int(99)),
        Err(ManagerError::DuplicateKey)
    );
    assert_eq!(
        data.create_value("b".to_string(), &other, Value::Bool(true)),
        Err(ManagerError::DuplicateKey)
    );
    assert_eq!(data.len(), 2);
    assert_eq!(data.get_value(&first), Ok(Value::Int(1)));
    assert_eq!(data.get_value(&second), Ok(Value::Str("two".to_string())));
    assert_eq!(data.get_data_handle("a"), Some(first));
    assert_eq!(data.set_value(&second, &other, Value::Int(5)), Err(ManagerError::NotOwner));
}

#[test]
fn a_handle_with_another_fingerprint_or_index_is_stale() {
    let mut data = store();
    let owner = token("owner");
    let a = data.create_value("a".to_string(), &owner, Value::Int(1)).unwrap();
    let b = data.create_value("b".to_string(), &owner, Value::Int(2)).unwrap();
    assert_ne!(a.name_hash, b.name_hash);

    let crossed = DataHandle { index: a.index, name_hash: b.name_hash };
    assert_eq!(data.get_value(&crossed), Err(ManagerError::StaleHandle));
    assert_eq!(data.set_value(&crossed, &owner, Value::Int(7)), Err(ManagerError::StaleHandle));

    let beyond = DataHandle { index: 2, name_hash: a.name_hash };
    assert_eq!(data.get_value(&beyond), Err(ManagerError::StaleHandle));
    assert_eq!(data.set_value(&beyond, &owner, Value::Int(7)), Err(ManagerError::StaleHandle));

    let far = DataHandle { index: usize::MAX, name_hash: a.name_hash };
    assert_eq!(data.get_value(&far), Err(ManagerError::StaleHandle));

    assert_eq!(data.get_value(&a), Ok(Value::Int(1)));
    assert_eq!(data.get_value(&b), Ok(Value::Int(2)));
}

#[test]
fn a_stale_handle_is_reported_before_a_wrong_owner() {
    let mut data = store();
    let owner = token("owner");
    let handle = data.create_value("a".to_string(), &owner, Value::Int(1)).unwrap();
    let stale = DataHandle { index: handle.index, name_hash: handle.name_hash.wrapping_add(1) };
    assert_eq!(
        data.set_value(&stale, &token("thief"), Value::Str("x".to_string())),
        Err(ManagerError::StaleHandle)
    );
    assert_eq!(
        data.set_value(&handle, &token("thief"), Value::Str("x".to_string())),
        Err(ManagerError::NotOwner)
    );
    assert_eq!(
        data.set_value(&handle, &owner, Value::Str("x".to_string())),
        Err(ManagerError::TypeCoercion)
    );
    assert_eq!(data.get_value(&handle), Ok(Value::Int(1)));
}

#[test]
fn only_the_creator_writes_and_anyone_reads() {
    let mut data = store();
    let owner = token("0");
    let handle = data.create_value("shared".to_string(), &owner, Value::Int(10)).unwrap();
    for intruder in ["1", "", "00", "0 ", "owner"] {
        assert_eq!(
            data.set_value(&handle, &token(intruder), Value::Int(666)),
            Err(ManagerError::NotOwner)
        );
        assert_eq!(data.get_value(&handle), Ok(Value::Int(10)));
    }
    assert_eq!(data.set_value(&handle, &token("0"), Value::Int(11)), Ok(()));
    assert_eq!(data.get_value(&handle), Ok(Value::Int(11)));
}

#[test]
fn a_handle_stays_valid_while_the_store_grows() {
    let mut data = store();
    let owner = token("owner");
    let early = data.create_value("early".to_string(), &owner, Value::Str("kept".to_string())).unwrap();
    for i in 0..20 {
        data.create_value(format!("later-{}", i), &owner, Value::Int(i)).unwrap();
    }
    assert_eq!(data.get_value(&early), Ok(Value::Str("kept".to_string())));
    assert_eq!(data.get_data_handle("early"), Some(early));
    assert_eq!(data.set_value(&early, &owner, Value::Int(3)), Ok(()));
    assert_eq!(data.get_value(&early), Ok(Value::Str("3".to_string())));
}

#[test]
fn a_name_that_was_never_created_has_no_handle() {
    let mut data = store();
    assert_eq!(data.get_data_handle("missing"), None);
    assert_eq!(data.len(), 0);
    data.create_value("present".to_string(), &token("t"), Value::Bool(false)).unwrap();
    assert_eq!(data.get_data_handle("missing"), None);
    assert_eq!(data.get_data_handle("Present"), None);
    assert_eq!(data.get_data_handle(""), None);
    assert!(data.get_data_handle("present").is_some());
}

#[test]
fn the_fingerprint_is_the_default_hash_of_the_name() {
    let mut data = store();
    for name in ["", "a", "Finish", "Plugin1", "na\u{ef}ve", "\u{1F600} smile", "with\0nul"] {
        let handle = data.create_value(name.to_string(), &token("t"), Value::Int(0)).unwrap();
        let mut hasher = std::collections::hash_map::DefaultHasher::new();
        name.to_string().hash(&mut hasher);
        assert_eq!(handle.name_hash, hasher.finish(), "fingerprint of {:?}", name);
    }
}

#[test]
fn the_fingerprint_depends_on_the_name_alone() {
    let mut one = store();
    let mut two = store();
    two.create_value("padding".to_string(), &token("x"), Value::Int(0)).unwrap();
    let a = one.create_value("Finish".to_string(), &token("a"), Value::Int(1)).unwrap();
    let b = two.create_value("Finish".to_string(), &token("b"), Value::Str("s".to_string())).unwrap();
    assert_eq!(a.name_hash, b.name_hash);
    assert_ne!(a.index, b.index);
    let c = one.create_value("finish".to_string(), &token("a"), Value::Int(1)).unwrap();
    assert_ne!(a.name_hash, c.name_hash);
}

#[test]
fn a_write_changes_no_other_row() {
    let mut data = store();
    let owner = token("owner");
    let a = data.create_value("a".to_string(), &owner, Value::Int(0)).unwrap();
    let b = data.create_value("b".to_string(), &owner, Value::Int(100)).unwrap();
    let c = data.create_value("c".to_string(), &owner, Value::Str("c".to_string())).unwrap();
    for i in 1..=10 {
        assert_eq!(data.set_value(&a, &owner, Value::Int(i)), Ok(()));
        assert_eq!(data.get_value(&b), Ok(Value::Int(100)));
        assert_eq!(data.get_value(&c), Ok(Value::Str("c".to_string())));
    }
    assert_eq!(data.get_value(&a), Ok(Value::Int(10)));
}

#[test]
fn units_that_each_increment_their_own_slot_lose_no_update() {
    let mut data = store();
    let units = 4;
    let rounds: i64 = 10_000;
    let mut handles = Vec::new();
    for unit in 0..units {
        let owner = token(&format!("unit-{}", unit));
        let handle =
            data.create_value(format!("counter-{}", unit), &owner, Value::Int(0)).unwrap();
        handles.push((owner, handle));
    }
    // Every unit reads before any unit writes: the steps of the units are
    // interleaved as closely as they can be.
    for _ in 0..rounds {
        let mut seen = Vec::new();
        for (_, handle) in handles.iter() {
            match data.get_value(handle) {
                Ok(Value::Int(i)) => seen.push(i),
                other => panic!("unexpected {:?}", other),
            }
        }
        for ((owner, handle), i) in handles.iter().zip(seen).rev() {
            assert_eq!(data.set_value(handle, owner, Value::Int(i + 1)), Ok(()));
        }
    }
    for (_, handle) in handles.iter() {
        assert_eq!(data.get_value(handle), Ok(Value::Int(rounds)));
    }
}

#[test]
fn concurrent_units_that_each_increment_their_own_slot_lose_no_update() {
    let runtime = tokio::runtime::Builder::new_multi_thread().worker_threads(4).build().unwrap();
    let shared = std::sync::Arc::new(std::sync::RwLock::new(store()));
    let units = 4;
    let rounds: i64 = 10_000;
    let mut running = Vec::new();
    let mut handles = Vec::new();
    for unit in 0..units {
        let owner = token(&format!("unit-{}", unit));
        let handle = shared
            .write()
            .unwrap()
            .create_value(format!("counter-{}", unit), &owner, Value::Int(0))
            .unwrap();
        handles.push(handle);
        let shared = std::sync::Arc::clone(&shared);
        running.push(runtime.spawn_blocking(move || {
            for _ in 0..rounds {
                let seen = match shared.read().unwrap().get_value(&handle) {
                    Ok(Value::Int(i)) => i,
                    other => panic!("unexpected {:?}", other),
                };
                let written = shared.write().unwrap().set_value(&handle, &owner, Value::Int(seen + 1));
                assert_eq!(written, Ok(()));
            }
        }));
    }
    for unit in running {
        runtime.block_on(unit).unwrap();
    }
    for handle in handles {
        assert_eq!(shared.read().unwrap().get_value(&handle), Ok(Value::Int(rounds)));
    }
}
