use adar::registry_map::{RegistryMap, RegistryMapError};
use std::sync::{Arc, Mutex};

#[test]
fn keyed_register_and_look_up() {
    let registry = RegistryMap::<&'static str, i32>::new();
    assert!(registry.is_empty());
    let get_user = registry.register("get_user", 1).unwrap();
    let add_user = registry.register("add_user", 2).unwrap();
    assert_eq!(get_user.get_id(), 0);
    assert_eq!(add_user.get_id(), 1);
    assert_eq!(registry.len(), 2);
    assert!(!registry.is_empty());

    let guard = registry.read();
    assert_eq!(guard.get(&"get_user"), Some(&1));
    assert_eq!(guard.get(&"add_user"), Some(&2));
    assert_eq!(guard.get(&"drop_user"), None);
    assert_eq!(guard.len(), 2);
    assert!(!guard.is_empty());
    let listed: Vec<(&'static str, i32)> = guard.iter().map(|(key, value)| (*key, *value)).collect();
    assert_eq!(listed, vec![("add_user", 2), ("get_user", 1)]);
}

#[test]
fn keyed_duplicate_key_is_refused() {
    let registry = RegistryMap::<u64, String>::new();
    let first = registry.register(7, "first".to_string()).unwrap();
    let second = registry.register(7, "second".to_string());
    assert!(matches!(second, Err(RegistryMapError::KeyAlreadyExists)));
    assert_eq!(registry.len(), 1);
    assert_eq!(registry.read().get(&7).unwrap(), "first");

    drop(first);
    assert!(registry.is_empty());
    let third = registry.register(7, "third".to_string()).unwrap();
    assert_eq!(third.get_id(), 1);
    assert_eq!(registry.read().get(&7).unwrap(), "third");
}

#[test]
fn keyed_error_has_a_message() {
    assert_eq!(
        RegistryMapError::KeyAlreadyExists.message(),
        "Key already exists in registry!"
    );
    assert_eq!(
        RegistryMapError::Unavailable.message(),
        "No identifier is left in registry!"
    );
    assert_ne!(RegistryMapError::KeyAlreadyExists, RegistryMapError::Unavailable);
}

#[test]
fn keyed_handle_reaches_its_value() {
    let registry = RegistryMap::<u64, i32>::new();
    let ten = registry.register(10, 100).unwrap();
    let twenty = registry.register(20, 200).unwrap();
    assert_eq!(*ten.read().unwrap().get(), 100);
    assert_eq!(*twenty.read().unwrap().get(), 200);
    *ten.write().unwrap().get_mut() += 1;
    assert_eq!(*ten.write().unwrap().get(), 101);
    assert_eq!(registry.read().get(&10), Some(&101));
    assert_eq!(registry.read().get(&20), Some(&200));
}

#[test]
fn keyed_write_guard_changes_values() {
    let registry = RegistryMap::<u64, i32>::new();
    let _one = registry.register(1, 11).unwrap();
    let _two = registry.register(2, 22).unwrap();
    for (_, value) in registry.write().iter_mut() {
        *value *= 2;
    }
    {
        let mut guard = registry.write();
        *guard.get_mut(&2).unwrap() += 1;
        assert!(guard.get_mut(&3).is_none());
        assert_eq!(guard.get(&1), Some(&22));
        let listed: Vec<(u64, i32)> = guard.iter().map(|(key, value)| (*key, *value)).collect();
        assert_eq!(listed, vec![(1, 22), (2, 45)]);
    }
    assert_eq!(registry.read().get(&2), Some(&45));
}

#[test]
fn keyed_callback_is_told_of_key_and_value() {
    let told: Arc<Mutex<Vec<(u32, u64, String)>>> = Arc::new(Mutex::new(Vec::new()));
    let registry = RegistryMap::<u64, String>::new();
    let sink = told.clone();
    registry.set_remove_callback(move |id: u32, key: u64, value: String| {
        sink.lock().unwrap().push((id, key, value));
    });
    let a = registry.register(30, "a".to_string()).unwrap();
    let b = registry.register(10, "b".to_string()).unwrap();
    let c = registry.register(20, "c".to_string()).unwrap().as_generic();
    drop(b);
    assert_eq!(registry.len(), 2);
    assert!(registry.read().get(&10).is_none());
    drop(c);
    drop(a);
    assert!(registry.is_empty());
    assert_eq!(
        *told.lock().unwrap(),
        vec![
            (1, 10, "b".to_string()),
            (2, 20, "c".to_string()),
            (0, 30, "a".to_string())
        ]
    );
}

#[test]
fn keyed_handles_outlive_their_registry() {
    let calls = Arc::new(Mutex::new(0u32));
    let registry = RegistryMap::<u64, i32>::new();
    let sink = calls.clone();
    registry.set_remove_callback(move |_: u32, _: u64, _: i32| {
        *sink.lock().unwrap() += 1;
    });
    let copy = registry.clone();
    let entry = registry.register(1, 11).unwrap();
    drop(registry);
    assert!(entry.read().is_some());
    assert_eq!(copy.len(), 1);
    drop(copy);
    assert!(entry.read().is_none());
    assert!(entry.write().is_none());
    drop(entry);
    assert_eq!(*calls.lock().unwrap(), 0);
}

#[test]
fn keyed_registering_under_a_held_lock() {
    let registry = RegistryMap::<u64, i32>::new();
    let entry = {
        let mut guard = registry.write();
        let entry = guard.register(5, 50).unwrap();
        assert!(matches!(
            guard.register(5, 51),
            Err(RegistryMapError::KeyAlreadyExists)
        ));
        assert_eq!(guard.get(&5), Some(&50));
        entry
    };
    assert_eq!(entry.get_id(), 0);
    assert_eq!(registry.len(), 1);
    drop(entry);
    assert!(registry.is_empty());
}

#[test]
fn keyed_released_guard_gives_the_lock_back() {
    let registry = RegistryMap::<u64, i32>::new();
    let _entry = registry.register(1, 10).unwrap();
    let mut reading = registry.read();
    assert_eq!(reading.get(&1), Some(&10));
    reading.release();
    let mut writing = registry.write();
    *writing.get_mut(&1).unwrap() = 11;
    writing.release();
    assert_eq!(registry.read().get(&1), Some(&11));
}

#[test]
fn keyed_held_lock_narrows_to_one_slot() {
    let registry = RegistryMap::<u64, i32>::new();
    let _entry = registry.register(5, 50).unwrap();
    {
        let reading = registry.read().into_entry(0).unwrap();
        assert_eq!(*reading.get(), 50);
    }
    assert!(registry.read().into_entry(1).is_none());
    {
        let mut writing = registry.write().into_entry(0).unwrap();
        *writing.get_mut() = 51;
    }
    assert!(registry.write().into_entry(3).is_none());
    assert_eq!(registry.read().get(&5), Some(&51));
}
