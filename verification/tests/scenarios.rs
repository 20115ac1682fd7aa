use adar::entry::Entry;
use adar::event::Event;
use adar::registry::Registry;
use adar::traced_registry::{TracedRegistry, TracedRegistryEvent};
use std::sync::{Arc, Mutex};

fn pairs(registry: &Registry<i32>) -> Vec<(u32, i32)> {
    let guard = registry.read();
    let mut listed = Vec::new();
    for (id, value) in guard.iter() {
        listed.push((*id, *value));
    }
    listed
}

#[test]
fn registry_mutation_scenario() {
    let r = Registry::<i32>::new();
    let e1 = r.register(0).unwrap();
    let e2 = r.register(100).unwrap();
    assert_eq!(pairs(&r), vec![(0, 0), (1, 100)]);

    for (_, value) in r.write().iter_mut() {
        *value += 1;
    }
    assert_eq!(pairs(&r), vec![(0, 1), (1, 101)]);

    *e1.write().unwrap().get_mut() += 10;
    *e2.write().unwrap().get_mut() += 10;
    assert_eq!(pairs(&r), vec![(0, 11), (1, 111)]);

    drop(e1);
    assert_eq!(pairs(&r), vec![(1, 111)]);
    drop(e2);
    assert!(pairs(&r).is_empty());
    assert_eq!(r.len(), 0);
    assert!(r.is_empty());
}

#[test]
fn event_dispatch_scenario() {
    let heard: Arc<Mutex<Vec<(u32, u32, String)>>> = Arc::new(Mutex::new(Vec::new()));
    let event: Event<(u32, String)> = Event::new();

    let first = heard.clone();
    let entry1 = event
        .register_observer(move |args: &(u32, String)| {
            first.lock().unwrap().push((1, args.0, args.1.clone()));
        })
        .unwrap();
    let second = heard.clone();
    let entry2 = event
        .register_observer(move |args: &(u32, String)| {
            second.lock().unwrap().push((2, args.0, args.1.clone()));
        })
        .unwrap();

    event.dispatch((1, "x".to_string()));
    assert_eq!(
        *heard.lock().unwrap(),
        vec![(1, 1, "x".to_string()), (2, 1, "x".to_string())]
    );

    heard.lock().unwrap().clear();
    drop(entry1);
    event.dispatch((2, "y".to_string()));
    assert_eq!(*heard.lock().unwrap(), vec![(2, 2, "y".to_string())]);

    heard.lock().unwrap().clear();
    drop(entry2);
    event.dispatch((3, "z".to_string()));
    assert!(heard.lock().unwrap().is_empty());
}

#[test]
fn event_clone_shares_the_observers() {
    let count = Arc::new(Mutex::new(0u32));
    let event: Event<u32> = Event::default();
    let copy = event.clone();
    let seen = count.clone();
    let _entry = copy
        .register_observer(move |step: &u32| {
            *seen.lock().unwrap() += *step;
        })
        .unwrap();
    event.dispatch(5);
    copy.dispatch(7);
    assert_eq!(*count.lock().unwrap(), 12);
}

#[test]
fn identifiers_are_never_issued_twice() {
    let r = Registry::<&'static str>::new();
    let a = r.register("a").unwrap();
    let b = r.register("b").unwrap();
    assert_eq!(a.get_id(), 0);
    assert_eq!(b.get_id(), 1);
    drop(a);
    let c = r.register("c").unwrap();
    assert_eq!(c.get_id(), 2);
    drop(b);
    drop(c);
    assert!(r.is_empty());
    let d = r.register("d").unwrap();
    assert_eq!(d.get_id(), 3);
    assert_eq!(*r.read().get(3).unwrap(), "d");
    assert!(r.read().get(0).is_none());
}

#[test]
fn callback_is_told_of_every_dropped_slot() {
    let told: Arc<Mutex<Vec<(u32, String)>>> = Arc::new(Mutex::new(Vec::new()));
    let r = Registry::<String>::new();
    let sink = told.clone();
    r.set_remove_callback(move |id: u32, value: String| {
        sink.lock().unwrap().push((id, value));
    });
    let e0 = r.register("zero".to_string()).unwrap();
    let e1 = r.register("one".to_string()).unwrap();
    let e2 = r.register("two".to_string()).unwrap();
    assert_eq!(r.len(), 3);

    drop(e1);
    assert_eq!(r.len(), 2);
    assert!(r.read().get(1).is_none());
    assert_eq!(r.read().get(0).unwrap(), "zero");
    assert_eq!(r.read().get(2).unwrap(), "two");
    drop(e2);
    drop(e0);

    assert!(r.is_empty());
    assert_eq!(
        *told.lock().unwrap(),
        vec![
            (1, "one".to_string()),
            (2, "two".to_string()),
            (0, "zero".to_string())
        ]
    );
}

#[test]
fn a_new_callback_replaces_the_old_one() {
    let old_calls = Arc::new(Mutex::new(0u32));
    let new_calls = Arc::new(Mutex::new(0u32));
    let r = Registry::<i32>::new();
    let old_sink = old_calls.clone();
    r.set_remove_callback(move |_: u32, _: i32| {
        *old_sink.lock().unwrap() += 1;
    });
    let new_sink = new_calls.clone();
    r.set_remove_callback(move |_: u32, _: i32| {
        *new_sink.lock().unwrap() += 1;
    });
    drop(r.register(1).unwrap());
    assert_eq!(*old_calls.lock().unwrap(), 0);
    assert_eq!(*new_calls.lock().unwrap(), 1);
}

#[test]
fn erased_handle_removes_its_slot_once() {
    let calls = Arc::new(Mutex::new(Vec::new()));
    let r = Registry::<i32>::new();
    let sink = calls.clone();
    r.set_remove_callback(move |id: u32, value: i32| {
        sink.lock().unwrap().push((id, value));
    });
    let typed = r.register(7).unwrap();
    let erased: Entry = typed.as_generic();
    assert_eq!(erased.get_id(), 0);
    assert_eq!(r.len(), 1);
    assert!(calls.lock().unwrap().is_empty());
    drop(erased);
    assert_eq!(r.len(), 0);
    assert_eq!(*calls.lock().unwrap(), vec![(0, 7)]);
}

#[test]
fn revoked_handle_is_disarmed() {
    let calls = Arc::new(Mutex::new(0u32));
    let r = Registry::<i32>::new();
    let sink = calls.clone();
    r.set_remove_callback(move |_: u32, _: i32| {
        *sink.lock().unwrap() += 1;
    });
    let mut entry = r.register(7).unwrap();
    entry.revoke();
    assert_eq!(r.len(), 0);
    assert!(entry.read().is_none());
    entry.revoke();
    drop(entry);
    assert_eq!(*calls.lock().unwrap(), 1);
}

#[test]
fn leaked_handle_leaves_its_slot() {
    let r = Registry::<i32>::new();
    r.register(5).unwrap().leak();
    assert_eq!(r.len(), 1);
    assert_eq!(*r.read().get(0).unwrap(), 5);
}

#[test]
fn unused_handle_is_revoked_at_once() {
    let r = Registry::<i32>::new();
    let _ = r.register(5);
    assert!(r.is_empty());
}

#[test]
fn handles_outlive_their_registry() {
    let calls = Arc::new(Mutex::new(0u32));
    let r = Registry::<i32>::new();
    let sink = calls.clone();
    r.set_remove_callback(move |_: u32, _: i32| {
        *sink.lock().unwrap() += 1;
    });
    let copy = r.clone();
    let entry = r.register(11).unwrap();
    drop(r);
    assert_eq!(*entry.read().unwrap().get(), 11);
    assert_eq!(copy.len(), 1);
    drop(copy);
    assert!(entry.read().is_none());
    assert!(entry.write().is_none());
    assert_eq!(entry.get_id(), 0);
    let erased = entry.as_generic();
    drop(erased);
    assert_eq!(*calls.lock().unwrap(), 0);
}

#[test]
fn guards_look_up_by_identifier() {
    let r = Registry::<i32>::new();
    let _e0 = r.register(10).unwrap();
    let _e1 = r.register(20).unwrap();
    {
        let guard = r.read();
        assert_eq!(guard.get(0), Some(&10));
        assert_eq!(guard.get(1), Some(&20));
        assert_eq!(guard.get(2), None);
        assert_eq!(guard.len(), 2);
        assert!(!guard.is_empty());
    }
    {
        let mut guard = r.write();
        *guard.get_mut(1).unwrap() = 21;
        assert!(guard.get_mut(7).is_none());
        assert_eq!(guard.get(1), Some(&21));
        let listed: Vec<(u32, i32)> = guard.iter().map(|(id, value)| (*id, *value)).collect();
        assert_eq!(listed, vec![(0, 10), (1, 21)]);
    }
    assert_eq!(*r.read().get(1).unwrap(), 21);
}

#[test]
fn registry_default_is_empty() {
    let r: Registry<u8> = Registry::default();
    assert!(r.is_empty());
    assert_eq!(r.len(), 0);
}

#[test]
fn traced_registry_tells_of_register_then_unregister() {
    let log: Arc<Mutex<Vec<(TracedRegistryEvent, u32, &'static str)>>> =
        Arc::new(Mutex::new(Vec::new()));
    let registry = TracedRegistry::<&'static str>::new();
    let sink = log.clone();
    let _observer = registry
        .register_observer(move |event: &(TracedRegistryEvent, u32, &'static str)| {
            sink.lock().unwrap().push(*event);
        })
        .unwrap();

    let foo = registry.register("foo").unwrap();
    let bar = registry.register("bar").unwrap();
    assert_eq!(registry.len(), 2);
    assert!(!registry.is_empty());
    assert_eq!(registry.read().get(0), Some(&"foo"));
    drop(foo);
    let baz = registry.register("baz").unwrap();
    *registry.write().get_mut(1).unwrap() = "BAR";
    drop(bar);
    drop(baz);

    assert_eq!(
        *log.lock().unwrap(),
        vec![
            (TracedRegistryEvent::Register, 0, "foo"),
            (TracedRegistryEvent::Register, 1, "bar"),
            (TracedRegistryEvent::UnRegister, 0, "foo"),
            (TracedRegistryEvent::Register, 2, "baz"),
            (TracedRegistryEvent::UnRegister, 1, "BAR"),
            (TracedRegistryEvent::UnRegister, 2, "baz"),
        ]
    );
    assert!(registry.is_empty());
}

#[test]
fn traced_registry_clone_shares_slots_and_observers() {
    let count = Arc::new(Mutex::new(0u32));
    let registry = TracedRegistry::<i32>::default();
    let copy = registry.clone();
    let sink = count.clone();
    let _observer = copy
        .register_observer(move |_: &(TracedRegistryEvent, u32, i32)| {
            *sink.lock().unwrap() += 1;
        })
        .unwrap();
    let entry = registry.register(1).unwrap();
    assert_eq!(copy.len(), 1);
    drop(entry);
    assert_eq!(*count.lock().unwrap(), 2);
}

#[test]
fn registering_under_a_held_lock() {
    let r = Registry::<i32>::new();
    let (first, second) = {
        let mut guard = r.write();
        let first = guard.register(1).unwrap();
        let second = guard.register(2).unwrap();
        assert_eq!(guard.get(0), Some(&1));
        assert_eq!(guard.get(1), Some(&2));
        (first, second)
    };
    assert_eq!(first.get_id(), 0);
    assert_eq!(second.get_id(), 1);
    assert_eq!(*second.read().unwrap().get(), 2);
    drop(first);
    assert_eq!(pairs(&r), vec![(1, 2)]);
    drop(second);
    assert!(r.is_empty());
}

#[test]
fn released_guard_gives_the_lock_back() {
    let r = Registry::<i32>::new();
    let entry = r.register(3).unwrap();
    let mut reading = r.read();
    assert_eq!(reading.get(0), Some(&3));
    reading.release();
    let mut writing = r.write();
    *writing.get_mut(0).unwrap() = 4;
    writing.release();
    writing.release();
    assert_eq!(*entry.read().unwrap().get(), 4);
    drop(reading);
    drop(writing);
    assert_eq!(r.len(), 1);
}

#[test]
fn held_lock_narrows_to_one_slot() {
    let r = Registry::<i32>::new();
    let _first = r.register(10).unwrap();
    let _second = r.register(20).unwrap();
    {
        let reading = r.read().into_entry(1).unwrap();
        assert_eq!(*reading.get(), 20);
    }
    assert!(r.read().into_entry(2).is_none());
    {
        let mut writing = r.write().into_entry(0).unwrap();
        *writing.get_mut() += 1;
        assert_eq!(*writing.get(), 11);
    }
    assert!(r.write().into_entry(7).is_none());
    assert_eq!(pairs(&r), vec![(0, 11), (1, 20)]);
}

#[test]
fn observers_are_told_in_registration_order() {
    let heard: Arc<Mutex<Vec<(u32, u32)>>> = Arc::new(Mutex::new(Vec::new()));
    let event: Event<u32> = Event::new();
    let mut handles = Vec::new();
    for observer in 0..4u32 {
        let sink = heard.clone();
        handles.push(
            event
                .register_observer(move |args: &u32| {
                    sink.lock().unwrap().push((observer, *args));
                })
                .unwrap(),
        );
    }
    drop(handles.remove(1));
    let told = adar::event::notify_all(&event.read(), &9);
    assert_eq!(told, vec![0, 2, 3]);
    assert_eq!(*heard.lock().unwrap(), vec![(0, 9), (2, 9), (3, 9)]);
    assert_eq!(event.read().len(), 3);
    assert!(adar::event::notify_all(&Event::<u32>::new().read(), &1).is_empty());
}

#[test]
fn traced_events_are_made_from_identifier_and_value() {
    let log: Arc<Mutex<Vec<(TracedRegistryEvent, u32, i32)>>> = Arc::new(Mutex::new(Vec::new()));
    let event: Event<(TracedRegistryEvent, u32, i32)> = Event::new();
    let sink = log.clone();
    let _first = event
        .register_observer(move |event: &(TracedRegistryEvent, u32, i32)| {
            sink.lock().unwrap().push(*event);
        })
        .unwrap();
    let sink = log.clone();
    let _second = event
        .register_observer(move |event: &(TracedRegistryEvent, u32, i32)| {
            sink.lock().unwrap().push(*event);
        })
        .unwrap();

    let told = adar::traced_registry::tell_registered(&event.read(), 7, 70);
    assert_eq!(told, vec![0, 1]);
    let told = adar::traced_registry::tell_unregistered(&event.read(), 8, 80);
    assert_eq!(told, vec![0, 1]);
    assert_eq!(
        *log.lock().unwrap(),
        vec![
            (TracedRegistryEvent::Register, 7, 70),
            (TracedRegistryEvent::Register, 7, 70),
            (TracedRegistryEvent::UnRegister, 8, 80),
            (TracedRegistryEvent::UnRegister, 8, 80),
        ]
    );
}

#[test]
fn a_copy_is_registered_under_a_held_lock() {
    let r = Registry::<String>::new();
    let value = "kept".to_string();
    let entry = {
        let mut guard = r.write();
        let entry = adar::traced_registry::register_copy(&mut guard, &value).unwrap();
        assert_eq!(guard.get(0), Some(&value));
        entry
    };
    assert_eq!(entry.get_id(), 0);
    assert_eq!(*entry.read().unwrap().get(), "kept");
    assert_eq!(value, "kept");
}
