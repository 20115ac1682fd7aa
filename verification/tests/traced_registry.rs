use adar::event::Event;
use adar::traced_registry::TracedRegistry;
use std::sync::atomic::{AtomicUsize, Ordering};
use std::sync::Arc;

#[test]
fn test_send_sync() {
    fn is_send_sync<T: Send + Sync>() {}
    fn is_clone<T: Clone>() {}

    is_send_sync::<Event<i32>>();
    is_clone::<Event<i32>>();
}

#[test]
fn traced_registry_test_attributes() {
    fn is_send_sync<T: Send + Sync>() {}
    fn is_clone<T: Clone>() {}

    is_send_sync::<TracedRegistry<i32>>();
    is_clone::<TracedRegistry<i32>>();
}

#[derive(Debug, PartialEq, Clone)]
struct TestData {
    value: i32,
}

#[test]
fn test_register_and_notify_multiple_observers() {
    let registry = TracedRegistry::new();

    let counter1 = Arc::new(AtomicUsize::new(0));
    let counter2 = Arc::new(AtomicUsize::new(0));
    let counter1_clone = Arc::clone(&counter1);
    let counter2_clone = Arc::clone(&counter2);

    let observer_function1 = move |_: &_| {
        counter1_clone.fetch_add(1, Ordering::Relaxed);
    };
    let observer_function2 = move |_: &_| {
        counter2_clone.fetch_add(1, Ordering::Relaxed);
    };

    let _entry1 = registry.register_observer(observer_function1).unwrap();
    let _entry2 = registry.register_observer(observer_function2).unwrap();

    let entry = registry.register(TestData { value: 42 }).unwrap();

    assert_eq!(counter1.load(Ordering::Relaxed), 1);
    assert_eq!(counter2.load(Ordering::Relaxed), 1);

    drop(entry);

    assert_eq!(counter1.load(Ordering::Relaxed), 2);
    assert_eq!(counter2.load(Ordering::Relaxed), 2);
}
