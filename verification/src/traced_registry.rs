use crate::entry::{Entry, EntryId};
use crate::event::{listing, notify_all, Event, Observer};
use crate::registry::{Registry, RegistryReadGuard, RegistryWriteGuard};
use vstd::prelude::*;

verus! {

/// What happened to a slot of a traced registry.
#[derive(Clone, Copy, Debug, PartialEq, Eq, Structural)]
pub enum TracedRegistryEvent {
    Register,
    UnRegister,
}

/// What observers are told when `value` has been registered under `id`.
pub open spec fn register_event<T>(id: EntryId, value: T) -> (TracedRegistryEvent, EntryId, T) {
    (TracedRegistryEvent::Register, id, value)
}

/// What observers are told when the slot `id`, which held `value`, has been removed.
pub open spec fn unregister_event<T>(id: EntryId, value: T) -> (
    TracedRegistryEvent,
    EntryId,
    T,
) {
    (TracedRegistryEvent::UnRegister, id, value)
}

/// Registers a clone of `value` under the held lock and returns the handle that owns
/// the slot. `None`, with nothing changed, where the registry has issued every
/// identifier or is closed.
pub fn register_copy<T: Send + Sync + Clone + 'static>(
    guard: &mut RegistryWriteGuard<'_, T>,
    value: &T,
) -> (entry: Option<Entry<T>>)
    requires
        old(guard).wf(),
    ensures
        final(guard).wf(),
        final(guard).callback_kept(old(guard)),
        entry is Some <==> old(guard)@.accepting(),
        entry is Some ==> entry->0.armed() && entry->0.typed() && entry->0.id() == old(
            guard,
        )@.upcoming() && exists|copy: T|
            cloned(*value, copy) && final(guard)@ == old(guard)@.registered(copy),
        entry is None ==> final(guard)@ == old(guard)@,
{
    let copy = value.clone();
    let ghost registered = copy;
    let entry = guard.register(copy);
    proof {
        assert(cloned(*value, registered));
        if entry is Some {
            assert(guard@ == old(guard)@.registered(registered));
        }
    }
    entry
}

/// Tells every observer under the held lock that `value` has been registered under
/// `id`: each is handed one `Register` event with `id` and `value`, in the order in
/// which the observers were registered. Returns the identifiers of the observers
/// told, in that order.
pub fn tell_registered<T: Send + Sync + 'static>(
    observers: &RegistryReadGuard<'_, Observer<(TracedRegistryEvent, EntryId, T)>>,
    id: EntryId,
    value: T,
) -> (told: Vec<EntryId>)
    requires
        observers.wf(),
    ensures
        observers@.listed_by(listing(observers, told@)),
        told@.len() == observers@.slots.len(),
        forall|o: EntryId| #[trigger]
            observers@.slots.contains_key(o) ==> observers@.slots[o].heard(
                register_event(id, value),
            ),
{
    let event = (TracedRegistryEvent::Register, id, value);
    notify_all(observers, &event)
}

/// Tells every observer under the held lock that the slot `id`, which held `value`,
/// has been removed: each is handed one `UnRegister` event with `id` and `value`, in
/// the order in which the observers were registered. Returns the identifiers of the
/// observers told, in that order.
pub fn tell_unregistered<T: Send + Sync + 'static>(
    observers: &RegistryReadGuard<'_, Observer<(TracedRegistryEvent, EntryId, T)>>,
    id: EntryId,
    value: T,
) -> (told: Vec<EntryId>)
    requires
        observers.wf(),
    ensures
        observers@.listed_by(listing(observers, told@)),
        told@.len() == observers@.slots.len(),
        forall|o: EntryId| #[trigger]
            observers@.slots.contains_key(o) ==> observers@.slots[o].heard(
                unregister_event(id, value),
            ),
{
    let event = (TracedRegistryEvent::UnRegister, id, value);
    notify_all(observers, &event)
}

/// A registry that tells its observers of every value that is registered and of every
/// value that a handle removes.
#[verifier::reject_recursive_types(T)]
pub struct TracedRegistry<T> {
    registry: Registry<T>,
    event: Event<(TracedRegistryEvent, EntryId, T)>,
}

impl<T: Send + Sync + Clone + 'static> Clone for TracedRegistry<T> {
    fn clone(&self) -> Self {
        TracedRegistry { registry: self.registry.clone(), event: self.event.clone() }
    }
}

impl<T: Send + Sync + Clone + 'static> Default for TracedRegistry<T> {
    fn default() -> Self {
        TracedRegistry::new()
    }
}

impl<T: Send + Sync + Clone + 'static> TracedRegistry<T> {
    /// Makes an empty registry whose removal callback dispatches an `UnRegister`
    /// event with the identifier and the value of the removed slot.
    pub fn new() -> Self {
        let registry = Registry::new();
        let event = Event::new();
        let teller = event.clone();
        registry.set_remove_callback(
            move |entry_id: EntryId, value: T|
                {
                    let observers = teller.read();
                    let _ = tell_unregistered(&observers, entry_id, value);
                },
        );
        TracedRegistry { registry, event }
    }

    /// Registers a clone of `value` and then dispatches a `Register` event with the
    /// identifier that was issued and with `value`. `None`, with nothing dispatched,
    /// where every identifier has been issued.
    #[must_use]
    pub fn register(&self, value: T) -> (entry: Option<Entry<T>>)
        ensures
            entry is Some ==> entry->0.armed() && entry->0.typed(),
    {
        let mut guard = self.registry.write();
        let issued = register_copy(&mut guard, &value);
        guard.release();
        match issued {
            Some(entry) => {
                let observers = self.event.read();
                let _ = tell_registered(&observers, entry.get_id(), value);
                Some(entry)
            },
            None => None,
        }
    }

    /// Registers `observer` and returns the handle that keeps it registered.
    #[must_use]
    pub fn register_observer<O>(&self, observer: O) -> (entry: Option<Entry>) where
        O: Fn(&(TracedRegistryEvent, EntryId, T)) + Send + Sync + 'static,

        requires
            forall|args: (TracedRegistryEvent, EntryId, T)| call_requires(observer, (&args,)),
        ensures
            entry is Some ==> entry->0.armed() && !entry->0.typed(),
    {
        self.event.register_observer(observer)
    }

    /// The number of live slots at the moment the shared lock was held: no more than
    /// there are identifiers.
    pub fn len(&self) -> (n: usize)
        ensures
            n <= u32::MAX,
    {
        self.registry.len()
    }

    /// Whether no slot was live at the moment the shared lock was held.
    pub fn is_empty(&self) -> bool {
        self.registry.is_empty()
    }

    /// Takes the shared lock.
    pub fn read(&self) -> (guard: RegistryReadGuard<'_, T>)
        ensures
            guard.wf(),
            guard@.wf(),
    {
        self.registry.read()
    }

    /// Takes the exclusive lock.
    pub fn write(&self) -> (guard: RegistryWriteGuard<'_, T>)
        ensures
            guard.wf(),
            guard@.wf(),
    {
        self.registry.write()
    }
}

} // verus!
