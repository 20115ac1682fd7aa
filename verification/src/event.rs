use crate::entry::{Entry, EntryId};
use crate::ordered_map::pair_of;
use crate::registry::{Registry, RegistryReadGuard};
use vstd::prelude::*;
use vstd::std_specs::iter::IteratorSpec;

verus! {

/// Something that is told of every event dispatched while it is registered.
pub trait EventObserver<Args>: Send + Sync {
    /// The events that the observer may be told of.
    spec fn accepts(&self, args: &Args) -> bool;

    /// What holds once the observer has been told of `args`.
    spec fn heard(&self, args: &Args) -> bool;

    fn notify(&self, args: &Args)
        requires
            self.accepts(args),
        ensures
            self.heard(args),
    ;
}

impl<O, Args> EventObserver<Args> for O where O: Fn(&Args) + Send + Sync {
    open spec fn accepts(&self, args: &Args) -> bool {
        call_requires(*self, (args,))
    }

    open spec fn heard(&self, args: &Args) -> bool {
        call_ensures(*self, (args,), ())
    }

    fn notify(&self, args: &Args) {
        self(args)
    }
}

/// A registered observer. It may be told of every event.
#[verifier::reject_recursive_types(Args)]
pub struct Observer<Args> {
    inner: Box<dyn EventObserver<Args>>,
}

impl<Args> Observer<Args> {
    #[verifier::type_invariant]
    spec fn total(self) -> bool {
        forall|args: Args| self.inner.accepts(&args)
    }

    /// What holds once the observer has been told of `args`.
    pub closed spec fn heard(&self, args: Args) -> bool {
        self.inner.heard(&args)
    }

    pub fn new<O>(observer: O) -> (wrapped: Self) where O: Fn(&Args) + Send + Sync + 'static
        requires
            forall|args: Args| call_requires(observer, (&args,)),
        ensures
            forall|args: Args| wrapped.heard(args) <==> call_ensures(observer, (&args,), ()),
    {
        Observer { inner: Box::new(observer) }
    }

    pub fn notify(&self, args: &Args)
        ensures
            self.heard(*args),
    {
        proof {
            use_type_invariant(self);
        }
        self.inner.notify(args)
    }
}

/// The observers under `guard` whose identifiers are `ids`, each with its identifier.
pub open spec fn listing<Args>(
    guard: &RegistryReadGuard<'_, Observer<Args>>,
    ids: Seq<EntryId>,
) -> Seq<(EntryId, Observer<Args>)> {
    ids.map_values(|id: EntryId| (id, guard@.slots[id]))
}

/// Tells every observer under the held lock of `args`, one after the other in the
/// order in which they were registered, and returns the identifiers of those told,
/// in the order in which they were told.
pub fn notify_all<Args: Send + Sync + 'static>(
    guard: &RegistryReadGuard<'_, Observer<Args>>,
    args: &Args,
) -> (told: Vec<EntryId>)
    requires
        guard.wf(),
    ensures
        guard@.listed_by(listing(guard, told@)),
        told@.len() == guard@.slots.len(),
        forall|i: int, j: int| 0 <= i < j < told@.len() ==> told@[i] < told@[j],
        forall|id: EntryId| #[trigger]
            guard@.slots.contains_key(id) ==> guard@.slots[id].heard(*args),
{
    let iter = guard.iter();
    let ghost pairs = iter.remaining().map_values(
        |item: (&EntryId, &Observer<Args>)| pair_of(item),
    );
    let mut told: Vec<EntryId> = Vec::new();
    for item in it: iter
        invariant
            guard@.listed_by(pairs),
            pairs == it.seq().map_values(|item: (&EntryId, &Observer<Args>)| pair_of(item)),
            told@.len() == it.index(),
            forall|i: int| 0 <= i < told@.len() ==> told@[i] == (#[trigger] pairs[i]).0,
            forall|i: int| 0 <= i < told@.len() ==> (#[trigger] pairs[i]).1.heard(*args),
    {
        let (id, observer) = item;
        observer.notify(args);
        told.push(*id);
    }
    proof {
        assert(listing(guard, told@) =~= pairs);
        assert forall|i: int, j: int| 0 <= i < j < told@.len() implies told@[i] < told@[j] by {
            assert(pairs[i].0 < pairs[j].0);
        }
    }
    told
}

/// A list of observers. Each stays registered for as long as the handle that
/// `register_observer` returned for it is held.
#[verifier::reject_recursive_types(Args)]
pub struct Event<Args> {
    observers: Registry<Observer<Args>>,
}

impl<Args: Send + Sync + 'static> Clone for Event<Args> {
    fn clone(&self) -> Self {
        Event { observers: self.observers.clone() }
    }
}

impl<Args: Send + Sync + 'static> Default for Event<Args> {
    fn default() -> Self {
        Event::new()
    }
}

impl<Args: Send + Sync + 'static> Event<Args> {
    pub fn new() -> Self {
        Event { observers: Registry::new() }
    }

    /// Registers `observer` and returns the handle that keeps it registered. The
    /// handle has no type: it only ends the registration when it is dropped.
    #[must_use]
    pub fn register_observer<O>(&self, observer: O) -> (entry: Option<Entry>) where
        O: Fn(&Args) + Send + Sync + 'static,

        requires
            forall|args: Args| call_requires(observer, (&args,)),
        ensures
            entry is Some ==> entry->0.armed() && !entry->0.typed(),
    {
        match self.observers.register(Observer::new(observer)) {
            Some(entry) => Some(entry.as_generic()),
            None => None,
        }
    }

    /// Takes the shared lock on the list of observers.
    pub fn read(&self) -> (guard: RegistryReadGuard<'_, Observer<Args>>)
        ensures
            guard.wf(),
            guard@.wf(),
    {
        self.observers.read()
    }

    /// Tells every registered observer of `args`, in the order in which they were
    /// registered, while holding the shared lock on the list.
    pub fn dispatch(&self, args: Args) {
        let guard = self.read();
        let _ = notify_all(&guard, &args);
    }
}

} // verus!
