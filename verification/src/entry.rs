use vstd::pervasive::unreached;
use vstd::prelude::*;

verus! {

/// Identifier of a slot. One registry never issues the same identifier twice.
pub type EntryId = u32;

/// What a handle needs of the registry that issued it, whatever the registry stores:
/// to have its slot removed.
pub trait RegistryInterface: Send + Sync {
    /// Removes the slot `id` under the registry's exclusive lock and tells the removal
    /// callback. Does nothing where the registry is closed or the slot is gone.
    fn remove(&self, id: EntryId);
}

/// Locked read access to the slots of a registry that stores values of type `T`.
pub trait SlotRead<T> {
    spec fn valid(&self) -> bool;

    /// The value of slot `id` while the lock is held.
    spec fn content(&self, id: EntryId) -> Option<T>;

    fn slot(&self, id: EntryId) -> (value: Option<&T>)
        requires
            self.valid(),
        ensures
            value == match self.content(id) {
                Some(v) => Some(&v),
                None => None,
            },
    ;
}

/// Locked write access to the slots of a registry that stores values of type `T`.
pub trait SlotWrite<T> {
    spec fn valid(&self) -> bool;

    /// The value of slot `id` while the lock is held.
    spec fn content(&self, id: EntryId) -> Option<T>;

    fn slot(&self, id: EntryId) -> (value: Option<&T>)
        requires
            self.valid(),
        ensures
            value == match self.content(id) {
                Some(v) => Some(&v),
                None => None,
            },
    ;

    fn slot_mut(&mut self, id: EntryId) -> (value: Option<&mut T>)
        requires
            old(self).valid(),
        ensures
            final(self).valid(),
            match value {
                Some(v) => old(self).content(id) == Some(*v) && final(self).content(id) == Some(
                    *final(v),
                ),
                None => old(self).content(id) is None && final(self).content(id) is None,
            },
    ;
}

/// What a typed handle needs of the registry that issued it: to lock it and reach one
/// slot, unless the registry is closed or the slot is gone.
pub trait SlotAccess<T>: Send + Sync {
    /// Takes the shared lock. `None`, with the lock released, where the registry is
    /// closed or has no slot `id`.
    fn read_slot<'a>(&'a self, id: EntryId) -> (guard: Option<EntryReadGuard<'a, T>>)
        ensures
            guard is Some ==> guard->0.wf() && guard->0.id() == id,
    ;

    /// Takes the exclusive lock. `None`, with the lock released, where the registry is
    /// closed or has no slot `id`.
    fn write_slot<'a>(&'a self, id: EntryId) -> (guard: Option<EntryWriteGuard<'a, T>>)
        ensures
            guard is Some ==> guard->0.wf() && guard->0.id() == id,
    ;
}

/// A handle on one slot of one registry. The slot lives as long as its handle: when the
/// handle is dropped the slot is removed. A handle does not keep the registry's
/// contents alive.
#[verifier::reject_recursive_types(T)]
pub struct Entry<T = ()> {
    owner: Option<Box<dyn RegistryInterface>>,
    access: Option<Box<dyn SlotAccess<T>>>,
    id: EntryId,
}

impl<T> Entry<T> {
    /// The identifier of the slot.
    pub closed spec fn id(&self) -> EntryId {
        self.id
    }

    /// Whether the handle still has its slot to remove. A handle that was erased,
    /// leaked or revoked has passed that duty on, or given it up.
    pub closed spec fn armed(&self) -> bool {
        self.owner is Some
    }

    /// Whether the handle can reach its value. An erased handle cannot.
    pub closed spec fn typed(&self) -> bool {
        self.access is Some
    }

    pub fn new(
        owner: Box<dyn RegistryInterface>,
        access: Box<dyn SlotAccess<T>>,
        id: EntryId,
    ) -> (entry: Self)
        ensures
            entry.id() == id,
            entry.armed(),
            entry.typed(),
    {
        Entry { owner: Some(owner), access: Some(access), id }
    }

    /// Gives up the type of the value and keeps the duty to remove the slot. The duty
    /// moves to the new handle: this one is left disarmed, so the slot is removed once.
    pub fn as_generic(self) -> (erased: Entry<()>)
        ensures
            erased.id() == self.id(),
            erased.armed() == self.armed(),
            !erased.typed(),
    {
        let mut source = self;
        let owner = source.owner.take();
        let id: EntryId = source.id;
        Entry { owner, access: None, id }
    }

    /// Locks the registry for writing and returns a guard on this handle's value.
    /// `None` where the registry is closed or the slot is gone.
    pub fn write(&self) -> (guard: Option<EntryWriteGuard<'_, T>>)
        requires
            self.typed(),
        ensures
            guard is Some ==> guard->0.wf() && guard->0.id() == self.id(),
    {
        match &self.access {
            Some(access) => access.write_slot(self.id),
            None => None,
        }
    }

    /// Locks the registry for reading and returns a guard on this handle's value.
    /// `None` where the registry is closed or the slot is gone.
    pub fn read(&self) -> (guard: Option<EntryReadGuard<'_, T>>)
        requires
            self.typed(),
        ensures
            guard is Some ==> guard->0.wf() && guard->0.id() == self.id(),
    {
        match &self.access {
            Some(access) => access.read_slot(self.id),
            None => None,
        }
    }

    pub fn get_id(&self) -> (id: EntryId)
        ensures
            id == self.id(),
    {
        self.id
    }

    /// Gives up the duty to remove the slot: the slot then stays until the registry is
    /// closed. Meant for experiments only.
    pub fn leak(self) {
        let mut source = self;
        let _ = source.owner.take();
    }

    /// Removes the slot, if this handle still has that duty, and disarms the handle.
    /// Dropping a handle does exactly this.
    pub fn revoke(&mut self)
        ensures
            !final(self).armed(),
            final(self).id() == old(self).id(),
            final(self).typed() == old(self).typed(),
    {
        match self.owner.take() {
            Some(owner) => {
                owner.remove(self.id);
            },
            None => {},
        }
    }
}

impl<T> Drop for Entry<T> {
    /// Runs `revoke`. Verus asks of every `drop` that it neither unwinds nor opens an
    /// invariant, which cannot be shown of a call into a lock or into a callback, so
    /// this body is not verified.
    #[verifier::external_body]
    fn drop(&mut self)
        opens_invariants none
        no_unwind
    {
        self.revoke();
    }
}

/// Exclusive access to the value of one slot. The registry stays locked while the guard
/// lives.
#[verifier::reject_recursive_types(T)]
pub struct EntryWriteGuard<'a, T> {
    pub(crate) guard: Box<dyn SlotWrite<T> + 'a>,
    pub(crate) entry_id: EntryId,
}

impl<'a, T> View for EntryWriteGuard<'a, T> {
    type V = T;

    /// The value of the slot.
    closed spec fn view(&self) -> T {
        self.guard.content(self.entry_id)->0
    }
}

impl<'a, T> EntryWriteGuard<'a, T> {
    /// The lock is held and the slot is live.
    pub closed spec fn wf(&self) -> bool {
        self.guard.valid() && self.guard.content(self.entry_id) is Some
    }

    pub closed spec fn id(&self) -> EntryId {
        self.entry_id
    }

    /// What `wf`, `id` and the view mean, for the code that builds a guard.
    pub(crate) proof fn describe(&self)
        ensures
            self.wf() <==> self.guard.valid() && self.guard.content(self.entry_id) is Some,
            self.id() == self.entry_id,
            self@ == self.guard.content(self.entry_id)->0,
    {
    }

    pub fn get(&self) -> (value: &T)
        requires
            self.wf(),
        ensures
            *value == self@,
    {
        match self.guard.slot(self.entry_id) {
            Some(value) => value,
            None => unreached(),
        }
    }

    pub fn get_mut(&mut self) -> (value: &mut T)
        requires
            old(self).wf(),
        ensures
            *value == old(self)@,
            final(self)@ == *final(value),
            final(self).wf(),
            final(self).id() == old(self).id(),
    {
        match self.guard.slot_mut(self.entry_id) {
            Some(value) => value,
            None => unreached(),
        }
    }
}

/// Shared access to the value of one slot. The registry stays locked while the guard
/// lives.
#[verifier::reject_recursive_types(T)]
pub struct EntryReadGuard<'a, T> {
    pub(crate) guard: Box<dyn SlotRead<T> + 'a>,
    pub(crate) entry_id: EntryId,
}

impl<'a, T> View for EntryReadGuard<'a, T> {
    type V = T;

    /// The value of the slot.
    closed spec fn view(&self) -> T {
        self.guard.content(self.entry_id)->0
    }
}

impl<'a, T> EntryReadGuard<'a, T> {
    /// The lock is held and the slot is live.
    pub closed spec fn wf(&self) -> bool {
        self.guard.valid() && self.guard.content(self.entry_id) is Some
    }

    pub closed spec fn id(&self) -> EntryId {
        self.entry_id
    }

    /// What `wf`, `id` and the view mean, for the code that builds a guard.
    pub(crate) proof fn describe(&self)
        ensures
            self.wf() <==> self.guard.valid() && self.guard.content(self.entry_id) is Some,
            self.id() == self.entry_id,
            self@ == self.guard.content(self.entry_id)->0,
    {
    }

    pub fn get(&self) -> (value: &T)
        requires
            self.wf(),
        ensures
            *value == self@,
    {
        match self.guard.slot(self.entry_id) {
            Some(value) => value,
            None => unreached(),
        }
    }
}

} // verus!
