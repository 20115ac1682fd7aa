use crate::entry::{
    Entry, EntryId, EntryReadGuard, EntryWriteGuard, RegistryInterface, SlotAccess, SlotRead,
    SlotWrite,
};
use crate::ordered_map::{
    ascending, ascending_mut, in_key_order, map_get_mut, pair_of, pair_of_mut,
};
use std::collections::btree_map::{Iter, IterMut};
use std::collections::BTreeMap;
use std::sync::Arc;
use vstd::pervasive::unreached;
use vstd::prelude::*;
use vstd::rwlock::{ReadHandle, RwLock, RwLockPredicate, WriteHandle};
use vstd::std_specs::iter::IteratorSpec;

verus! {

broadcast use vstd::std_specs::btree::group_btree_axioms;

/// A function that is told which slot was removed, and is given the value that the
/// slot held.
pub trait RemoveCallback<T>: Send + Sync {
    /// The arguments on which the callback may be called.
    spec fn accepts(&self, id: EntryId, value: T) -> bool;

    /// What holds once the callback has been called on these arguments.
    spec fn told(&self, id: EntryId, value: T) -> bool;

    fn removed(&self, id: EntryId, value: T)
        requires
            self.accepts(id, value),
        ensures
            self.told(id, value),
    ;
}

impl<T, C> RemoveCallback<T> for C where C: Fn(EntryId, T) + Send + Sync {
    open spec fn accepts(&self, id: EntryId, value: T) -> bool {
        call_requires(*self, (id, value))
    }

    open spec fn told(&self, id: EntryId, value: T) -> bool {
        call_ensures(*self, (id, value), ())
    }

    fn removed(&self, id: EntryId, value: T) {
        self(id, value)
    }
}

/// What a registry holds, as mathematics: the live slots, the next identifier to issue,
/// and whether the registry has been closed for good.
pub struct SlotsView<T> {
    pub slots: Map<EntryId, T>,
    pub next_id: nat,
    pub closed: bool,
}

impl<T> SlotsView<T> {
    /// Every live identifier was issued before, the counter fits the identifier type,
    /// and a closed registry holds nothing.
    pub open spec fn wf(self) -> bool {
        &&& self.slots.dom().finite()
        &&& forall|id: EntryId| self.slots.contains_key(id) ==> (id as nat) < self.next_id
        &&& self.next_id <= u32::MAX
        &&& self.closed ==> self.slots.dom() == Set::<EntryId>::empty()
    }

    /// The registry that `new` makes: no slot, counter at zero, open.
    pub open spec fn fresh() -> Self {
        SlotsView { slots: Map::empty(), next_id: 0, closed: false }
    }

    /// Whether a value can still be registered.
    pub open spec fn accepting(self) -> bool {
        !self.closed && self.next_id < u32::MAX
    }

    /// The identifier that the next registration gets.
    pub open spec fn upcoming(self) -> EntryId {
        self.next_id as EntryId
    }

    /// The state after `value` was registered.
    pub open spec fn registered(self, value: T) -> Self {
        SlotsView {
            slots: self.slots.insert(self.upcoming(), value),
            next_id: self.next_id + 1,
            closed: self.closed,
        }
    }

    /// The state after the slot `id` was released. Releasing a slot that is not there
    /// changes nothing.
    pub open spec fn released(self, id: EntryId) -> Self {
        SlotsView { slots: self.slots.remove(id), next_id: self.next_id, closed: self.closed }
    }

    /// The state after the slot `id` was given the value `value`.
    pub open spec fn replaced(self, id: EntryId, value: T) -> Self {
        SlotsView {
            slots: self.slots.insert(id, value),
            next_id: self.next_id,
            closed: self.closed,
        }
    }

    /// The state after the last owner went away.
    pub open spec fn shut(self) -> Self {
        SlotsView { slots: Map::empty(), next_id: self.next_id, closed: true }
    }

    /// The value of slot `id`, if the slot is live.
    pub open spec fn lookup(self, id: EntryId) -> Option<T> {
        if self.slots.contains_key(id) {
            Some(self.slots[id])
        } else {
            None
        }
    }

    /// Whether `pairs` lists every live slot once, in ascending order of identifier.
    pub open spec fn listed_by(self, pairs: Seq<(EntryId, T)>) -> bool {
        in_key_order(self.slots, pairs)
    }
}

/// The identifiers below `n`.
pub open spec fn below(n: nat) -> Set<EntryId> {
    Set::new(|id: EntryId| (id as nat) < n)
}

/// There are `n` identifiers below `n`.
pub proof fn lemma_below_len(n: nat)
    requires
        n <= u32::MAX,
    ensures
        below(n).finite(),
        below(n).len() == n,
    decreases n,
{
    if n == 0 {
        assert(below(n) =~= Set::<EntryId>::empty());
    } else {
        lemma_below_len((n - 1) as nat);
        assert(below(n) =~= below((n - 1) as nat).insert((n - 1) as EntryId));
    }
}

/// A registry holds no more slots than it has issued identifiers.
pub proof fn lemma_len_bounded<T>(state: SlotsView<T>)
    requires
        state.wf(),
    ensures
        state.slots.len() <= state.next_id,
{
    lemma_below_len(state.next_id);
    assert(state.slots.dom().subset_of(below(state.next_id)));
    vstd::set_lib::lemma_len_subset(state.slots.dom(), below(state.next_id));
}

/// The state that all clones of one registry share: an ordered map from identifier to
/// value, the identifier counter and the removal callback.
#[verifier::reject_recursive_types(T)]
pub struct Slots<T> {
    map: BTreeMap<EntryId, T>,
    next_id: EntryId,
    remove_callback: Option<Box<dyn RemoveCallback<T>>>,
    closed: bool,
}

impl<T> View for Slots<T> {
    type V = SlotsView<T>;

    closed spec fn view(&self) -> SlotsView<T> {
        SlotsView { slots: self.map@, next_id: self.next_id as nat, closed: self.closed }
    }
}

impl<T> Slots<T> {
    /// The installed callback, if any, may be called with every identifier and value.
    pub closed spec fn callback_total(&self) -> bool {
        match self.remove_callback {
            Some(callback) => forall|id: EntryId, value: T| callback.accepts(id, value),
            None => true,
        }
    }

    pub open spec fn wf(&self) -> bool {
        self@.wf() && self.callback_total()
    }

    /// Whether a removal callback is installed.
    pub closed spec fn has_callback(&self) -> bool {
        self.remove_callback is Some
    }

    /// Whether the installed callback, if any, has been called on `id` and `value`.
    pub closed spec fn callback_told(&self, id: EntryId, value: T) -> bool {
        match self.remove_callback {
            Some(callback) => callback.told(id, value),
            None => true,
        }
    }

    /// Whether the callback that is installed, if any, is the one that `before` has
    /// installed.
    pub closed spec fn same_callback(&self, before: &Self) -> bool {
        self.remove_callback == before.remove_callback
    }

    /// A state with the callback of another tells of a removal what the other tells.
    pub proof fn lemma_same_callback(&self, before: &Self)
        requires
            self.same_callback(before),
        ensures
            self.has_callback() == before.has_callback(),
            self.callback_total() == before.callback_total(),
            forall|id: EntryId, value: T|
                self.callback_told(id, value) == before.callback_told(id, value),
    {
    }

    pub fn new() -> (s: Self)
        ensures
            s.wf(),
            s@ == SlotsView::<T>::fresh(),
            !s.has_callback(),
    {
        Slots { map: BTreeMap::new(), next_id: 0, remove_callback: None, closed: false }
    }

    /// Stores `value` under the next identifier and returns that identifier. A closed
    /// registry, or one that has issued every identifier, stores nothing.
    pub fn insert(&mut self, value: T) -> (id: Option<EntryId>)
        requires
            old(self).wf(),
        ensures
            final(self).wf(),
            final(self).has_callback() == old(self).has_callback(),
            final(self).same_callback(old(self)),
            id is Some <==> old(self)@.accepting(),
            id is Some ==> id->0 == old(self)@.upcoming() && final(self)@ == old(self)@.registered(
                value,
            ),
            id is None ==> final(self)@ == old(self)@,
    {
        if self.closed || self.next_id == u32::MAX {
            return None;
        }
        let id: EntryId = self.next_id;
        self.map.insert(id, value);
        self.next_id = id + 1;
        Some(id)
    }

    /// Takes the slot `id` out and returns its value, without telling the callback.
    pub fn take(&mut self, id: EntryId) -> (value: Option<T>)
        requires
            old(self).wf(),
        ensures
            final(self).wf(),
            final(self).has_callback() == old(self).has_callback(),
            final(self).same_callback(old(self)),
            final(self)@ == old(self)@.released(id),
            value == old(self)@.lookup(id),
    {
        let value = self.map.remove(&id);
        proof {
            if self.closed {
                assert(self.map@.dom() =~= Set::<EntryId>::empty());
            }
        }
        value
    }

    /// Removes the slot `id` and hands its value to the callback, if one is installed.
    pub fn remove(&mut self, id: EntryId) -> (found: bool)
        requires
            old(self).wf(),
        ensures
            final(self).wf(),
            final(self).has_callback() == old(self).has_callback(),
            final(self).same_callback(old(self)),
            final(self)@ == old(self)@.released(id),
            found == old(self)@.slots.contains_key(id),
            found ==> final(self).callback_told(id, old(self)@.slots[id]),
    {
        match self.take(id) {
            Some(value) => {
                match &self.remove_callback {
                    Some(callback) => {
                        callback.removed(id, value);
                    },
                    None => {},
                }
                true
            },
            None => false,
        }
    }

    pub fn get(&self, id: EntryId) -> (value: Option<&T>)
        requires
            self.wf(),
        ensures
            value == match self@.lookup(id) {
                Some(v) => Some(&v),
                None => None,
            },
    {
        self.map.get(&id)
    }

    pub fn len(&self) -> (n: usize)
        requires
            self.wf(),
        ensures
            n == self@.slots.len(),
    {
        self.map.len()
    }

    pub fn is_empty(&self) -> (b: bool)
        requires
            self.wf(),
        ensures
            b <==> self@.slots.len() == 0,
    {
        self.map.is_empty()
    }

    pub fn get_mut(&mut self, id: EntryId) -> (value: Option<&mut T>)
        requires
            old(self).wf(),
        ensures
            final(self).wf(),
            final(self).has_callback() == old(self).has_callback(),
            final(self).same_callback(old(self)),
            match value {
                Some(v) => old(self)@.lookup(id) == Some(*v) && final(self)@ == old(
                    self,
                )@.replaced(id, *final(v)),
                None => old(self)@.lookup(id) is None && final(self)@ == old(self)@,
            },
    {
        map_get_mut(&mut self.map, &id)
    }

    /// The live slots in ascending order of identifier.
    pub fn iter(&self) -> (iter: Iter<'_, EntryId, T>)
        requires
            self.wf(),
        ensures
            self@.listed_by(iter.remaining().map_values(|item: (&EntryId, &T)| pair_of(item))),
            iter.initial_value_relation(&iter),
            iter.decrease() is Some,
    {
        ascending(&self.map)
    }

    /// The live slots in ascending order of identifier, each value open to change:
    /// the iterator hands out every slot once and then ends. No slot comes or goes,
    /// and each value ends as the caller leaves it behind its reference.
    pub fn iter_mut(&mut self) -> (iter: IterMut<'_, EntryId, T>)
        requires
            old(self).wf(),
        ensures
            final(self).wf(),
            final(self).has_callback() == old(self).has_callback(),
            final(self).same_callback(old(self)),
            final(self)@.slots.dom() == old(self)@.slots.dom(),
            final(self)@.next_id == old(self)@.next_id,
            final(self)@.closed == old(self)@.closed,
            iter.obeys_prophetic_iter_laws(),
            old(self)@.listed_by(
                iter.remaining().map_values(|item: (&EntryId, &mut T)| pair_of_mut(item)),
            ),
            forall|i: int|
                0 <= i < iter.remaining().len() ==> final(self)@.slots[*(
                #[trigger] iter.remaining()[i]).0] == *final(iter.remaining()[i].1),
    {
        ascending_mut(&mut self.map)
    }

    /// Closes the registry for good: the slots are handed back to be dropped and the
    /// callback is given up without being told of any of them.
    pub fn close(&mut self) -> (evicted: BTreeMap<EntryId, T>)
        requires
            old(self).wf(),
        ensures
            final(self).wf(),
            !final(self).has_callback(),
            final(self)@ == old(self)@.shut(),
            evicted@ == old(self)@.slots,
    {
        let mut evicted = BTreeMap::new();
        std::mem::swap(&mut self.map, &mut evicted);
        self.closed = true;
        self.remove_callback = None;
        evicted
    }

    /// Installs `callback`, dropping the one that was installed before.
    pub fn set_remove_callback<C>(&mut self, callback: C) where
        C: Fn(EntryId, T) + Send + Sync + 'static,

        requires
            old(self).wf(),
            forall|id: EntryId, value: T| call_requires(callback, (id, value)),
        ensures
            final(self).wf(),
            final(self).has_callback(),
            final(self)@ == old(self)@,
            forall|id: EntryId, value: T|
                final(self).callback_told(id, value) <==> call_ensures(callback, (id, value), ()),
    {
        self.remove_callback = Some(Box::new(callback));
    }
}

/// What the lock of a registry promises of the state it guards: that it is well
/// formed.
pub(crate) struct SlotsPred;

impl<T> RwLockPredicate<Slots<T>> for SlotsPred {
    open spec fn inv(self, state: Slots<T>) -> bool {
        state.wf()
    }
}

/// The lock and the state behind it. Registries and handles alike hold on to it;
/// only registries keep the state open.
#[verifier::reject_recursive_types(T)]
pub(crate) struct Shared<T> {
    lock: RwLock<Slots<T>, SlotsPred>,
}

impl<T> Shared<T> {
    /// Takes the shared lock.
    pub fn read(&self) -> (guard: RegistryReadGuard<'_, T>)
        ensures
            guard.wf(),
            guard@.wf(),
    {
        RegistryReadGuard { handle: Some(self.lock.acquire_read()) }
    }

    /// Takes the exclusive lock.
    pub fn write(shared: &Arc<Shared<T>>) -> (guard: RegistryWriteGuard<'_, T>)
        ensures
            guard.wf(),
            guard@.wf(),
    {
        let (state, handle) = shared.lock.acquire_write();
        RegistryWriteGuard { state, handle: Some(handle), shared }
    }
}

/// What the clones of one registry hold together. When the last clone goes, this is
/// dropped, and the state is closed.
#[verifier::reject_recursive_types(T)]
pub(crate) struct Owner<T> {
    shared: Arc<Shared<T>>,
}

impl<T> Owner<T> {
    /// Closes the state under the exclusive lock. The slots are dropped after the lock
    /// is released.
    pub fn close(&self) {
        let mut guard = Shared::write(&self.shared);
        let evicted = guard.state.close();
        guard.release();
        let _ = evicted;
    }
}

impl<T> Drop for Owner<T> {
    /// Runs `close`. Verus asks of every `drop` that it neither unwinds nor opens an
    /// invariant, which cannot be shown of a call into a lock, so this body is not
    /// verified.
    #[verifier::external_body]
    fn drop(&mut self)
        opens_invariants none
        no_unwind
    {
        self.close();
    }
}

/// What a handle keeps of the registry that issued it.
#[verifier::reject_recursive_types(T)]
pub(crate) struct Anchor<T> {
    shared: Arc<Shared<T>>,
}

impl<T: Send + Sync + 'static> RegistryInterface for Anchor<T> {
    fn remove(&self, id: EntryId) {
        let mut guard = Shared::write(&self.shared);
        let _ = guard.state.remove(id);
        guard.release();
    }
}

impl<T: Send + Sync + 'static> SlotAccess<T> for Anchor<T> {
    fn read_slot<'a>(&'a self, id: EntryId) -> (guard: Option<EntryReadGuard<'a, T>>) {
        self.shared.read().into_entry(id)
    }

    fn write_slot<'a>(&'a self, id: EntryId) -> (guard: Option<EntryWriteGuard<'a, T>>) {
        Shared::write(&self.shared).into_entry(id)
    }
}

/// A container whose values live as long as the handles that `register` returns for
/// them. Clones share one state; the state is closed when the last clone is dropped.
/// Closing takes the exclusive lock, so the last clone must not be dropped by a thread
/// that holds a guard on the same state.
#[verifier::reject_recursive_types(T)]
pub struct Registry<T> {
    owner: Arc<Owner<T>>,
}

impl<T: Send + Sync + 'static> Default for Registry<T> {
    fn default() -> Self {
        Registry::new()
    }
}

impl<T: Send + Sync + 'static> Clone for Registry<T> {
    fn clone(&self) -> Self {
        Registry { owner: self.owner.clone() }
    }
}

impl<T: Send + Sync + 'static> Registry<T> {
    pub fn new() -> Self {
        let shared = Arc::new(Shared { lock: RwLock::new(Slots::new(), Ghost(SlotsPred)) });
        Registry { owner: Arc::new(Owner { shared }) }
    }

    /// Stores `value` under the next identifier and returns the handle that owns the
    /// slot: dropping the handle removes the value. `None`, with `value` dropped, where
    /// every identifier has been issued.
    #[must_use]
    pub fn register(&self, value: T) -> (entry: Option<Entry<T>>)
        ensures
            entry is Some ==> entry->0.armed() && entry->0.typed(),
    {
        let mut guard = Shared::write(&self.owner.shared);
        let entry = guard.register(value);
        guard.release();
        entry
    }

    /// Takes the shared lock.
    pub fn read(&self) -> (guard: RegistryReadGuard<'_, T>)
        ensures
            guard.wf(),
            guard@.wf(),
    {
        self.owner.shared.read()
    }

    /// Takes the exclusive lock.
    pub fn write(&self) -> (guard: RegistryWriteGuard<'_, T>)
        ensures
            guard.wf(),
            guard@.wf(),
    {
        Shared::write(&self.owner.shared)
    }

    /// The number of live slots at the moment the shared lock was held: no more than
    /// there are identifiers.
    pub fn len(&self) -> (n: usize)
        ensures
            n <= u32::MAX,
    {
        let guard = self.read();
        proof {
            lemma_len_bounded(guard@);
        }
        guard.len()
    }

    /// Whether no slot was live at the moment the shared lock was held.
    pub fn is_empty(&self) -> bool {
        let guard = self.read();
        guard.is_empty()
    }

    /// Installs the callback that is told of every slot that a handle removes, in
    /// place of the one installed before.
    pub fn set_remove_callback<C>(&self, callback: C) where
        C: Fn(EntryId, T) + Send + Sync + 'static,

        requires
            forall|id: EntryId, value: T| call_requires(callback, (id, value)),
    {
        let mut guard = Shared::write(&self.owner.shared);
        guard.state.set_remove_callback(callback);
        guard.release();
    }
}

/// The shared lock on a registry, held. While it lives no slot comes, goes or changes.
#[verifier::reject_recursive_types(T)]
pub struct RegistryReadGuard<'a, T> {
    handle: Option<ReadHandle<'a, Slots<T>, SlotsPred>>,
}

impl<'a, T> View for RegistryReadGuard<'a, T> {
    type V = SlotsView<T>;

    /// What the registry holds while the lock is held.
    closed spec fn view(&self) -> SlotsView<T> {
        self.handle->0.view()@
    }
}

impl<'a, T> RegistryReadGuard<'a, T> {
    /// The lock is held, and what it guards is well formed.
    pub closed spec fn wf(&self) -> bool {
        self.handle is Some && self.handle->0.view().wf()
    }

    /// What a held lock guards is well formed: every live identifier is below the
    /// counter.
    pub proof fn lemma_view_wf(&self)
        requires
            self.wf(),
        ensures
            self@.wf(),
    {
    }

    /// The live slots in ascending order of identifier.
    pub fn iter(&self) -> (iter: Iter<'_, EntryId, T>)
        requires
            self.wf(),
        ensures
            self@.listed_by(iter.remaining().map_values(|item: (&EntryId, &T)| pair_of(item))),
            iter.initial_value_relation(&iter),
            iter.decrease() is Some,
    {
        match &self.handle {
            Some(handle) => handle.borrow().iter(),
            None => unreached(),
        }
    }

    pub fn get(&self, key: EntryId) -> (value: Option<&T>)
        requires
            self.wf(),
        ensures
            value == match self@.lookup(key) {
                Some(v) => Some(&v),
                None => None,
            },
    {
        match &self.handle {
            Some(handle) => handle.borrow().get(key),
            None => None,
        }
    }

    /// The number of live slots.
    pub fn len(&self) -> (n: usize)
        requires
            self.wf(),
        ensures
            n == self@.slots.len(),
    {
        match &self.handle {
            Some(handle) => handle.borrow().len(),
            None => unreached(),
        }
    }

    /// Whether no slot is live.
    pub fn is_empty(&self) -> (b: bool)
        requires
            self.wf(),
        ensures
            b <==> self@.slots.len() == 0,
    {
        match &self.handle {
            Some(handle) => handle.borrow().is_empty(),
            None => unreached(),
        }
    }

    /// Narrows the held lock to the slot `id`: a guard on the value of that slot, or
    /// `None`, with the lock given back, where the slot is not live.
    pub fn into_entry(self, id: EntryId) -> (guard: Option<EntryReadGuard<'a, T>>)
        requires
            self.wf(),
        ensures
            guard is Some <==> self@.lookup(id) is Some,
            guard is Some ==> guard->0.wf() && guard->0.id() == id && guard->0@
                == self@.slots[id],
    {
        if self.get(id).is_some() {
            let guard = EntryReadGuard { guard: Box::new(self), entry_id: id };
            proof {
                guard.describe();
            }
            Some(guard)
        } else {
            None
        }
    }

    /// Whether the lock has been given back.
    pub closed spec fn released(&self) -> bool {
        self.handle is None
    }

    /// Gives the lock back, unless that was done before. Dropping the guard does
    /// exactly this.
    pub fn release(&mut self)
        ensures
            final(self).released(),
    {
        match self.handle.take() {
            Some(handle) => handle.release_read(),
            None => {},
        }
    }
}

impl<'a, T> Drop for RegistryReadGuard<'a, T> {
    /// Runs `release`. Verus asks of every `drop` that it neither unwinds nor opens an
    /// invariant, which cannot be shown of a call into a lock, so this body is not
    /// verified.
    #[verifier::external_body]
    fn drop(&mut self)
        opens_invariants none
        no_unwind
    {
        self.release();
    }
}

impl<'a, T> SlotRead<T> for RegistryReadGuard<'a, T> {
    open spec fn valid(&self) -> bool {
        self.wf()
    }

    open spec fn content(&self, id: EntryId) -> Option<T> {
        self@.lookup(id)
    }

    fn slot(&self, id: EntryId) -> (value: Option<&T>) {
        self.get(id)
    }
}

/// The exclusive lock on a registry, held. The values are open to change; slots come
/// and go only through handles.
#[verifier::reject_recursive_types(T)]
pub struct RegistryWriteGuard<'a, T> {
    state: Slots<T>,
    handle: Option<WriteHandle<'a, Slots<T>, SlotsPred>>,
    shared: &'a Arc<Shared<T>>,
}

impl<'a, T> View for RegistryWriteGuard<'a, T> {
    type V = SlotsView<T>;

    /// What the registry holds while the lock is held.
    closed spec fn view(&self) -> SlotsView<T> {
        self.state@
    }
}

impl<'a, T> RegistryWriteGuard<'a, T> {
    /// The lock is held, and what it guards is well formed.
    pub closed spec fn wf(&self) -> bool {
        self.handle is Some && self.state.wf()
    }

    /// Whether the removal callback of the registry, if it has one, is the one that it
    /// had at `before`.
    pub closed spec fn callback_kept(&self, before: &Self) -> bool {
        self.state.same_callback(&before.state)
    }

    /// What a held lock guards is well formed: every live identifier is below the
    /// counter.
    pub proof fn lemma_view_wf(&self)
        requires
            self.wf(),
        ensures
            self@.wf(),
    {
    }

    /// The live slots in ascending order of identifier.
    pub fn iter(&self) -> (iter: Iter<'_, EntryId, T>)
        requires
            self.wf(),
        ensures
            self@.listed_by(iter.remaining().map_values(|item: (&EntryId, &T)| pair_of(item))),
            iter.initial_value_relation(&iter),
            iter.decrease() is Some,
    {
        self.state.iter()
    }

    /// The live slots in ascending order of identifier, each value open to change:
    /// the iterator hands out every slot once and then ends. No slot comes or goes,
    /// and each value ends as the caller leaves it behind its reference.
    pub fn iter_mut(&mut self) -> (iter: IterMut<'_, EntryId, T>)
        requires
            old(self).wf(),
        ensures
            final(self).wf(),
            final(self).callback_kept(old(self)),
            final(self)@.slots.dom() == old(self)@.slots.dom(),
            final(self)@.next_id == old(self)@.next_id,
            final(self)@.closed == old(self)@.closed,
            iter.obeys_prophetic_iter_laws(),
            old(self)@.listed_by(
                iter.remaining().map_values(|item: (&EntryId, &mut T)| pair_of_mut(item)),
            ),
            forall|i: int|
                0 <= i < iter.remaining().len() ==> final(self)@.slots[*(
                #[trigger] iter.remaining()[i]).0] == *final(iter.remaining()[i].1),
    {
        self.state.iter_mut()
    }

    pub fn get(&self, key: EntryId) -> (value: Option<&T>)
        requires
            self.wf(),
        ensures
            value == match self@.lookup(key) {
                Some(v) => Some(&v),
                None => None,
            },
    {
        self.state.get(key)
    }

    pub fn get_mut(&mut self, key: EntryId) -> (value: Option<&mut T>)
        requires
            old(self).wf(),
        ensures
            final(self).wf(),
            final(self).callback_kept(old(self)),
            match value {
                Some(v) => old(self)@.lookup(key) == Some(*v) && final(self)@ == old(
                    self,
                )@.replaced(key, *final(v)),
                None => old(self)@.lookup(key) is None && final(self)@ == old(self)@,
            },
    {
        self.state.get_mut(key)
    }

    /// Stores `value` under the next identifier and returns the handle that owns the
    /// slot. `None`, with `value` dropped and nothing changed, where the registry has
    /// issued every identifier or is closed. The handle must outlive the guard:
    /// dropping a handle takes the exclusive lock.
    #[must_use]
    pub fn register(&mut self, value: T) -> (entry: Option<Entry<T>>) where
        T: Send + Sync + 'static,

        requires
            old(self).wf(),
        ensures
            final(self).wf(),
            final(self).callback_kept(old(self)),
            entry is Some <==> old(self)@.accepting(),
            entry is Some ==> entry->0.armed() && entry->0.typed() && entry->0.id() == old(
                self,
            )@.upcoming() && final(self)@ == old(self)@.registered(value),
            entry is None ==> final(self)@ == old(self)@,
    {
        match self.state.insert(value) {
            Some(id) => Some(
                Entry::new(
                    Box::new(Anchor { shared: self.shared.clone() }),
                    Box::new(Anchor { shared: self.shared.clone() }),
                    id,
                ),
            ),
            None => None,
        }
    }

    /// Narrows the held lock to the slot `id`: a guard on the value of that slot, or
    /// `None`, with the lock given up, where the slot is not live.
    pub fn into_entry(self, id: EntryId) -> (guard: Option<EntryWriteGuard<'a, T>>)
        requires
            self.wf(),
        ensures
            guard is Some <==> self@.lookup(id) is Some,
            guard is Some ==> guard->0.wf() && guard->0.id() == id && guard->0@
                == self@.slots[id],
    {
        if self.get(id).is_some() {
            let guard = EntryWriteGuard { guard: Box::new(self), entry_id: id };
            proof {
                guard.describe();
            }
            Some(guard)
        } else {
            None
        }
    }

    /// Whether the lock has been given up.
    pub closed spec fn released(&self) -> bool {
        self.handle is None
    }

    /// Puts the state back and gives the lock up, unless that was done before.
    /// Dropping the guard does exactly this.
    pub fn release(&mut self)
        requires
            old(self).wf() || old(self).released(),
        ensures
            final(self).released(),
    {
        match self.handle.take() {
            Some(handle) => {
                let mut state = Slots::new();
                std::mem::swap(&mut self.state, &mut state);
                handle.release_write(state);
            },
            None => {},
        }
    }
}

impl<'a, T> Drop for RegistryWriteGuard<'a, T> {
    /// Runs `release`. Verus asks of every `drop` that it neither unwinds nor opens an
    /// invariant, which cannot be shown of a call into a lock, so this body is not
    /// verified. What `release` requires holds here: a guard is made well formed, and
    /// every function that changes it ends with it well formed or released.
    #[verifier::external_body]
    fn drop(&mut self)
        opens_invariants none
        no_unwind
    {
        self.release();
    }
}

impl<'a, T> SlotWrite<T> for RegistryWriteGuard<'a, T> {
    open spec fn valid(&self) -> bool {
        self.wf()
    }

    open spec fn content(&self, id: EntryId) -> Option<T> {
        self@.lookup(id)
    }

    fn slot(&self, id: EntryId) -> (value: Option<&T>) {
        self.get(id)
    }

    fn slot_mut(&mut self, id: EntryId) -> (value: Option<&mut T>) {
        self.get_mut(id)
    }
}

} // verus!
