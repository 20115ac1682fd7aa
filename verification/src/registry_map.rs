use crate::entry::{
    Entry, EntryId, EntryReadGuard, EntryWriteGuard, RegistryInterface, SlotAccess, SlotRead,
    SlotWrite,
};
use crate::ordered_map::{
    in_order, lawful_key, map_get_mut, map_iter_mut, pair_of, pair_of_mut, sorted,
};
use crate::registry::{below, lemma_below_len};
use std::collections::btree_map::{Iter, IterMut};
use std::collections::BTreeMap;
use std::sync::Arc;
use vstd::pervasive::unreached;
use vstd::prelude::*;
use vstd::rwlock::{ReadHandle, RwLock, RwLockPredicate, WriteHandle};
use vstd::std_specs::iter::IteratorSpec;

verus! {

broadcast use vstd::std_specs::btree::group_btree_axioms;

/// Why a registration was refused.
#[derive(Debug, Clone, Copy, PartialEq, Eq, Structural)]
pub enum RegistryMapError {
    /// The key is registered already.
    KeyAlreadyExists,
    /// The registry has issued every identifier, or is closed.
    Unavailable,
}

impl RegistryMapError {
    /// The error in words.
    pub fn message(&self) -> (text: &'static str)
        ensures
            text@ == (match *self {
                RegistryMapError::KeyAlreadyExists => "Key already exists in registry!"@,
                RegistryMapError::Unavailable => "No identifier is left in registry!"@,
            }),
    {
        match self {
            RegistryMapError::KeyAlreadyExists => "Key already exists in registry!",
            RegistryMapError::Unavailable => "No identifier is left in registry!",
        }
    }
}

/// A function that is told which slot was removed, and is given the key and the value
/// that the slot held.
pub trait KeyedRemoveCallback<K, T>: Send + Sync {
    /// The arguments on which the callback may be called.
    spec fn accepts(&self, id: EntryId, key: K, value: T) -> bool;

    /// What holds once the callback has been called on these arguments.
    spec fn told(&self, id: EntryId, key: K, value: T) -> bool;

    fn removed(&self, id: EntryId, key: K, value: T)
        requires
            self.accepts(id, key, value),
        ensures
            self.told(id, key, value),
    ;
}

impl<K, T, C> KeyedRemoveCallback<K, T> for C where C: Fn(EntryId, K, T) + Send + Sync {
    open spec fn accepts(&self, id: EntryId, key: K, value: T) -> bool {
        call_requires(*self, (id, key, value))
    }

    open spec fn told(&self, id: EntryId, key: K, value: T) -> bool {
        call_ensures(*self, (id, key, value), ())
    }

    fn removed(&self, id: EntryId, key: K, value: T) {
        self(id, key, value)
    }
}

/// What a keyed registry holds, as mathematics: the value under each key, the key of
/// each live identifier and the identifier of each key, the next identifier to issue,
/// and whether the registry has been closed for good.
#[verifier::reject_recursive_types(K)]
pub struct KeyedSlotsView<K, T> {
    pub values: Map<K, T>,
    pub keys: Map<EntryId, K>,
    pub ids: Map<K, EntryId>,
    pub next_id: nat,
    pub closed: bool,
}

impl<K, T> KeyedSlotsView<K, T> {
    /// The keys that hold a value are the keys that have an identifier; identifiers and
    /// keys point at each other; every live identifier was issued before; the counter
    /// fits the identifier type; a closed registry holds nothing.
    pub open spec fn wf(self) -> bool {
        &&& self.values.dom().finite()
        &&& self.keys.dom().finite()
        &&& forall|key: K| #[trigger] self.values.contains_key(key) <==> self.ids.contains_key(key)
        &&& forall|key: K| #[trigger]
            self.ids.contains_key(key) ==> self.keys.contains_key(self.ids[key])
                && self.keys[self.ids[key]] == key
        &&& forall|id: EntryId| #[trigger]
            self.keys.contains_key(id) ==> self.ids.contains_key(self.keys[id])
                && self.ids[self.keys[id]] == id && (id as nat) < self.next_id
        &&& self.next_id <= u32::MAX
        &&& self.closed ==> forall|id: EntryId| !self.keys.contains_key(id)
    }

    /// The registry that `new` makes: no slot, counter at zero, open.
    pub open spec fn fresh() -> Self {
        KeyedSlotsView {
            values: Map::empty(),
            keys: Map::empty(),
            ids: Map::empty(),
            next_id: 0,
            closed: false,
        }
    }

    /// Whether the registry can still issue an identifier.
    pub open spec fn accepting(self) -> bool {
        !self.closed && self.next_id < u32::MAX
    }

    /// The identifier that the next registration gets.
    pub open spec fn upcoming(self) -> EntryId {
        self.next_id as EntryId
    }

    /// The state after `value` was registered under `key`.
    pub open spec fn registered(self, key: K, value: T) -> Self {
        KeyedSlotsView {
            values: self.values.insert(key, value),
            keys: self.keys.insert(self.upcoming(), key),
            ids: self.ids.insert(key, self.upcoming()),
            next_id: self.next_id + 1,
            closed: self.closed,
        }
    }

    /// The state after the slot `id` was released: its key goes with it. Releasing a
    /// slot that is not there changes nothing.
    pub open spec fn released(self, id: EntryId) -> Self {
        if self.keys.contains_key(id) {
            KeyedSlotsView {
                values: self.values.remove(self.keys[id]),
                keys: self.keys.remove(id),
                ids: self.ids.remove(self.keys[id]),
                next_id: self.next_id,
                closed: self.closed,
            }
        } else {
            self
        }
    }

    /// The state after the value under `key` was replaced by `value`.
    pub open spec fn replaced(self, key: K, value: T) -> Self {
        KeyedSlotsView {
            values: self.values.insert(key, value),
            keys: self.keys,
            ids: self.ids,
            next_id: self.next_id,
            closed: self.closed,
        }
    }

    /// The state after the last owner went away.
    pub open spec fn shut(self) -> Self {
        KeyedSlotsView {
            values: Map::empty(),
            keys: Map::empty(),
            ids: Map::empty(),
            next_id: self.next_id,
            closed: true,
        }
    }

    /// The value under `key`, if the key is registered.
    pub open spec fn lookup(self, key: K) -> Option<T> {
        if self.values.contains_key(key) {
            Some(self.values[key])
        } else {
            None
        }
    }

    /// The key and the value of slot `id`, if the slot is live.
    pub open spec fn slot(self, id: EntryId) -> Option<(K, T)> {
        if self.keys.contains_key(id) && self.values.contains_key(self.keys[id]) {
            Some((self.keys[id], self.values[self.keys[id]]))
        } else {
            None
        }
    }

    /// The value of slot `id`, if the slot is live.
    pub open spec fn slot_value(self, id: EntryId) -> Option<T> {
        match self.slot(id) {
            Some(pair) => Some(pair.1),
            None => None,
        }
    }
}

/// Registering a key that is not registered keeps the two mappings consistent, and the
/// key is found under the identifier that was issued.
pub proof fn lemma_registered_is_consistent<K, T>(state: KeyedSlotsView<K, T>, key: K, value: T)
    requires
        state.wf(),
        state.accepting(),
        !state.values.contains_key(key),
    ensures
        state.registered(key, value).wf(),
        state.registered(key, value).lookup(key) == Some(value),
        state.registered(key, value).slot(state.upcoming()) == Some((key, value)),
        forall|other: K|
            other != key ==> state.registered(key, value).lookup(other) == state.lookup(other),
{
    let after = state.registered(key, value);
    let id = state.upcoming();
    assert(id as nat == state.next_id);
    assert(!state.keys.contains_key(id));
    assert forall|other: K| #[trigger] after.ids.contains_key(other) implies after.keys.contains_key(
        after.ids[other],
    ) && after.keys[after.ids[other]] == other by {
        if other != key {
            assert(state.ids.contains_key(other));
        }
    }
    assert forall|other: EntryId| #[trigger] after.keys.contains_key(other) implies after.ids.contains_key(
        after.keys[other],
    ) && after.ids[after.keys[other]] == other && (other as nat) < after.next_id by {
        if other != id {
            assert(state.keys.contains_key(other));
            assert(state.ids.contains_key(state.keys[other]));
        }
    }
}

/// Dropping the handle of a slot frees its key, and touches no other key: after it the
/// key can be registered again.
pub proof fn lemma_key_free_after_release<K, T>(state: KeyedSlotsView<K, T>, id: EntryId)
    requires
        state.wf(),
        state.keys.contains_key(id),
    ensures
        state.released(id).wf(),
        !state.released(id).values.contains_key(state.keys[id]),
        state.released(id).slot(id) is None,
        forall|other: K|
            other != state.keys[id] ==> state.released(id).lookup(other) == state.lookup(other),
        state.released(id).accepting() == state.accepting(),
{
    let after = state.released(id);
    let key = state.keys[id];
    assert(state.ids.contains_key(key));
    assert forall|other: K| #[trigger] after.ids.contains_key(other) implies after.keys.contains_key(
        after.ids[other],
    ) && after.keys[after.ids[other]] == other by {
        assert(state.ids.contains_key(other));
    }
    assert forall|other: EntryId| #[trigger] after.keys.contains_key(other) implies after.ids.contains_key(
        after.keys[other],
    ) && after.ids[after.keys[other]] == other && (other as nat) < after.next_id by {
        assert(state.keys.contains_key(other));
    }
}

/// A keyed registry holds no more values than it has issued identifiers.
pub proof fn lemma_keyed_len_bounded<K, T>(state: KeyedSlotsView<K, T>)
    requires
        state.wf(),
    ensures
        state.values.len() <= state.next_id,
{
    let key_of = |id: EntryId| state.keys[id];
    assert(state.keys.dom().map(key_of) =~= state.values.dom()) by {
        assert forall|key: K| state.values.dom().contains(key) implies state.keys.dom().map(
            key_of,
        ).contains(key) by {
            assert(state.ids.contains_key(key));
            assert(state.keys.dom().contains(state.ids[key]));
            assert(key_of(state.ids[key]) == key);
        }
        assert forall|key: K| state.keys.dom().map(key_of).contains(
            key,
        ) implies state.values.dom().contains(key) by {
            let id = choose|id: EntryId| state.keys.dom().contains(id) && key_of(id) == key;
            assert(state.keys.contains_key(id));
            assert(state.ids.contains_key(state.keys[id]));
        }
    }
    vstd::set_lib::lemma_map_size_bound(state.keys.dom(), state.values.dom(), key_of);
    lemma_below_len(state.next_id);
    assert(state.keys.dom().subset_of(below(state.next_id))) by {
        assert forall|id: EntryId| state.keys.dom().contains(id) implies below(
            state.next_id,
        ).contains(id) by {
            assert(state.keys.contains_key(id));
        }
    }
    vstd::set_lib::lemma_len_subset(state.keys.dom(), below(state.next_id));
}

/// Releasing a slot that is not live changes nothing, so a slot is removed once
/// however often its release is asked for.
pub proof fn lemma_keyed_release_once<K, T>(state: KeyedSlotsView<K, T>, id: EntryId)
    requires
        state.wf(),
    ensures
        state.released(id).released(id) == state.released(id),
{
}

/// Once the last keyed registry is gone, handles find nothing: no slot is live,
/// releasing changes nothing, and nothing can be registered.
pub proof fn lemma_keyed_closed_is_inert<K, T>(state: KeyedSlotsView<K, T>, id: EntryId)
    requires
        state.wf(),
    ensures
        state.shut().wf(),
        state.shut().slot(id) is None,
        state.shut().released(id) == state.shut(),
        !state.shut().accepting(),
{
}

/// The state that all clones of one keyed registry share: the values by key, the key
/// of each identifier, the identifier counter and the removal callback.
#[verifier::reject_recursive_types(K)]
#[verifier::reject_recursive_types(T)]
pub struct KeyedSlots<K, T> {
    map: BTreeMap<K, T>,
    entry_map: BTreeMap<EntryId, K>,
    next_id: EntryId,
    remove_callback: Option<Box<dyn KeyedRemoveCallback<K, T>>>,
    closed: bool,
    ids: Ghost<Map<K, EntryId>>,
}

impl<K, T> View for KeyedSlots<K, T> {
    type V = KeyedSlotsView<K, T>;

    closed spec fn view(&self) -> KeyedSlotsView<K, T> {
        KeyedSlotsView {
            values: self.map@,
            keys: self.entry_map@,
            ids: self.ids@,
            next_id: self.next_id as nat,
            closed: self.closed,
        }
    }
}

impl<K: Ord + Clone, T> KeyedSlots<K, T> {
    /// The installed callback, if any, may be called with every identifier, key and
    /// value.
    pub closed spec fn callback_total(&self) -> bool {
        match self.remove_callback {
            Some(callback) => forall|id: EntryId, key: K, value: T|
                callback.accepts(id, key, value),
            None => true,
        }
    }

    pub open spec fn wf(&self) -> bool {
        lawful_key::<K>() && self@.wf() && self.callback_total()
    }

    /// Whether a removal callback is installed.
    pub closed spec fn has_callback(&self) -> bool {
        self.remove_callback is Some
    }

    /// Whether the installed callback, if any, has been called on `id`, `key` and
    /// `value`.
    pub closed spec fn callback_told(&self, id: EntryId, key: K, value: T) -> bool {
        match self.remove_callback {
            Some(callback) => callback.told(id, key, value),
            None => true,
        }
    }

    /// Whether the callback that is installed, if any, is the one that `before` has
    /// installed.
    pub closed spec fn same_callback(&self, before: &Self) -> bool {
        self.remove_callback == before.remove_callback
    }

    /// A state with the callback of another tells of a removal what the other tells.
    pub proof fn lemma_same_callback(&self, before: &Self)
        requires
            self.same_callback(before),
        ensures
            self.has_callback() == before.has_callback(),
            self.callback_total() == before.callback_total(),
            forall|id: EntryId, key: K, value: T|
                self.callback_told(id, key, value) == before.callback_told(id, key, value),
    {
    }

    pub fn new() -> (s: Self)
        requires
            lawful_key::<K>(),
        ensures
            s.wf(),
            s@ == KeyedSlotsView::<K, T>::fresh(),
            !s.has_callback(),
    {
        KeyedSlots {
            map: BTreeMap::new(),
            entry_map: BTreeMap::new(),
            next_id: 0,
            remove_callback: None,
            closed: false,
            ids: Ghost(Map::empty()),
        }
    }

    /// Stores `value` under `key` and under the next identifier, and returns that
    /// identifier. A key that is registered already is refused; so is every key once
    /// the registry is closed or has issued every identifier. A refusal changes
    /// nothing.
    pub fn insert(&mut self, key: K, value: T) -> (issued: Result<EntryId, RegistryMapError>)
        requires
            old(self).wf(),
        ensures
            final(self).wf(),
            final(self).has_callback() == old(self).has_callback(),
            final(self).same_callback(old(self)),
            match issued {
                Ok(id) => !old(self)@.values.contains_key(key) && old(self)@.accepting() && id
                    == old(self)@.upcoming() && final(self)@ == old(self)@.registered(key, value),
                Err(RegistryMapError::KeyAlreadyExists) => old(self)@.values.contains_key(key)
                    && final(self)@ == old(self)@,
                Err(RegistryMapError::Unavailable) => !old(self)@.values.contains_key(key)
                    && !old(self)@.accepting() && final(self)@ == old(self)@,
            },
    {
        if self.map.contains_key(&key) {
            return Err(RegistryMapError::KeyAlreadyExists);
        }
        if self.closed || self.next_id == u32::MAX {
            return Err(RegistryMapError::Unavailable);
        }
        let id: EntryId = self.next_id;
        let copy = key.clone();
        self.map.insert(copy, value);
        self.entry_map.insert(id, key);
        self.next_id = id + 1;
        self.ids = Ghost(self.ids@.insert(key, id));
        Ok(id)
    }

    /// Takes the slot `id` out and returns its key and value, without telling the
    /// callback.
    pub fn take(&mut self, id: EntryId) -> (pair: Option<(K, T)>)
        requires
            old(self).wf(),
        ensures
            final(self).wf(),
            final(self).has_callback() == old(self).has_callback(),
            final(self).same_callback(old(self)),
            final(self)@ == old(self)@.released(id),
            pair == old(self)@.slot(id),
    {
        match self.entry_map.remove(&id) {
            Some(key) => {
                let value = self.map.remove(&key);
                self.ids = Ghost(self.ids@.remove(key));
                proof {
                    assert(old(self)@.keys.contains_key(id));
                    assert(old(self)@.keys[id] == key);
                    assert(old(self)@.ids.contains_key(key));
                    assert(old(self)@.values.contains_key(key));
                    assert(self@.values == old(self)@.values.remove(key));
                    assert(self@.keys == old(self)@.keys.remove(id));
                    assert(self@.ids == old(self)@.ids.remove(key));
                    assert(self@ == old(self)@.released(id));
                    assert forall|other: EntryId| #[trigger]
                        self@.keys.contains_key(other) implies self@.ids.contains_key(
                        self@.keys[other],
                    ) && self@.ids[self@.keys[other]] == other by {
                        assert(old(self)@.keys.contains_key(other));
                    }
                    assert forall|other: K| #[trigger]
                        self@.ids.contains_key(other) implies self@.keys.contains_key(
                        self@.ids[other],
                    ) && self@.keys[self@.ids[other]] == other by {
                        assert(old(self)@.ids.contains_key(other));
                    }
                }
                match value {
                    Some(value) => Some((key, value)),
                    None => None,
                }
            },
            None => {
                assert(self.entry_map@ =~= old(self).entry_map@);
                None
            },
        }
    }

    /// Removes the slot `id` and hands its key and value to the callback, if one is
    /// installed.
    pub fn remove(&mut self, id: EntryId) -> (found: bool)
        requires
            old(self).wf(),
        ensures
            final(self).wf(),
            final(self).has_callback() == old(self).has_callback(),
            final(self).same_callback(old(self)),
            final(self)@ == old(self)@.released(id),
            found == old(self)@.keys.contains_key(id),
            found ==> final(self).callback_told(
                id,
                old(self)@.keys[id],
                old(self)@.values[old(self)@.keys[id]],
            ),
    {
        match self.take(id) {
            Some((key, value)) => {
                match &self.remove_callback {
                    Some(callback) => {
                        callback.removed(id, key, value);
                    },
                    None => {},
                }
                true
            },
            None => false,
        }
    }

    pub fn get(&self, key: &K) -> (value: Option<&T>)
        requires
            self.wf(),
        ensures
            value == match self@.lookup(*key) {
                Some(v) => Some(&v),
                None => None,
            },
    {
        self.map.get(key)
    }

    pub fn get_mut(&mut self, key: &K) -> (value: Option<&mut T>)
        requires
            old(self).wf(),
        ensures
            final(self).wf(),
            final(self).has_callback() == old(self).has_callback(),
            final(self).same_callback(old(self)),
            match value {
                Some(v) => old(self)@.lookup(*key) == Some(*v) && final(self)@ == old(
                    self,
                )@.replaced(*key, *final(v)),
                None => old(self)@.lookup(*key) is None && final(self)@ == old(self)@,
            },
    {
        map_get_mut(&mut self.map, key)
    }

    /// The value of the slot `id`.
    pub fn slot(&self, id: EntryId) -> (value: Option<&T>)
        requires
            self.wf(),
        ensures
            value == match self@.slot_value(id) {
                Some(v) => Some(&v),
                None => None,
            },
    {
        match self.entry_map.get(&id) {
            Some(key) => self.map.get(key),
            None => None,
        }
    }

    /// The value of the slot `id`, open to change.
    pub fn slot_mut(&mut self, id: EntryId) -> (value: Option<&mut T>)
        requires
            old(self).wf(),
        ensures
            final(self).wf(),
            final(self).has_callback() == old(self).has_callback(),
            final(self).same_callback(old(self)),
            match value {
                Some(v) => old(self)@.slot_value(id) == Some(*v) && final(self)@ == old(
                    self,
                )@.replaced(old(self)@.keys[id], *final(v)),
                None => old(self)@.slot_value(id) is None && final(self)@ == old(self)@,
            },
    {
        match self.entry_map.get(&id) {
            Some(key) => map_get_mut(&mut self.map, key),
            None => None,
        }
    }

    pub fn len(&self) -> (n: usize)
        requires
            self.wf(),
        ensures
            n == self@.values.len(),
    {
        self.map.len()
    }

    pub fn is_empty(&self) -> (b: bool)
        requires
            self.wf(),
        ensures
            b <==> self@.values.len() == 0,
    {
        self.map.is_empty()
    }

    /// The registered keys with their values, least key first.
    pub fn iter(&self) -> (iter: Iter<'_, K, T>)
        requires
            self.wf(),
        ensures
            in_order(self@.values, iter.remaining().map_values(|item: (&K, &T)| pair_of(item))),
            iter.initial_value_relation(&iter),
            iter.decrease() is Some,
    {
        sorted(&self.map)
    }

    /// The registered keys with their values, least key first, each value open to
    /// change: the iterator hands out every key once and then ends. No key comes or
    /// goes, and each value ends as the caller leaves it behind its reference.
    pub fn iter_mut(&mut self) -> (iter: IterMut<'_, K, T>)
        requires
            old(self).wf(),
        ensures
            final(self).wf(),
            final(self).has_callback() == old(self).has_callback(),
            final(self).same_callback(old(self)),
            final(self)@.values.dom() == old(self)@.values.dom(),
            final(self)@.keys == old(self)@.keys,
            final(self)@.ids == old(self)@.ids,
            final(self)@.next_id == old(self)@.next_id,
            final(self)@.closed == old(self)@.closed,
            iter.obeys_prophetic_iter_laws(),
            in_order(
                old(self)@.values,
                iter.remaining().map_values(|item: (&K, &mut T)| pair_of_mut(item)),
            ),
            forall|i: int|
                0 <= i < iter.remaining().len() ==> final(self)@.values[*(
                #[trigger] iter.remaining()[i]).0] == *final(iter.remaining()[i].1),
    {
        self.values_mut()
    }

    /// The mutable iterator over the values by key, with all that `iter_mut` promises
    /// of it; that the state stays well formed is promised on the condition that the
    /// key mappings are seen to be the same.
    fn values_mut(&mut self) -> (iter: IterMut<'_, K, T>)
        requires
            old(self).wf(),
        ensures
            final(self).has_callback() == old(self).has_callback(),
            final(self).same_callback(old(self)),
            final(self)@.values.dom() == old(self)@.values.dom(),
            final(self)@.keys == old(self)@.keys,
            final(self)@.ids == old(self)@.ids,
            final(self)@.next_id == old(self)@.next_id,
            final(self)@.closed == old(self)@.closed,
            final(self)@.keys == old(self)@.keys && final(self)@.ids == old(self)@.ids
                ==> final(self).wf(),
            iter.obeys_prophetic_iter_laws(),
            in_order(
                old(self)@.values,
                iter.remaining().map_values(|item: (&K, &mut T)| pair_of_mut(item)),
            ),
            forall|i: int|
                0 <= i < iter.remaining().len() ==> final(self)@.values[*(
                #[trigger] iter.remaining()[i]).0] == *final(iter.remaining()[i].1),
    {
        map_iter_mut(&mut self.map)
    }

    /// Closes the registry for good: the values are handed back to be dropped and the
    /// callback is given up without being told of any of them.
    pub fn close(&mut self) -> (evicted: BTreeMap<K, T>)
        requires
            old(self).wf(),
        ensures
            final(self).wf(),
            !final(self).has_callback(),
            final(self)@ == old(self)@.shut(),
            evicted@ == old(self)@.values,
    {
        let mut evicted = BTreeMap::new();
        std::mem::swap(&mut self.map, &mut evicted);
        self.entry_map = BTreeMap::new();
        self.ids = Ghost(Map::empty());
        self.closed = true;
        self.remove_callback = None;
        evicted
    }

    /// Installs `callback`, dropping the one that was installed before.
    pub fn set_remove_callback<C>(&mut self, callback: C) where
        C: Fn(EntryId, K, T) + Send + Sync + 'static,

        requires
            old(self).wf(),
            forall|id: EntryId, key: K, value: T| call_requires(callback, (id, key, value)),
        ensures
            final(self).wf(),
            final(self).has_callback(),
            final(self)@ == old(self)@,
            forall|id: EntryId, key: K, value: T|
                final(self).callback_told(id, key, value) <==> call_ensures(
                    callback,
                    (id, key, value),
                    (),
                ),
    {
        self.remove_callback = Some(Box::new(callback));
    }
}

/// What the lock of a keyed registry promises of the state it guards: that it is well
/// formed.
pub(crate) struct KeyedSlotsPred;

impl<K: Ord + Clone, T> RwLockPredicate<KeyedSlots<K, T>> for KeyedSlotsPred {
    open spec fn inv(self, state: KeyedSlots<K, T>) -> bool {
        state.wf()
    }
}

/// The lock and the state behind it. Registries and handles alike hold on to it;
/// only registries keep the state open.
#[verifier::reject_recursive_types(K)]
#[verifier::reject_recursive_types(T)]
pub(crate) struct KeyedShared<K: Ord + Clone, T> {
    lock: RwLock<KeyedSlots<K, T>, KeyedSlotsPred>,
}

impl<K: Ord + Clone, T> KeyedShared<K, T> {
    /// Takes the shared lock.
    pub fn read(&self) -> (guard: RegistryMapReadGuard<'_, K, T>)
        ensures
            guard.wf(),
            guard@.wf(),
    {
        RegistryMapReadGuard { handle: Some(self.lock.acquire_read()) }
    }

    /// Takes the exclusive lock.
    pub fn write(shared: &Arc<KeyedShared<K, T>>) -> (guard: RegistryMapWriteGuard<'_, K, T>)
        ensures
            guard.wf(),
            guard@.wf(),
    {
        let (state, handle) = shared.lock.acquire_write();
        RegistryMapWriteGuard { state, handle: Some(handle), shared }
    }
}

/// What the clones of one keyed registry hold together. When the last clone goes,
/// this is dropped, and the state is closed.
#[verifier::reject_recursive_types(K)]
#[verifier::reject_recursive_types(T)]
pub(crate) struct KeyedOwner<K: Ord + Clone, T> {
    shared: Arc<KeyedShared<K, T>>,
}

impl<K: Ord + Clone, T> KeyedOwner<K, T> {
    /// Closes the state under the exclusive lock. The values are dropped after the
    /// lock is released.
    pub fn close(&self) {
        let mut guard = KeyedShared::write(&self.shared);
        let evicted = guard.state.close();
        guard.release();
        let _ = evicted;
    }
}

impl<K: Ord + Clone, T> Drop for KeyedOwner<K, T> {
    /// Runs `close`. Verus asks of every `drop` that it neither unwinds nor opens an
    /// invariant, which cannot be shown of a call into a lock, so this body is not
    /// verified.
    #[verifier::external_body]
    fn drop(&mut self)
        opens_invariants none
        no_unwind
    {
        self.close();
    }
}

/// What a handle keeps of the keyed registry that issued it.
#[verifier::reject_recursive_types(K)]
#[verifier::reject_recursive_types(T)]
pub(crate) struct KeyedAnchor<K: Ord + Clone, T> {
    shared: Arc<KeyedShared<K, T>>,
}

impl<K, T> RegistryInterface for KeyedAnchor<K, T> where
    T: Send + Sync + 'static,
    K: Ord + Send + Sync + Clone + 'static,
 {
    fn remove(&self, id: EntryId) {
        let mut guard = KeyedShared::write(&self.shared);
        let _ = guard.state.remove(id);
        guard.release();
    }
}

impl<K, T> SlotAccess<T> for KeyedAnchor<K, T> where
    T: Send + Sync + 'static,
    K: Ord + Send + Sync + Clone + 'static,
 {
    fn read_slot<'a>(&'a self, id: EntryId) -> (guard: Option<EntryReadGuard<'a, T>>) {
        self.shared.read().into_entry(id)
    }

    fn write_slot<'a>(&'a self, id: EntryId) -> (guard: Option<EntryWriteGuard<'a, T>>) {
        KeyedShared::write(&self.shared).into_entry(id)
    }
}

/// A map whose values live as long as the handles that `register` returns for them.
/// Clones share one state; the state is closed when the last clone is dropped.
/// Closing takes the exclusive lock, so the last clone must not be dropped by a thread
/// that holds a guard on the same state.
#[verifier::reject_recursive_types(K)]
#[verifier::reject_recursive_types(T)]
pub struct RegistryMap<K: Ord + Clone, T> {
    owner: Arc<KeyedOwner<K, T>>,
}

impl<K, T> Clone for RegistryMap<K, T> where
    T: Send + Sync + 'static,
    K: Ord + Send + Sync + Clone + 'static,
 {
    fn clone(&self) -> Self {
        RegistryMap { owner: self.owner.clone() }
    }
}

impl<K, T> RegistryMap<K, T> where
    T: Send + Sync + 'static,
    K: Ord + Send + Sync + Clone + 'static,
 {
    pub fn new() -> Self
        requires
            lawful_key::<K>(),
    {
        let shared = Arc::new(
            KeyedShared { lock: RwLock::new(KeyedSlots::new(), Ghost(KeyedSlotsPred)) },
        );
        RegistryMap { owner: Arc::new(KeyedOwner { shared }) }
    }

    /// Stores `value` under `key` and returns the handle that owns the slot: dropping
    /// the handle removes the key and its value. A key that is registered at the moment
    /// of the call is refused with `KeyAlreadyExists`, and the registry stays as it is.
    #[must_use]
    pub fn register(&self, key: K, value: T) -> (entry: Result<Entry<T>, RegistryMapError>)
        ensures
            entry is Ok ==> entry->Ok_0.armed() && entry->Ok_0.typed(),
    {
        let mut guard = KeyedShared::write(&self.owner.shared);
        let entry = guard.register(key, value);
        guard.release();
        entry
    }

    /// Takes the shared lock.
    pub fn read(&self) -> (guard: RegistryMapReadGuard<'_, K, T>)
        ensures
            guard.wf(),
            guard@.wf(),
    {
        self.owner.shared.read()
    }

    /// Takes the exclusive lock.
    pub fn write(&self) -> (guard: RegistryMapWriteGuard<'_, K, T>)
        ensures
            guard.wf(),
            guard@.wf(),
    {
        KeyedShared::write(&self.owner.shared)
    }

    /// The number of registered keys at the moment the shared lock was held: no more
    /// than there are identifiers.
    pub fn len(&self) -> (n: usize)
        ensures
            n <= u32::MAX,
    {
        let guard = self.read();
        proof {
            lemma_keyed_len_bounded(guard@);
        }
        guard.len()
    }

    /// Whether no key was registered at the moment the shared lock was held.
    pub fn is_empty(&self) -> bool {
        let guard = self.read();
        guard.is_empty()
    }

    /// Installs the callback that is told of every slot that a handle removes, in
    /// place of the one installed before.
    pub fn set_remove_callback<C>(&self, callback: C) where
        C: Fn(EntryId, K, T) + Send + Sync + 'static,

        requires
            forall|id: EntryId, key: K, value: T| call_requires(callback, (id, key, value)),
    {
        let mut guard = KeyedShared::write(&self.owner.shared);
        guard.state.set_remove_callback(callback);
        guard.release();
    }
}

/// The shared lock on a keyed registry, held. While it lives no key comes or goes and
/// no value changes.
#[verifier::reject_recursive_types(K)]
#[verifier::reject_recursive_types(T)]
pub struct RegistryMapReadGuard<'a, K: Ord + Clone, T> {
    handle: Option<ReadHandle<'a, KeyedSlots<K, T>, KeyedSlotsPred>>,
}

impl<'a, K: Ord + Clone, T> View for RegistryMapReadGuard<'a, K, T> {
    type V = KeyedSlotsView<K, T>;

    /// What the registry holds while the lock is held.
    closed spec fn view(&self) -> KeyedSlotsView<K, T> {
        self.handle->0.view()@
    }
}

impl<'a, K: Ord + Clone, T> RegistryMapReadGuard<'a, K, T> {
    /// The lock is held, and what it guards is well formed.
    pub closed spec fn wf(&self) -> bool {
        self.handle is Some && self.handle->0.view().wf()
    }

    /// What a held lock guards is well formed: the key and identifier mappings agree,
    /// and every live identifier is below the counter.
    pub proof fn lemma_view_wf(&self)
        requires
            self.wf(),
        ensures
            self@.wf(),
    {
    }

    /// The registered keys with their values, least key first.
    pub fn iter(&self) -> (iter: Iter<'_, K, T>)
        requires
            self.wf(),
        ensures
            in_order(self@.values, iter.remaining().map_values(|item: (&K, &T)| pair_of(item))),
            iter.initial_value_relation(&iter),
            iter.decrease() is Some,
    {
        match &self.handle {
            Some(handle) => handle.borrow().iter(),
            None => unreached(),
        }
    }

    pub fn get(&self, key: &K) -> (value: Option<&T>)
        requires
            self.wf(),
        ensures
            value == match self@.lookup(*key) {
                Some(v) => Some(&v),
                None => None,
            },
    {
        match &self.handle {
            Some(handle) => handle.borrow().get(key),
            None => None,
        }
    }

    /// The number of registered keys.
    pub fn len(&self) -> (n: usize)
        requires
            self.wf(),
        ensures
            n == self@.values.len(),
    {
        match &self.handle {
            Some(handle) => handle.borrow().len(),
            None => unreached(),
        }
    }

    /// Whether no key is registered.
    pub fn is_empty(&self) -> (b: bool)
        requires
            self.wf(),
        ensures
            b <==> self@.values.len() == 0,
    {
        match &self.handle {
            Some(handle) => handle.borrow().is_empty(),
            None => unreached(),
        }
    }

    /// Narrows the held lock to the slot `id`: a guard on the value of that slot, or
    /// `None`, with the lock given back, where the slot is not live.
    pub fn into_entry(self, id: EntryId) -> (guard: Option<EntryReadGuard<'a, T>>)
        requires
            self.wf(),
        ensures
            guard is Some <==> self@.slot_value(id) is Some,
            guard is Some ==> guard->0.wf() && guard->0.id() == id && Some(guard->0@)
                == self@.slot_value(id),
    {
        if self.slot(id).is_some() {
            let guard = EntryReadGuard { guard: Box::new(self), entry_id: id };
            proof {
                guard.describe();
            }
            Some(guard)
        } else {
            None
        }
    }

    /// Whether the lock has been given back.
    pub closed spec fn released(&self) -> bool {
        self.handle is None
    }

    /// Gives the lock back, unless that was done before. Dropping the guard does
    /// exactly this.
    pub fn release(&mut self)
        ensures
            final(self).released(),
    {
        match self.handle.take() {
            Some(handle) => handle.release_read(),
            None => {},
        }
    }
}

impl<'a, K: Ord + Clone, T> Drop for RegistryMapReadGuard<'a, K, T> {
    /// Runs `release`. Verus asks of every `drop` that it neither unwinds nor opens an
    /// invariant, which cannot be shown of a call into a lock, so this body is not
    /// verified.
    #[verifier::external_body]
    fn drop(&mut self)
        opens_invariants none
        no_unwind
    {
        self.release();
    }
}

impl<'a, K: Ord + Clone, T> SlotRead<T> for RegistryMapReadGuard<'a, K, T> {
    open spec fn valid(&self) -> bool {
        self.wf()
    }

    open spec fn content(&self, id: EntryId) -> Option<T> {
        self@.slot_value(id)
    }

    fn slot(&self, id: EntryId) -> (value: Option<&T>) {
        match &self.handle {
            Some(handle) => handle.borrow().slot(id),
            None => None,
        }
    }
}

/// The exclusive lock on a keyed registry, held. The values are open to change; keys
/// come and go only through `register` and through handles.
#[verifier::reject_recursive_types(K)]
#[verifier::reject_recursive_types(T)]
pub struct RegistryMapWriteGuard<'a, K: Ord + Clone, T> {
    state: KeyedSlots<K, T>,
    handle: Option<WriteHandle<'a, KeyedSlots<K, T>, KeyedSlotsPred>>,
    shared: &'a Arc<KeyedShared<K, T>>,
}

impl<'a, K: Ord + Clone, T> View for RegistryMapWriteGuard<'a, K, T> {
    type V = KeyedSlotsView<K, T>;

    /// What the registry holds while the lock is held.
    closed spec fn view(&self) -> KeyedSlotsView<K, T> {
        self.state@
    }
}

impl<'a, K: Ord + Clone, T> RegistryMapWriteGuard<'a, K, T> {
    /// The lock is held, and what it guards is well formed.
    pub closed spec fn wf(&self) -> bool {
        self.handle is Some && self.state.wf()
    }

    /// Whether the removal callback of the registry, if it has one, is the one that it
    /// had at `before`.
    pub closed spec fn callback_kept(&self, before: &Self) -> bool {
        self.state.same_callback(&before.state)
    }

    /// What a held lock guards is well formed: the key and identifier mappings agree,
    /// and every live identifier is below the counter.
    pub proof fn lemma_view_wf(&self)
        requires
            self.wf(),
        ensures
            self@.wf(),
    {
    }

    /// The registered keys with their values, least key first.
    pub fn iter(&self) -> (iter: Iter<'_, K, T>)
        requires
            self.wf(),
        ensures
            in_order(self@.values, iter.remaining().map_values(|item: (&K, &T)| pair_of(item))),
            iter.initial_value_relation(&iter),
            iter.decrease() is Some,
    {
        self.state.iter()
    }

    /// The registered keys with their values, least key first, each value open to
    /// change: the iterator hands out every key once and then ends. No key comes or
    /// goes, and each value ends as the caller leaves it behind its reference.
    pub fn iter_mut(&mut self) -> (iter: IterMut<'_, K, T>)
        requires
            old(self).wf(),
        ensures
            final(self).wf(),
            final(self).callback_kept(old(self)),
            final(self)@.values.dom() == old(self)@.values.dom(),
            final(self)@.keys == old(self)@.keys,
            final(self)@.ids == old(self)@.ids,
            final(self)@.next_id == old(self)@.next_id,
            final(self)@.closed == old(self)@.closed,
            iter.obeys_prophetic_iter_laws(),
            in_order(
                old(self)@.values,
                iter.remaining().map_values(|item: (&K, &mut T)| pair_of_mut(item)),
            ),
            forall|i: int|
                0 <= i < iter.remaining().len() ==> final(self)@.values[*(
                #[trigger] iter.remaining()[i]).0] == *final(iter.remaining()[i].1),
    {
        self.state.iter_mut()
    }

    pub fn get(&self, key: &K) -> (value: Option<&T>)
        requires
            self.wf(),
        ensures
            value == match self@.lookup(*key) {
                Some(v) => Some(&v),
                None => None,
            },
    {
        self.state.get(key)
    }

    pub fn get_mut(&mut self, key: &K) -> (value: Option<&mut T>)
        requires
            old(self).wf(),
        ensures
            final(self).wf(),
            final(self).callback_kept(old(self)),
            match value {
                Some(v) => old(self)@.lookup(*key) == Some(*v) && final(self)@ == old(
                    self,
                )@.replaced(*key, *final(v)),
                None => old(self)@.lookup(*key) is None && final(self)@ == old(self)@,
            },
    {
        self.state.get_mut(key)
    }

    /// Stores `value` under `key` and under the next identifier, and returns the
    /// handle that owns the slot. A key that is registered already is refused with
    /// `KeyAlreadyExists`; any other key is refused with `Unavailable` where the
    /// registry has issued every identifier or is closed. A refusal changes nothing.
    /// The handle must outlive the guard: dropping a handle takes the exclusive lock.
    #[must_use]
    pub fn register(&mut self, key: K, value: T) -> (entry: Result<Entry<T>, RegistryMapError>) where
        T: Send + Sync + 'static,
        K: Send + Sync + 'static,

        requires
            old(self).wf(),
        ensures
            final(self).wf(),
            final(self).callback_kept(old(self)),
            match entry {
                Ok(handle) => !old(self)@.values.contains_key(key) && old(self)@.accepting()
                    && handle.armed() && handle.typed() && handle.id() == old(self)@.upcoming()
                    && final(self)@ == old(self)@.registered(key, value),
                Err(RegistryMapError::KeyAlreadyExists) => old(self)@.values.contains_key(key)
                    && final(self)@ == old(self)@,
                Err(RegistryMapError::Unavailable) => !old(self)@.values.contains_key(key)
                    && !old(self)@.accepting() && final(self)@ == old(self)@,
            },
    {
        match self.state.insert(key, value) {
            Ok(id) => Ok(
                Entry::new(
                    Box::new(KeyedAnchor { shared: self.shared.clone() }),
                    Box::new(KeyedAnchor { shared: self.shared.clone() }),
                    id,
                ),
            ),
            Err(error) => Err(error),
        }
    }

    /// Narrows the held lock to the slot `id`: a guard on the value of that slot, or
    /// `None`, with the lock given up, where the slot is not live.
    pub fn into_entry(self, id: EntryId) -> (guard: Option<EntryWriteGuard<'a, T>>)
        requires
            self.wf(),
        ensures
            guard is Some <==> self@.slot_value(id) is Some,
            guard is Some ==> guard->0.wf() && guard->0.id() == id && Some(guard->0@)
                == self@.slot_value(id),
    {
        if self.slot(id).is_some() {
            let guard = EntryWriteGuard { guard: Box::new(self), entry_id: id };
            proof {
                guard.describe();
            }
            Some(guard)
        } else {
            None
        }
    }

    /// Whether the lock has been given up.
    pub closed spec fn released(&self) -> bool {
        self.handle is None
    }

    /// Puts the state back and gives the lock up, unless that was done before.
    /// Dropping the guard does exactly this.
    pub fn release(&mut self)
        requires
            old(self).wf() || old(self).released(),
        ensures
            final(self).released(),
    {
        match self.handle.take() {
            Some(handle) => {
                let mut state = KeyedSlots::new();
                std::mem::swap(&mut self.state, &mut state);
                handle.release_write(state);
            },
            None => {},
        }
    }
}

impl<'a, K: Ord + Clone, T> Drop for RegistryMapWriteGuard<'a, K, T> {
    /// Runs `release`. Verus asks of every `drop` that it neither unwinds nor opens an
    /// invariant, which cannot be shown of a call into a lock, so this body is not
    /// verified. What `release` requires holds here: a guard is made well formed, and
    /// every function that changes it ends with it well formed or released.
    #[verifier::external_body]
    fn drop(&mut self)
        opens_invariants none
        no_unwind
    {
        self.release();
    }
}

impl<'a, K: Ord + Clone, T> SlotWrite<T> for RegistryMapWriteGuard<'a, K, T> {
    open spec fn valid(&self) -> bool {
        self.wf()
    }

    open spec fn content(&self, id: EntryId) -> Option<T> {
        self@.slot_value(id)
    }

    fn slot(&self, id: EntryId) -> (value: Option<&T>) {
        self.state.slot(id)
    }

    fn slot_mut(&mut self, id: EntryId) -> (value: Option<&mut T>) {
        self.state.slot_mut(id)
    }
}

} // verus!
