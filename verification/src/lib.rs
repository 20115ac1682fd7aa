//! Registries whose values live as long as the handles that were issued for them.
//!
//! A [`registry::Registry`] stores values under identifiers that it issues in
//! increasing order and never twice. Registering a value returns an
//! [`entry::Entry`]: a handle that owns the slot and removes it when it is dropped. A
//! [`registry_map::RegistryMap`] does the same under keys chosen by the caller, an
//! [`event::Event`] keeps observers in a registry and tells them of what is
//! dispatched, and a [`traced_registry::TracedRegistry`] tells observers of every slot
//! that comes and goes.
//!
//! What a registry holds is described by [`registry::SlotsView`] and
//! [`registry_map::KeyedSlotsView`]; the operations on the state behind the lock,
//! [`registry::Slots`] and [`registry_map::KeyedSlots`], are specified over these, and
//! [`lifecycle`] proves what follows for whole sequences of registrations and drops.
//! The state is shared behind a lock, so the operations on a registry itself promise
//! only what holds whatever other threads do; a guard, which holds the lock, says
//! exactly what the registry holds.
//!
//! [`flags::Flags`] is a set of flags of an enum, kept as bits.
//! [`state_machine::StateMachine`] calls the hooks of its states in a fixed order; its
//! contracts say which hooks are called, in which order, and on what.

pub mod entry;
pub mod event;
pub mod flags;
pub mod lifecycle;
pub mod ordered_map;
pub mod reflect;
pub mod registry;
pub mod state_machine;
pub mod registry_map;
pub mod traced_registry;
