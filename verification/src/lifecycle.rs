use crate::entry::EntryId;
use crate::registry::{below, lemma_below_len, SlotsView};
use crate::traced_registry::{register_event, unregister_event, TracedRegistryEvent};
use vstd::prelude::*;

verus! {

/// One step in the life of a registry: a value is registered, or the handle of a slot
/// is dropped.
pub enum Step<T> {
    Register(T),
    Release(EntryId),
}

/// The state after one step. A registry that accepts no value stays as it is when one
/// is registered.
pub open spec fn step<T>(state: SlotsView<T>, step: Step<T>) -> SlotsView<T> {
    match step {
        Step::Register(value) => if state.accepting() {
            state.registered(value)
        } else {
            state
        },
        Step::Release(id) => state.released(id),
    }
}

/// The state after `steps`, taken in order.
pub open spec fn run<T>(state: SlotsView<T>, steps: Seq<Step<T>>) -> SlotsView<T>
    decreases steps.len(),
{
    if steps.len() == 0 {
        state
    } else {
        step(run(state, steps.drop_last()), steps.last())
    }
}

/// The identifiers that `steps` issue, in the order in which they are issued.
pub open spec fn issued<T>(state: SlotsView<T>, steps: Seq<Step<T>>) -> Seq<EntryId>
    decreases steps.len(),
{
    if steps.len() == 0 {
        Seq::empty()
    } else {
        let before = run(state, steps.drop_last());
        let earlier = issued(state, steps.drop_last());
        match steps.last() {
            Step::Register(_) => if before.accepting() {
                earlier.push(before.upcoming())
            } else {
                earlier
            },
            Step::Release(_) => earlier,
        }
    }
}

/// What the removal callback is told, call by call, while `steps` are taken: the
/// identifier and the value of each slot that a step releases.
pub open spec fn told<T>(state: SlotsView<T>, steps: Seq<Step<T>>) -> Seq<(EntryId, T)>
    decreases steps.len(),
{
    if steps.len() == 0 {
        Seq::empty()
    } else {
        let before = run(state, steps.drop_last());
        let earlier = told(state, steps.drop_last());
        match steps.last() {
            Step::Register(_) => earlier,
            Step::Release(id) => if before.slots.contains_key(id) {
                earlier.push((id, before.slots[id]))
            } else {
                earlier
            },
        }
    }
}

/// What the observers of a traced registry are told of, event by event, while `steps`
/// are taken: the event of `tell_registered` for each value that is registered, with
/// the identifier it gets, and the event of `tell_unregistered` for each slot that is
/// released, with the value it held.
pub open spec fn events<T>(state: SlotsView<T>, steps: Seq<Step<T>>) -> Seq<
    (TracedRegistryEvent, EntryId, T),
>
    decreases steps.len(),
{
    if steps.len() == 0 {
        Seq::empty()
    } else {
        let before = run(state, steps.drop_last());
        let earlier = events(state, steps.drop_last());
        match steps.last() {
            Step::Register(value) => if before.accepting() {
                earlier.push(register_event(before.upcoming(), value))
            } else {
                earlier
            },
            Step::Release(id) => if before.slots.contains_key(id) {
                earlier.push(unregister_event(id, before.slots[id]))
            } else {
                earlier
            },
        }
    }
}

/// The steps that register `values`, first to last.
pub open spec fn registrations<T>(values: Seq<T>) -> Seq<Step<T>> {
    Seq::new(values.len(), |i: int| Step::Register(values[i]))
}

/// The steps that release the slots `order`, first to last.
pub open spec fn releases<T>(order: Seq<EntryId>) -> Seq<Step<T>> {
    Seq::new(order.len(), |i: int| Step::Release(order[i]))
}

/// Every step keeps a well-formed registry well formed, and never lowers the counter.
pub proof fn lemma_step_keeps_wf<T>(state: SlotsView<T>, next: Step<T>)
    requires
        state.wf(),
    ensures
        step(state, next).wf(),
        state.next_id <= step(state, next).next_id,
        step(state, next).closed == state.closed,
{
    match next {
        Step::Register(value) => {
            if state.accepting() {
                let after = state.registered(value);
                assert(state.upcoming() as nat == state.next_id);
                assert(after.slots.dom() =~= state.slots.dom().insert(state.upcoming()));
                assert forall|id: EntryId| after.slots.contains_key(id) implies (id as nat)
                    < after.next_id by {
                    if id != state.upcoming() {
                        assert(state.slots.contains_key(id));
                    }
                }
            }
        },
        Step::Release(id) => {
            assert(state.released(id).slots.dom() =~= state.slots.dom().remove(id));
            if state.closed {
                assert(state.released(id).slots.dom() =~= Set::<EntryId>::empty());
            }
        },
    }
}

/// Identifiers are issued in strictly increasing order and never twice, whatever is
/// registered and whichever slots are released in between; none of them is the
/// identifier of a slot that was live at the start.
pub proof fn lemma_identifiers_increase<T>(state: SlotsView<T>, steps: Seq<Step<T>>)
    requires
        state.wf(),
    ensures
        run(state, steps).wf(),
        state.next_id <= run(state, steps).next_id,
        forall|i: int|
            0 <= i < issued(state, steps).len() ==> state.next_id <= (#[trigger] issued(
                state,
                steps,
            )[i]) < run(state, steps).next_id,
        forall|i: int, j: int|
            0 <= i < j < issued(state, steps).len() ==> issued(state, steps)[i] < issued(
                state,
                steps,
            )[j],
        forall|i: int|
            0 <= i < issued(state, steps).len() ==> !state.slots.contains_key(
                #[trigger] issued(state, steps)[i],
            ),
    decreases steps.len(),
{
    if steps.len() > 0 {
        let prefix = steps.drop_last();
        let before = run(state, prefix);
        let earlier = issued(state, prefix);
        lemma_identifiers_increase(state, prefix);
        lemma_step_keeps_wf(before, steps.last());
        match steps.last() {
            Step::Register(value) => {
                if before.accepting() {
                    let id = before.upcoming();
                    assert(id as nat == before.next_id);
                    assert(issued(state, steps) == earlier.push(id));
                    assert forall|i: int| 0 <= i < issued(state, steps).len() implies state.next_id
                        <= (#[trigger] issued(state, steps)[i]) < run(state, steps).next_id
                        && !state.slots.contains_key(issued(state, steps)[i]) by {
                        if i < earlier.len() {
                            assert(issued(state, steps)[i] == earlier[i]);
                        }
                    }
                    assert forall|i: int, j: int|
                        0 <= i < j < issued(state, steps).len() implies issued(state, steps)[i]
                        < issued(state, steps)[j] by {
                        assert(issued(state, steps)[i] == earlier[i]);
                        if j < earlier.len() {
                            assert(issued(state, steps)[j] == earlier[j]);
                        }
                    }
                } else {
                    assert(issued(state, steps) == earlier);
                }
            },
            Step::Release(id) => {
                assert(issued(state, steps) == earlier);
            },
        }
    }
}

/// Dropping a handle removes the slot it owns and no other; the callback is told of
/// that slot and its value, once, if the slot was live.
pub proof fn lemma_release_removes_one<T>(state: SlotsView<T>, id: EntryId)
    requires
        state.wf(),
    ensures
        state.released(id).wf(),
        state.released(id).lookup(id) is None,
        forall|other: EntryId| other != id ==> state.released(id).lookup(other) == state.lookup(other),
        told(state, seq![Step::Release(id)]) == (if state.slots.contains_key(id) {
            seq![(id, state.slots[id])]
        } else {
            Seq::empty()
        }),
{
    let steps = seq![Step::<T>::Release(id)];
    lemma_step_keeps_wf(state, Step::Release(id));
    assert(steps.drop_last() =~= Seq::<Step<T>>::empty());
    assert(steps.last() == Step::<T>::Release(id));
    reveal_with_fuel(told, 2);
    reveal_with_fuel(run, 2);
    if state.slots.contains_key(id) {
        assert(told(state, steps) =~= seq![(id, state.slots[id])]);
    }
}

/// Values registered in a new registry get the identifiers 0, 1, 2 and so on, in the
/// order in which they are registered.
pub proof fn lemma_first_identifiers<T>(values: Seq<T>)
    requires
        values.len() < u32::MAX,
    ensures
        run(SlotsView::fresh(), registrations(values)).wf(),
        run(SlotsView::fresh(), registrations(values)).next_id == values.len(),
        !run(SlotsView::fresh(), registrations(values)).closed,
        forall|id: EntryId|
            run(SlotsView::fresh(), registrations(values)).slots.contains_key(id) <==> (id as int)
                < values.len(),
        forall|id: EntryId|
            (id as int) < values.len() ==> run(
                SlotsView::fresh(),
                registrations(values),
            ).slots[id] == values[id as int],
        issued(SlotsView::fresh(), registrations(values)) == Seq::new(
            values.len(),
            |i: int| i as EntryId,
        ),
    decreases values.len(),
{
    let fresh = SlotsView::<T>::fresh();
    let steps = registrations(values);
    if values.len() == 0 {
        assert(issued(fresh, steps) =~= Seq::new(values.len(), |i: int| i as EntryId));
    } else {
        let fewer = values.drop_last();
        lemma_first_identifiers(fewer);
        assert(steps.drop_last() =~= registrations(fewer));
        assert(steps.last() == Step::Register(values.last()));
        let before = run(fresh, registrations(fewer));
        assert(before.accepting());
        assert(before.upcoming() as int == fewer.len());
        lemma_step_keeps_wf(before, steps.last());
        let after = run(fresh, steps);
        assert(after == before.registered(values.last()));
        assert forall|id: EntryId| (id as int) < values.len() implies after.slots[id]
            == values[id as int] by {
            if (id as int) < fewer.len() {
                assert(before.slots[id] == fewer[id as int]);
                assert(id != before.upcoming());
            } else {
                assert(id == before.upcoming());
            }
        }
        assert(issued(fresh, steps) =~= Seq::new(values.len(), |i: int| i as EntryId));
    }
}

/// Releasing live slots, each once, in any order, removes exactly those slots, and the
/// callback is told of each of them, in that order, with the value that the slot held.
pub proof fn lemma_release_in_any_order<T>(state: SlotsView<T>, order: Seq<EntryId>)
    requires
        state.wf(),
        order.no_duplicates(),
        forall|i: int| 0 <= i < order.len() ==> state.slots.contains_key(#[trigger] order[i]),
    ensures
        run(state, releases(order)).wf(),
        run(state, releases(order)).slots == state.slots.remove_keys(order.to_set()),
        run(state, releases(order)).next_id == state.next_id,
        told(state, releases(order)) == Seq::new(
            order.len(),
            |i: int| (order[i], state.slots[order[i]]),
        ),
    decreases order.len(),
{
    let steps = releases::<T>(order);
    if order.len() == 0 {
        assert(state.slots.remove_keys(order.to_set()) =~= state.slots);
        assert(told(state, steps) =~= Seq::new(
            order.len(),
            |i: int| (order[i], state.slots[order[i]]),
        ));
    } else {
        let fewer = order.drop_last();
        let last = order.last();
        lemma_release_in_any_order(state, fewer);
        assert(steps.drop_last() =~= releases::<T>(fewer));
        assert(steps.last() == Step::<T>::Release(last));
        let before = run(state, releases::<T>(fewer));
        lemma_step_keeps_wf(before, steps.last());
        assert(!fewer.to_set().contains(last)) by {
            if fewer.to_set().contains(last) {
                let i = choose|i: int| 0 <= i < fewer.len() && fewer[i] == last;
                assert(order[i] == order[order.len() - 1]);
            }
        }
        assert(before.slots.contains_key(last));
        assert(before.slots[last] == state.slots[last]);
        assert(order.to_set() =~= fewer.to_set().insert(last)) by {
            assert forall|id: EntryId| order.to_set().contains(id) implies fewer.to_set().insert(
                last,
            ).contains(id) by {
                let i = choose|i: int| 0 <= i < order.len() && order[i] == id;
                if i < fewer.len() {
                    assert(fewer[i] == id);
                }
            }
            assert forall|id: EntryId| fewer.to_set().insert(last).contains(
                id,
            ) implies order.to_set().contains(id) by {
                if id == last {
                    assert(order[order.len() - 1] == id);
                } else {
                    let i = choose|i: int| 0 <= i < fewer.len() && fewer[i] == id;
                    assert(order[i] == id);
                }
            }
        }
        assert(before.released(last).slots =~= state.slots.remove_keys(order.to_set()));
        assert(told(state, steps) =~= Seq::new(
            order.len(),
            |i: int| (order[i], state.slots[order[i]]),
        ));
    }
}

/// Dropping the handles of all live slots, in any order, leaves the registry empty, and
/// the callback has been told of every slot once, with the value that the slot held.
pub proof fn lemma_release_every_slot<T>(state: SlotsView<T>, order: Seq<EntryId>)
    requires
        state.wf(),
        order.no_duplicates(),
        forall|id: EntryId| state.slots.contains_key(id) <==> order.contains(id),
    ensures
        run(state, releases(order)).slots == Map::<EntryId, T>::empty(),
        told(state, releases(order)).len() == order.len(),
        forall|i: int|
            0 <= i < order.len() ==> (#[trigger] told(state, releases(order))[i]) == (
                order[i],
                state.slots[order[i]],
            ),
{
    assert forall|i: int| 0 <= i < order.len() implies state.slots.contains_key(
        #[trigger] order[i],
    ) by {
        assert(order.contains(order[i]));
    }
    lemma_release_in_any_order(state, order);
    assert(state.slots.remove_keys(order.to_set()) =~= Map::<EntryId, T>::empty()) by {
        assert forall|id: EntryId| !state.slots.remove_keys(order.to_set()).contains_key(id) by {
            if state.slots.contains_key(id) {
                assert(order.contains(id));
                assert(order.to_set().contains(id));
            }
        }
    }
}

/// Registering values in a new registry and then dropping the handle of each of
/// them, in any order, leaves the registry empty; the callback has been told of each
/// identifier once, in the order of the drops, with the value registered under it.
pub proof fn lemma_register_then_release_all<T>(values: Seq<T>, order: Seq<EntryId>)
    requires
        values.len() < u32::MAX,
        order.len() == values.len(),
        order.no_duplicates(),
        forall|i: int| 0 <= i < order.len() ==> (#[trigger] order[i] as int) < values.len(),
    ensures
        run(
            run(SlotsView::fresh(), registrations(values)),
            releases(order),
        ).slots == Map::<EntryId, T>::empty(),
        told(run(SlotsView::fresh(), registrations(values)), releases(order)) == Seq::new(
            order.len(),
            |i: int| (order[i], values[order[i] as int]),
        ),
{
    let full = run(SlotsView::<T>::fresh(), registrations(values));
    lemma_first_identifiers(values);
    lemma_below_len(values.len());
    order.unique_seq_to_set();
    vstd::seq_lib::seq_to_set_is_finite(order);
    assert(order.to_set().subset_of(below(values.len()))) by {
        assert forall|id: EntryId| order.to_set().contains(id) implies below(
            values.len(),
        ).contains(id) by {
            let i = choose|i: int| 0 <= i < order.len() && order[i] == id;
            assert((order[i] as int) < values.len());
        }
    }
    vstd::set_lib::lemma_subset_equality(order.to_set(), below(values.len()));
    assert forall|id: EntryId| full.slots.contains_key(id) <==> order.contains(id) by {
        if full.slots.contains_key(id) {
            assert(below(values.len()).contains(id));
            assert(order.to_set().contains(id));
        }
        if order.contains(id) {
            assert(order.to_set().contains(id));
            assert(below(values.len()).contains(id));
        }
    }
    lemma_release_every_slot(full, order);
    assert(told(full, releases(order)) =~= Seq::new(
        order.len(),
        |i: int| (order[i], values[order[i] as int]),
    ));
}

/// Taking `first` and then `then` is taking them one after the other: the state and
/// the events of the whole are those of the parts.
pub proof fn lemma_steps_compose<T>(state: SlotsView<T>, first: Seq<Step<T>>, then: Seq<Step<T>>)
    ensures
        run(state, first + then) == run(run(state, first), then),
        events(state, first + then) == events(state, first) + events(run(state, first), then),
    decreases then.len(),
{
    if then.len() == 0 {
        assert(first + then =~= first);
        assert(events(state, first) + events(run(state, first), then) =~= events(state, first));
    } else {
        lemma_steps_compose(state, first, then.drop_last());
        assert((first + then).drop_last() =~= first + then.drop_last());
        assert((first + then).last() == then.last());
        let before = run(run(state, first), then.drop_last());
        let earlier = events(run(state, first), then.drop_last());
        match then.last() {
            Step::Register(value) => {
                if before.accepting() {
                    assert(events(state, first + then) =~= events(state, first) + earlier.push(
                        register_event(before.upcoming(), value),
                    ));
                }
            },
            Step::Release(id) => {
                if before.slots.contains_key(id) {
                    assert(events(state, first + then) =~= events(state, first) + earlier.push(
                        unregister_event(id, before.slots[id]),
                    ));
                }
            },
        }
    }
}

/// A slot that no step releases stays as it is, and no event tells of it.
pub proof fn lemma_slot_survives<T>(state: SlotsView<T>, steps: Seq<Step<T>>, id: EntryId)
    requires
        state.wf(),
        state.slots.contains_key(id),
        forall|i: int| 0 <= i < steps.len() ==> #[trigger] steps[i] != Step::<T>::Release(id),
    ensures
        run(state, steps).wf(),
        run(state, steps).slots.contains_key(id),
        run(state, steps).slots[id] == state.slots[id],
        forall|k: int|
            0 <= k < events(state, steps).len() ==> (#[trigger] events(state, steps)[k]).1 != id,
    decreases steps.len(),
{
    if steps.len() > 0 {
        let prefix = steps.drop_last();
        assert forall|i: int| 0 <= i < prefix.len() implies #[trigger] prefix[i] != Step::<
            T,
        >::Release(id) by {
            assert(prefix[i] == steps[i]);
        }
        lemma_slot_survives(state, prefix, id);
        let before = run(state, prefix);
        let earlier = events(state, prefix);
        lemma_step_keeps_wf(before, steps.last());
        assert(steps.last() == steps[steps.len() - 1]);
        match steps.last() {
            Step::Register(value) => {
                if before.accepting() {
                    assert(before.upcoming() as nat == before.next_id);
                    assert(before.upcoming() != id);
                    let after = events(state, steps);
                    assert forall|k: int| 0 <= k < after.len() implies (#[trigger] after[k]).1
                        != id by {
                        if k < earlier.len() {
                            assert(after[k] == earlier[k]);
                        }
                    }
                }
            },
            Step::Release(other) => {
                assert(other != id);
                if before.slots.contains_key(other) {
                    let after = events(state, steps);
                    assert forall|k: int| 0 <= k < after.len() implies (#[trigger] after[k]).1
                        != id by {
                        if k < earlier.len() {
                            assert(after[k] == earlier[k]);
                        }
                    }
                }
            },
        }
    }
}

/// In the life of a traced registry, whatever came `before`: registering `value` adds
/// one `Register` event, with the identifier that is issued and with `value`; whatever
/// happens `between`, short of releasing that slot, adds no event about it; and
/// releasing the slot then adds one `UnRegister` event, with the same identifier and
/// with `value`, after all of these.
pub proof fn lemma_register_precedes_unregister<T>(
    state: SlotsView<T>,
    before: Seq<Step<T>>,
    value: T,
    between: Seq<Step<T>>,
)
    requires
        state.wf(),
        run(state, before).accepting(),
        forall|i: int|
            0 <= i < between.len() ==> #[trigger] between[i] != Step::<T>::Release(
                run(state, before).upcoming(),
            ),
    ensures
        events(state, before.push(Step::Register(value))) == events(state, before).push(
            register_event(run(state, before).upcoming(), value),
        ),
        forall|k: int|
            0 <= k < events(run(state, before.push(Step::Register(value))), between).len() ==> (
            #[trigger] events(run(state, before.push(Step::Register(value))), between)[k]).1
                != run(state, before).upcoming(),
        events(
            state,
            (before.push(Step::Register(value)) + between).push(
                Step::Release(run(state, before).upcoming()),
            ),
        ) == (events(state, before).push(
            register_event(run(state, before).upcoming(), value),
        ) + events(run(state, before.push(Step::Register(value))), between)).push(
            unregister_event(run(state, before).upcoming(), value),
        ),
{
    let id = run(state, before).upcoming();
    let registered = before.push(Step::Register(value));
    let lived = registered + between;
    let all = lived.push(Step::Release(id));
    lemma_identifiers_increase(state, before);
    assert(registered.drop_last() =~= before);
    assert(registered.last() == Step::Register(value));
    let after = run(state, registered);
    lemma_step_keeps_wf(run(state, before), Step::Register(value));
    assert(after == run(state, before).registered(value));
    assert(after.slots.contains_key(id));
    assert(after.slots[id] == value);
    lemma_slot_survives(after, between, id);
    lemma_steps_compose(state, registered, between);
    assert(all.drop_last() =~= lived);
    assert(all.last() == Step::<T>::Release(id));
}

/// Releasing a slot twice is releasing it once: the second release finds nothing, so a
/// handle that was erased and then dropped, or revoked and then dropped, removes its
/// slot once and tells the callback once.
pub proof fn lemma_release_once<T>(state: SlotsView<T>, id: EntryId)
    requires
        state.wf(),
    ensures
        state.released(id).released(id) == state.released(id),
        told(state, seq![Step::Release(id), Step::Release(id)]) == told(
            state,
            seq![Step::Release(id)],
        ),
{
    assert(state.released(id).slots.remove(id) =~= state.released(id).slots);
    let once = seq![Step::<T>::Release(id)];
    let twice = seq![Step::<T>::Release(id), Step::<T>::Release(id)];
    assert(twice.drop_last() =~= once);
    assert(once.drop_last() =~= Seq::<Step<T>>::empty());
    reveal_with_fuel(told, 3);
    reveal_with_fuel(run, 3);
    assert(run(state, once) == state.released(id));
}

/// Once the last registry is gone, handles find nothing: no slot is live, releasing
/// changes nothing and tells the callback nothing, and nothing can be registered.
pub proof fn lemma_closed_is_inert<T>(state: SlotsView<T>, id: EntryId)
    requires
        state.wf(),
    ensures
        state.shut().wf(),
        state.shut().lookup(id) is None,
        state.shut().released(id) == state.shut(),
        !state.shut().accepting(),
        told(state.shut(), seq![Step::Release(id)]) == Seq::<(EntryId, T)>::empty(),
{
    assert(state.shut().slots.remove(id) =~= state.shut().slots);
    let steps = seq![Step::<T>::Release(id)];
    assert(steps.drop_last() =~= Seq::<Step<T>>::empty());
    reveal_with_fuel(told, 2);
    reveal_with_fuel(run, 2);
}

} // verus!
