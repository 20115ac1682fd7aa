use std::marker::PhantomData;
use vstd::prelude::*;

verus! {

/// The types that a state works with: the enum of all states of its machine, the
/// context that the states share, and the arguments handed to every hook.
pub trait StateTypes<G1 = (), G2 = (), G3 = (), G4 = (), G5 = (), G6 = (), G7 = (), G8 = ()> {
    type States;

    type Context;

    type Args;
}

/// The hooks of a state. A machine calls them; what each does to the state, to the
/// arguments and to the context is for the state to say.
pub trait State<
    G1 = (),
    G2 = (),
    G3 = (),
    G4 = (),
    G5 = (),
    G6 = (),
    G7 = (),
    G8 = (),
> where Self: StateTypes<G1, G2, G3, G4, G5, G6, G7, G8> {
    /// Called when the machine has come into this state.
    #[allow(unused_variables)]
    fn on_enter(&mut self, args: Option<&mut Self::Args>, context: &mut Self::Context) {
    }

    /// Called at every update. `Some` asks the machine to go to that state.
    #[allow(unused_variables)]
    fn on_update(&mut self, args: Option<&mut Self::Args>, context: &mut Self::Context) -> Option<
        Self::States,
    > {
        None
    }

    /// Called when the machine is about to leave this state.
    #[allow(unused_variables)]
    fn on_leave(&mut self, args: Option<&mut Self::Args>, context: &mut Self::Context) {
    }
}

/// The hooks of a machine as a whole.
pub trait Machine<
    G1 = (),
    G2 = (),
    G3 = (),
    G4 = (),
    G5 = (),
    G6 = (),
    G7 = (),
    G8 = (),
> where Self: StateTypes<G1, G2, G3, G4, G5, G6, G7, G8> {
    /// Called on the state that is left, between its `on_leave` and the `on_enter` of
    /// the state that follows.
    #[allow(unused_variables)]
    fn on_transition(&mut self, new_state: &Self::States, context: &mut Self::Context) {
    }

    #[allow(unused_variables)]
    fn on_update(&mut self, context: &mut Self::Context) {
    }
}

/// A state machine: the state it is in, and the context that its states share.
#[verifier::reject_recursive_types(S)]
#[verifier::reject_recursive_types(G1)]
#[verifier::reject_recursive_types(G2)]
#[verifier::reject_recursive_types(G3)]
#[verifier::reject_recursive_types(G4)]
#[verifier::reject_recursive_types(G5)]
#[verifier::reject_recursive_types(G6)]
#[verifier::reject_recursive_types(G7)]
#[verifier::reject_recursive_types(G8)]
pub struct StateMachine<
    S,
    G1 = (),
    G2 = (),
    G3 = (),
    G4 = (),
    G5 = (),
    G6 = (),
    G7 = (),
    G8 = (),
> where
    S: State<G1, G2, G3, G4, G5, G6, G7, G8> + Machine<G1, G2, G3, G4, G5, G6, G7, G8> + StateTypes<
        G1,
        G2,
        G3,
        G4,
        G5,
        G6,
        G7,
        G8,
        States = S,
    >,
 {
    state: S::States,
    context: S::Context,
    phantom: PhantomData<(G1, G2, G3, G4, G5, G6, G7, G8)>,
}

impl<S, G1, G2, G3, G4, G5, G6, G7, G8> StateMachine<S, G1, G2, G3, G4, G5, G6, G7, G8> where
    S: State<G1, G2, G3, G4, G5, G6, G7, G8> + Machine<G1, G2, G3, G4, G5, G6, G7, G8> + StateTypes<
        G1,
        G2,
        G3,
        G4,
        G5,
        G6,
        G7,
        G8,
        States = S,
    >,
 {
    /// The state that the machine is in.
    pub closed spec fn current(&self) -> S {
        self.state
    }

    /// The context of the machine.
    pub closed spec fn shared(&self) -> S::Context {
        self.context
    }

    /// Makes a machine in `state` with `context`: the state is entered, without
    /// arguments, before the machine is handed out.
    pub fn new_context<S2>(state: S2, context: S::Context) -> (machine: StateMachine<
        S2::States,
        G1,
        G2,
        G3,
        G4,
        G5,
        G6,
        G7,
        G8,
    >) where S2: StateTypes<G1, G2, G3, G4, G5, G6, G7, G8, States = S> + Into<S2::States>
        ensures
            exists|first: S, s: &mut S, c: &mut S::Context|
                call_ensures(<S2 as Into<S>>::into, (state,), first) && *s == first && *c
                    == context && call_ensures(
                    <S as State<G1, G2, G3, G4, G5, G6, G7, G8>>::on_enter,
                    (s, None, c),
                    (),
                ) && machine.current() == *final(s) && machine.shared() == *final(c),
    {
        let mut context = context;
        let mut state: S = state.into();
        State::on_enter(&mut state, None, &mut context);
        StateMachine::<S2::States, G1, G2, G3, G4, G5, G6, G7, G8> {
            state,
            context,
            phantom: PhantomData,
        }
    }

    /// Makes a machine in `state` as `new_context` does, with the default context.
    pub fn new<S2>(state: S2) -> (machine: Self) where
        S2: StateTypes<G1, G2, G3, G4, G5, G6, G7, G8, States = S> + Into<S2::States>,
        S::Context: Default,

        ensures
            exists|context: S::Context|
                call_ensures(<S::Context as Default>::default, (), context) && call_ensures(
                    Self::new_context::<S2>,
                    (state, context),
                    machine,
                ),
    {
        Self::new_context(state, S::Context::default())
    }

    /// Takes the machine from the state it is in to `new_state`. The hooks are called in
    /// this order: `on_leave` of the state that is left, `on_transition` of that state
    /// with the new one, and, once the new state is the machine's, its `on_enter`. The
    /// arguments, where there are any, go to `on_leave` and to `on_enter`. What the
    /// machine holds in the end is what these calls leave.
    pub fn transition_args<N: Into<S>>(&mut self, new_state: N, args: Option<&mut S::Args>)
        ensures
            args is None ==> exists|
                next: S,
                s1: &mut S,
                c1: &mut S::Context,
                s2: &mut S,
                c2: &mut S::Context,
                s3: &mut S,
                c3: &mut S::Context,
            |
                *s1 == old(self).current() && *c1 == old(self).shared() && call_ensures(
                    <S as State<G1, G2, G3, G4, G5, G6, G7, G8>>::on_leave,
                    (s1, None, c1),
                    (),
                ) && call_ensures(<N as Into<S>>::into, (new_state,), next) && *s2 == *final(s1)
                    && *c2 == *final(c1) && call_ensures(
                    <S as Machine<G1, G2, G3, G4, G5, G6, G7, G8>>::on_transition,
                    (s2, &next, c2),
                    (),
                ) && *s3 == next && *c3 == *final(c2) && call_ensures(
                    <S as State<G1, G2, G3, G4, G5, G6, G7, G8>>::on_enter,
                    (s3, None, c3),
                    (),
                ) && final(self).current() == *final(s3) && final(self).shared() == *final(c3),
            args matches Some(given) ==> exists|
                next: S,
                s1: &mut S,
                a1: &mut S::Args,
                c1: &mut S::Context,
                s2: &mut S,
                c2: &mut S::Context,
                s3: &mut S,
                a3: &mut S::Args,
                c3: &mut S::Context,
            |
                *s1 == old(self).current() && *a1 == *given && *c1 == old(self).shared()
                    && call_ensures(
                    <S as State<G1, G2, G3, G4, G5, G6, G7, G8>>::on_leave,
                    (s1, Some(a1), c1),
                    (),
                ) && call_ensures(<N as Into<S>>::into, (new_state,), next) && *s2 == *final(s1)
                    && *c2 == *final(c1) && call_ensures(
                    <S as Machine<G1, G2, G3, G4, G5, G6, G7, G8>>::on_transition,
                    (s2, &next, c2),
                    (),
                ) && *s3 == next && *a3 == *final(a1) && *c3 == *final(c2) && call_ensures(
                    <S as State<G1, G2, G3, G4, G5, G6, G7, G8>>::on_enter,
                    (s3, Some(a3), c3),
                    (),
                ) && final(self).current() == *final(s3) && final(self).shared() == *final(c3)
                    && *final(given) == *final(a3),
    {
        match args {
            Some(given) => {
                State::on_leave(&mut self.state, Some(&mut *given), &mut self.context);
                let next: S = new_state.into();
                Machine::on_transition(&mut self.state, &next, &mut self.context);
                self.state = next;
                State::on_enter(&mut self.state, Some(given), &mut self.context);
            },
            None => {
                State::on_leave(&mut self.state, None, &mut self.context);
                let next: S = new_state.into();
                Machine::on_transition(&mut self.state, &next, &mut self.context);
                self.state = next;
                State::on_enter(&mut self.state, None, &mut self.context);
            },
        }
    }

    /// Takes the machine to `new_state` as `transition_args` does where it is given no
    /// arguments.
    pub fn transition<N: Into<S>>(&mut self, new_state: N)
        ensures
            exists|machine: &mut Self|
                *machine == *old(self) && call_ensures(
                    Self::transition_args::<N>,
                    (machine, new_state, None),
                    (),
                ) && *final(self) == *final(machine),
    {
        self.transition_args(new_state, None);
    }

    /// Updates the state that the machine is in, with `args`. Where its `on_update`
    /// asks for another state, the machine goes there as `transition_args` does with
    /// the same arguments; where it asks for none, the machine holds what the update
    /// left.
    pub fn update_args(&mut self, args: &mut S::Args)
        ensures
            exists|s: &mut S, a: &mut S::Args, c: &mut S::Context, next: Option<S>|
                *s == old(self).current() && *a == *old(args) && *c == old(self).shared()
                    && call_ensures(
                    <S as State<G1, G2, G3, G4, G5, G6, G7, G8>>::on_update,
                    (s, Some(a), c),
                    next,
                ) && match next {
                    None => final(self).current() == *final(s) && final(self).shared()
                        == *final(c) && *final(args) == *final(a),
                    Some(asked) => exists|machine: &mut Self, again: &mut S::Args|
                        machine.current() == *final(s) && machine.shared() == *final(c)
                            && *again == *final(a) && call_ensures(
                            Self::transition_args::<S>,
                            (machine, asked, Some(again)),
                            (),
                        ) && *final(self) == *final(machine) && *final(args) == *final(again),
                },
    {
        match State::on_update(&mut self.state, Some(&mut *args), &mut self.context) {
            Some(asked) => {
                self.transition_args(asked, Some(args));
            },
            None => {},
        }
    }

    /// One round of a run: updates the state that the machine is in, with `args`, and,
    /// where its `on_update` asks for another state, goes there as `transition` does.
    /// Says whether the machine went to another state. A run repeats this until it
    /// says no.
    pub fn advance_args(&mut self, args: &mut S::Args) -> (moved: bool)
        ensures
            exists|s: &mut S, a: &mut S::Args, c: &mut S::Context, next: Option<S>|
                *s == old(self).current() && *a == *old(args) && *c == old(self).shared()
                    && call_ensures(
                    <S as State<G1, G2, G3, G4, G5, G6, G7, G8>>::on_update,
                    (s, Some(a), c),
                    next,
                ) && *final(args) == *final(a) && moved == (next is Some) && match next {
                    None => final(self).current() == *final(s) && final(self).shared()
                        == *final(c),
                    Some(asked) => exists|machine: &mut Self|
                        machine.current() == *final(s) && machine.shared() == *final(c)
                            && call_ensures(Self::transition::<S>, (machine, asked), ())
                            && *final(self) == *final(machine),
                },
    {
        match State::on_update(&mut self.state, Some(&mut *args), &mut self.context) {
            Some(asked) => {
                self.transition(asked);
                true
            },
            None => false,
        }
    }

    /// Leaves the state that the machine is in: its `on_leave` is called without
    /// arguments. Dropping a machine does exactly this.
    pub fn leave(&mut self)
        ensures
            exists|s: &mut S, c: &mut S::Context|
                *s == old(self).current() && *c == old(self).shared() && call_ensures(
                    <S as State<G1, G2, G3, G4, G5, G6, G7, G8>>::on_leave,
                    (s, None, c),
                    (),
                ) && final(self).current() == *final(s) && final(self).shared() == *final(c),
    {
        State::on_leave(&mut self.state, None, &mut self.context);
    }

    pub fn context(&self) -> (context: &S::Context)
        ensures
            *context == self.shared(),
    {
        &self.context
    }

    pub fn context_mut(&mut self) -> (context: &mut S::Context)
        ensures
            *context == old(self).shared(),
            final(self).shared() == *final(context),
            final(self).current() == old(self).current(),
    {
        &mut self.context
    }

    pub fn state(&self) -> (state: &S::States)
        ensures
            *state == self.current(),
    {
        &self.state
    }

    pub fn state_mut(&mut self) -> (state: &mut S::States)
        ensures
            *state == old(self).current(),
            final(self).current() == *final(state),
            final(self).shared() == old(self).shared(),
    {
        &mut self.state
    }
}

/// Arguments that can be made from nothing, for machines whose hooks take none.
pub trait UnitType: Sized {
    fn unit() -> Self;
}

impl UnitType for () {
    fn unit() -> Self {
    }
}

impl<S, G1, G2, G3, G4, G5, G6, G7, G8> StateMachine<S, G1, G2, G3, G4, G5, G6, G7, G8> where
    S: State<G1, G2, G3, G4, G5, G6, G7, G8> + Machine<G1, G2, G3, G4, G5, G6, G7, G8> + StateTypes<
        G1,
        G2,
        G3,
        G4,
        G5,
        G6,
        G7,
        G8,
        States = S,
    >,
    S::Args: UnitType,
 {
    /// Updates the machine as `update_args` does, with arguments made from nothing.
    pub fn update(&mut self)
        ensures
            exists|unit: S::Args, machine: &mut Self, args: &mut S::Args|
                call_ensures(<S::Args as UnitType>::unit, (), unit) && *machine == *old(self)
                    && *args == unit && call_ensures(Self::update_args, (machine, args), ())
                    && *final(self) == *final(machine),
    {
        let mut unit = S::Args::unit();
        self.update_args(&mut unit);
    }
}

impl<S, G1, G2, G3, G4, G5, G6, G7, G8> Drop for StateMachine<S, G1, G2, G3, G4, G5, G6, G7, G8> where
    S: State<G1, G2, G3, G4, G5, G6, G7, G8> + Machine<G1, G2, G3, G4, G5, G6, G7, G8> + StateTypes<
        G1,
        G2,
        G3,
        G4,
        G5,
        G6,
        G7,
        G8,
        States = S,
    >,
 {
    /// Runs `leave`. Verus asks of every `drop` that it does not unwind, which cannot
    /// be shown of a call into a hook, so this body is not verified.
    #[verifier::external_body]
    fn drop(&mut self)
        opens_invariants none
        no_unwind
    {
        self.leave();
    }
}

/// The state of a machine that has come to its end.
#[derive(Debug)]
pub struct EndState;

impl StateTypes for EndState {
    type States = ();

    type Context = ();

    type Args = ();
}

impl State for EndState {

}

/// What can say whether it has come to its end.
pub trait HasEndState {
    fn is_finished(&self) -> bool;
}

impl<S, G1, G2, G3, G4, G5, G6, G7, G8> HasEndState for StateMachine<
    S,
    G1,
    G2,
    G3,
    G4,
    G5,
    G6,
    G7,
    G8,
> where
    S: State<G1, G2, G3, G4, G5, G6, G7, G8> + Machine<G1, G2, G3, G4, G5, G6, G7, G8> + StateTypes<
        G1,
        G2,
        G3,
        G4,
        G5,
        G6,
        G7,
        G8,
        States = S,
    > + HasEndState,
 {
    /// Whether the state that the machine is in says that it is the end.
    fn is_finished(&self) -> (finished: bool)
        ensures
            call_ensures(<S as HasEndState>::is_finished, (&self.current(),), finished),
    {
        self.state.is_finished()
    }
}

} // verus!
