//! The capability contract for discrete-step simulations, the contract for
//! the input generators that drive them, and the mathematical model of
//! running a simulation through a sequence of inputs.

use vstd::prelude::*;

use crate::adapters::IntoIter;
use crate::adapters::Iter;

verus! {

/// A discrete-step process: each step consumes one `Input` value, and the
/// process exposes an observable `State` snapshot at any time.
///
/// The two spec functions are the mathematical model an implementer
/// commits to: `spec_step` says which value one step turns the simulation
/// into, and `spec_state` says which snapshot a value exposes. The two
/// executable operations must agree with that model, which makes `state`
/// a pure observation: it returns a function of the current value and
/// cannot change what later calls observe.
pub trait Simulation: Sized {
    /// An immutable snapshot of the simulation at one point in time.
    type State;

    /// The driving signal consumed by one step.
    type Input;

    /// The value this simulation becomes after consuming `input`.
    spec fn spec_step(self, input: Self::Input) -> Self;

    /// The snapshot this simulation value exposes.
    spec fn spec_state(self) -> Self::State;

    /// Advance the simulation by exactly one discrete unit, consuming
    /// `input`.
    fn step(&mut self, input: Self::Input)
        ensures
            *final(self) == old(self).spec_step(input),
    ;

    /// Observe the current state without changing it.
    fn state(&self) -> (snapshot: Self::State)
        ensures
            snapshot == self.spec_state(),
    ;

    /// Construct a borrowing-style lazy sequence of states: the adapter
    /// takes exclusive access to this simulation, and its `finish`
    /// operation returns the simulation to the caller with every step
    /// applied.
    fn iter<G: InputGenerator<Input = Self::Input>>(self, input: G) -> (adapter: Iter<Self, G>)
        ensures
            adapter.simulation() == self,
            adapter.generator() == input,
            adapter.initial() == self,
            adapter.inputs() == Seq::<Self::Input>::empty(),
    {
        Iter::new(self, input)
    }

    /// Construct an owning lazy sequence of states, consuming this
    /// simulation: its lifetime becomes the adapter's.
    fn into_iter<G: InputGenerator<Input = Self::Input>>(self, input: G) -> (adapter: IntoIter<
        Self,
        G,
    >)
        ensures
            adapter.simulation() == self,
            adapter.generator() == input,
            adapter.initial() == self,
            adapter.inputs() == Seq::<Self::Input>::empty(),
    {
        IntoIter::new(self, input)
    }
}

/// A source of step inputs: one value per invocation of `next_input`.
///
/// This plays the role of the zero-argument callable that a sequence
/// adapter owns; a stateful implementation may leave a different
/// generator value behind at every call. The relation `produces` bounds
/// which outcomes one invocation may yield; an implementation that
/// promises nothing defines it as `true`, while a deterministic one can
/// pin the outcome down completely.
pub trait InputGenerator: Sized {
    /// The kind of value this generator yields.
    type Input;

    /// Which `(input, next)` outcomes one invocation may yield, where
    /// `next` is the generator value left behind by the call.
    spec fn produces(self, input: Self::Input, next: Self) -> bool;

    /// Produce the next input value.
    fn next_input(&mut self) -> (input: Self::Input)
        ensures
            old(self).produces(input, *final(self)),
    ;
}

/// The simulation value reached from `sim` after consuming every input of
/// `inputs`, oldest first.
pub open spec fn run<T: Simulation>(sim: T, inputs: Seq<T::Input>) -> T
    decreases inputs.len(),
{
    if inputs.len() == 0 {
        sim
    } else {
        run(sim, inputs.drop_last()).spec_step(inputs.last())
    }
}

/// Appending one input to a run steps the reached value exactly once
/// more.
pub proof fn lemma_run_push<T: Simulation>(sim: T, inputs: Seq<T::Input>, input: T::Input)
    ensures
        run(sim, inputs.push(input)) == run(sim, inputs).spec_step(input),
{
    assert(inputs.push(input).drop_last() =~= inputs);
}

/// A simulation held behind a single-ownership indirection is itself a
/// simulation: both operations, and therefore the model, forward
/// unchanged to the held value.
impl<T: Simulation> Simulation for Box<T> {
    type State = T::State;

    type Input = T::Input;

    open spec fn spec_step(self, input: T::Input) -> Box<T> {
        Box::new((*self).spec_step(input))
    }

    open spec fn spec_state(self) -> T::State {
        (*self).spec_state()
    }

    fn step(&mut self, input: T::Input) {
        (**self).step(input)
    }

    fn state(&self) -> T::State {
        (**self).state()
    }
}

/// Indirection transparency: driving a boxed simulation through any
/// sequence of inputs reaches the box holding exactly the value the
/// unboxed simulation would reach, so every observed snapshot is
/// identical as well.
pub proof fn lemma_indirection_transparent<T: Simulation>(sim: Box<T>, inputs: Seq<T::Input>)
    ensures
        *run(sim, inputs) == run(*sim, inputs),
        run(sim, inputs).spec_state() == run(*sim, inputs).spec_state(),
    decreases inputs.len(),
{
    if inputs.len() != 0 {
        lemma_indirection_transparent(sim, inputs.drop_last());
    }
}

} // verus!
