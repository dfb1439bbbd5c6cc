//! The two lazy sequence adapters that drive a simulation forward: an
//! owning adapter that keeps the simulation forever, and a borrowing-style
//! adapter that holds exclusive access only until `finish` hands the
//! simulation back to the caller.
//!
//! Each pull invokes the input generator exactly once, feeds the produced
//! value to `step`, and returns the snapshot read by `state`. The adapters
//! never signal exhaustion on their own: element `N` of the sequence
//! reflects exactly the first `N` generator outputs, applied in call
//! order.

use vstd::prelude::*;

use crate::simulation::InputGenerator;
use crate::simulation::Simulation;
use crate::simulation::lemma_run_push;
use crate::simulation::run;

verus! {

/// The owning sequence adapter: holds the simulation and the input
/// generator by value, so the simulation's lifetime is bound to the
/// adapter's.
pub struct IntoIter<T, G> where G: InputGenerator {
    sim: T,
    input: G,
    start: Ghost<T>,
    history: Ghost<Seq<G::Input>>,
}

impl<T, G> IntoIter<T, G> where G: InputGenerator {
    /// The simulation value the adapter currently holds.
    pub closed spec fn simulation(self) -> T {
        self.sim
    }

    /// The generator value the adapter currently holds.
    pub closed spec fn generator(self) -> G {
        self.input
    }

    /// The simulation value the adapter was constructed around.
    pub closed spec fn initial(self) -> T {
        self.start@
    }

    /// Every input consumed so far, in pull order.
    pub closed spec fn inputs(self) -> Seq<G::Input> {
        self.history@
    }

    /// Wrap a simulation and an input generator, taking ownership of
    /// both.
    pub fn new(sim: T, input: G) -> (adapter: Self)
        ensures
            adapter.simulation() == sim,
            adapter.generator() == input,
            adapter.initial() == sim,
            adapter.inputs() == Seq::<G::Input>::empty(),
    {
        let ghost start = sim;
        IntoIter { sim, input, start: Ghost(start), history: Ghost(Seq::empty()) }
    }
}

impl<T, G> IntoIter<T, G> where T: Simulation, G: InputGenerator<Input = T::Input> {
    /// The held simulation is exactly the initial one driven through
    /// every input consumed so far. Established by `new` and preserved
    /// by every pull.
    pub open spec fn wf(self) -> bool {
        self.simulation() == run(self.initial(), self.inputs())
    }

    /// Pull the next element: draw one input from the generator, feed it
    /// to `step`, and return the snapshot `state` then observes. Never
    /// returns `None`.
    pub fn next(&mut self) -> (item: Option<T::State>)
        requires
            old(self).wf(),
        ensures
            final(self).wf(),
            final(self).initial() == old(self).initial(),
            final(self).inputs().len() == old(self).inputs().len() + 1,
            final(self).inputs().drop_last() == old(self).inputs(),
            old(self).generator().produces(
                final(self).inputs().last(),
                final(self).generator(),
            ),
            final(self).simulation() == old(self).simulation().spec_step(
                final(self).inputs().last(),
            ),
            item == Some(run(final(self).initial(), final(self).inputs()).spec_state()),
    {
        let input = self.input.next_input();
        self.sim.step(input);
        self.history = Ghost(self.history@.push(input));
        proof {
            assert(self.history@.drop_last() =~= old(self).history@);
            lemma_run_push(self.start@, old(self).history@, input);
        }
        Some(self.sim.state())
    }

    /// The sequence is unbounded: its minimum cardinality is the largest
    /// expressible value and no upper bound is known.
    pub fn size_hint(&self) -> (hint: (usize, Option<usize>))
        ensures
            hint.0 == usize::MAX,
            hint.1 == None::<usize>,
    {
        (usize::MAX, None)
    }

    /// Pull `count` elements in a row and collect the produced snapshots
    /// in order: a bounded prefix of the unbounded sequence. Always
    /// produces exactly `count` elements, and element `k` is the snapshot
    /// of the initial simulation driven through the first
    /// `old(self).inputs().len() + k + 1` inputs.
    pub fn take_states(&mut self, count: usize) -> (states: Vec<T::State>)
        requires
            old(self).wf(),
        ensures
            final(self).wf(),
            final(self).initial() == old(self).initial(),
            final(self).inputs().len() == old(self).inputs().len() + count,
            final(self).inputs().take(old(self).inputs().len() as int) == old(self).inputs(),
            states@.len() == count,
            forall|k: int|
                0 <= k < count ==> states@[k] == run(
                    old(self).initial(),
                    final(self).inputs().take(old(self).inputs().len() + k + 1),
                ).spec_state(),
    {
        proof {
            assert(old(self).inputs().take(old(self).inputs().len() as int) =~= old(
                self,
            ).inputs());
        }
        let mut states: Vec<T::State> = Vec::new();
        let mut pulled: usize = 0;
        while pulled < count
            invariant
                self.wf(),
                self.initial() == old(self).initial(),
                pulled <= count,
                self.inputs().len() == old(self).inputs().len() + pulled,
                self.inputs().take(old(self).inputs().len() as int) == old(self).inputs(),
                states@.len() == pulled,
                forall|k: int|
                    0 <= k < pulled ==> states@[k] == run(
                        old(self).initial(),
                        self.inputs().take(old(self).inputs().len() + k + 1),
                    ).spec_state(),
            decreases count - pulled,
        {
            let ghost prev = self.inputs();
            let item = self.next();
            proof {
                assert forall|k: int| 0 <= k <= prev.len()
                    implies #[trigger] self.inputs().take(k) == prev.take(k) by {
                    assert(self.inputs().take(k) =~= prev.take(k));
                }
                assert(self.inputs().take(self.inputs().len() as int) =~= self.inputs());
            }
            states.push(item.unwrap());
            pulled = pulled + 1;
        }
        states
    }
}

/// The borrowing-style sequence adapter: takes exclusive access to the
/// simulation for exactly as long as the adapter exists, and `finish`
/// returns the simulation — with every step applied — to the caller.
///
/// The temporary exclusive borrow is expressed as an explicit
/// check-out/return: the adapter checks the simulation out by value,
/// holds the only access to it while it lives, and the caller reclaims
/// it through `finish`.
pub struct Iter<T, G> where G: InputGenerator {
    sim: T,
    input: G,
    start: Ghost<T>,
    history: Ghost<Seq<G::Input>>,
}

impl<T, G> Iter<T, G> where G: InputGenerator {
    /// The simulation value the adapter currently holds.
    pub closed spec fn simulation(self) -> T {
        self.sim
    }

    /// The generator value the adapter currently holds.
    pub closed spec fn generator(self) -> G {
        self.input
    }

    /// The simulation value the adapter was constructed around.
    pub closed spec fn initial(self) -> T {
        self.start@
    }

    /// Every input consumed so far, in pull order.
    pub closed spec fn inputs(self) -> Seq<G::Input> {
        self.history@
    }

    /// Check the simulation out into the adapter, together with the
    /// input generator it owns.
    pub fn new(sim: T, input: G) -> (adapter: Self)
        ensures
            adapter.simulation() == sim,
            adapter.generator() == input,
            adapter.initial() == sim,
            adapter.inputs() == Seq::<G::Input>::empty(),
    {
        let ghost start = sim;
        Iter { sim, input, start: Ghost(start), history: Ghost(Seq::empty()) }
    }
}

impl<T, G> Iter<T, G> where T: Simulation, G: InputGenerator<Input = T::Input> {
    /// The held simulation is exactly the initial one driven through
    /// every input consumed so far. Established by `new` and preserved
    /// by every pull.
    pub open spec fn wf(self) -> bool {
        self.simulation() == run(self.initial(), self.inputs())
    }

    /// Pull the next element: draw one input from the generator, feed it
    /// to `step`, and return the snapshot `state` then observes. Never
    /// returns `None`.
    pub fn next(&mut self) -> (item: Option<T::State>)
        requires
            old(self).wf(),
        ensures
            final(self).wf(),
            final(self).initial() == old(self).initial(),
            final(self).inputs().len() == old(self).inputs().len() + 1,
            final(self).inputs().drop_last() == old(self).inputs(),
            old(self).generator().produces(
                final(self).inputs().last(),
                final(self).generator(),
            ),
            final(self).simulation() == old(self).simulation().spec_step(
                final(self).inputs().last(),
            ),
            item == Some(run(final(self).initial(), final(self).inputs()).spec_state()),
    {
        let input = self.input.next_input();
        self.sim.step(input);
        self.history = Ghost(self.history@.push(input));
        proof {
            assert(self.history@.drop_last() =~= old(self).history@);
            lemma_run_push(self.start@, old(self).history@, input);
        }
        Some(self.sim.state())
    }

    /// The sequence is unbounded: its minimum cardinality is the largest
    /// expressible value and no upper bound is known.
    pub fn size_hint(&self) -> (hint: (usize, Option<usize>))
        ensures
            hint.0 == usize::MAX,
            hint.1 == None::<usize>,
    {
        (usize::MAX, None)
    }

    /// Pull `count` elements in a row and collect the produced snapshots
    /// in order: a bounded prefix of the unbounded sequence. Always
    /// produces exactly `count` elements, and element `k` is the snapshot
    /// of the initial simulation driven through the first
    /// `old(self).inputs().len() + k + 1` inputs.
    pub fn take_states(&mut self, count: usize) -> (states: Vec<T::State>)
        requires
            old(self).wf(),
        ensures
            final(self).wf(),
            final(self).initial() == old(self).initial(),
            final(self).inputs().len() == old(self).inputs().len() + count,
            final(self).inputs().take(old(self).inputs().len() as int) == old(self).inputs(),
            states@.len() == count,
            forall|k: int|
                0 <= k < count ==> states@[k] == run(
                    old(self).initial(),
                    final(self).inputs().take(old(self).inputs().len() + k + 1),
                ).spec_state(),
    {
        proof {
            assert(old(self).inputs().take(old(self).inputs().len() as int) =~= old(
                self,
            ).inputs());
        }
        let mut states: Vec<T::State> = Vec::new();
        let mut pulled: usize = 0;
        while pulled < count
            invariant
                self.wf(),
                self.initial() == old(self).initial(),
                pulled <= count,
                self.inputs().len() == old(self).inputs().len() + pulled,
                self.inputs().take(old(self).inputs().len() as int) == old(self).inputs(),
                states@.len() == pulled,
                forall|k: int|
                    0 <= k < pulled ==> states@[k] == run(
                        old(self).initial(),
                        self.inputs().take(old(self).inputs().len() + k + 1),
                    ).spec_state(),
            decreases count - pulled,
        {
            let ghost prev = self.inputs();
            let item = self.next();
            proof {
                assert forall|k: int| 0 <= k <= prev.len()
                    implies #[trigger] self.inputs().take(k) == prev.take(k) by {
                    assert(self.inputs().take(k) =~= prev.take(k));
                }
                assert(self.inputs().take(self.inputs().len() as int) =~= self.inputs());
            }
            states.push(item.unwrap());
            pulled = pulled + 1;
        }
        states
    }

    /// Release the adapter's exclusive access: hand the simulation —
    /// with every step so far applied — and the generator back to the
    /// caller.
    pub fn finish(self) -> (returned: (T, G))
        ensures
            returned.0 == self.simulation(),
            returned.1 == self.generator(),
    {
        (self.sim, self.input)
    }
}

} // verus!
