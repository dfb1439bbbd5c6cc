//! A small concrete simulation — a wrapping counter — and a deterministic
//! script-driven input generator, together with the laws that driving the
//! counter through the adapters obeys: the step count grows by exactly one
//! per consumed input, and the observable total is the cumulative
//! (wrapping) sum of the inputs in consumption order.

use vstd::prelude::*;

use crate::simulation::InputGenerator;
use crate::simulation::Simulation;
use crate::simulation::run;

verus! {

/// A counter simulation with `State = Input = u64`: one step adds the
/// input to a running total (wrapping on overflow) and counts itself;
/// the observable state is the total.
pub struct Counter {
    /// Wrapping sum of every input consumed so far.
    pub total: u64,
    /// How many inputs have been consumed (wrapping).
    pub steps: u64,
}

impl Counter {
    /// A fresh counter: total zero, no steps consumed.
    pub fn new() -> (counter: Counter)
        ensures
            counter.total == 0,
            counter.steps == 0,
    {
        Counter { total: 0, steps: 0 }
    }
}

impl Simulation for Counter {
    type State = u64;

    type Input = u64;

    open spec fn spec_step(self, input: u64) -> Counter {
        Counter { total: self.total.wrapping_add(input), steps: self.steps.wrapping_add(1) }
    }

    open spec fn spec_state(self) -> u64 {
        self.total
    }

    fn step(&mut self, input: u64) {
        self.total = self.total.wrapping_add(input);
        self.steps = self.steps.wrapping_add(1);
    }

    fn state(&self) -> u64 {
        self.total
    }
}

/// An input generator that yields the values of a fixed script in order
/// and starts over at the end; an empty script yields zero forever. Each
/// call also counts itself, so a driver's pulls stay observable.
pub struct ScriptGenerator {
    /// The values to yield, in order.
    pub script: Vec<u64>,
    /// Position in the script of the next value to yield.
    pub pos: usize,
    /// How many inputs have been produced (wrapping).
    pub calls: u64,
}

impl ScriptGenerator {
    /// A generator at the start of `script` that has produced nothing
    /// yet.
    pub fn new(script: Vec<u64>) -> (generator: ScriptGenerator)
        ensures
            generator.script@ == script@,
            generator.pos == 0,
            generator.calls == 0,
    {
        ScriptGenerator { script, pos: 0, calls: 0 }
    }
}

impl InputGenerator for ScriptGenerator {
    type Input = u64;

    open spec fn produces(self, input: u64, next: ScriptGenerator) -> bool {
        &&& next.script@ == self.script@
        &&& next.calls == self.calls.wrapping_add(1)
        &&& if self.script@.len() == 0 {
            input == 0 && next.pos == self.pos
        } else {
            let at = if self.pos < self.script@.len() {
                self.pos as int
            } else {
                0int
            };
            input == self.script@[at] && next.pos as int == (
                if at + 1 < self.script@.len() {
                    at + 1
                } else {
                    0int
                }
            )
        }
    }

    fn next_input(&mut self) -> (input: u64) {
        self.calls = self.calls.wrapping_add(1);
        if self.script.len() == 0 {
            0
        } else {
            let at: usize = if self.pos < self.script.len() {
                self.pos
            } else {
                0
            };
            let value: u64 = self.script[at];
            self.pos = if at + 1 < self.script.len() {
                at + 1
            } else {
                0
            };
            value
        }
    }
}

/// The wrapping sum of a sequence of inputs, oldest first: the total a
/// counter accumulates from them.
pub open spec fn wrapping_sum(inputs: Seq<u64>) -> u64
    decreases inputs.len(),
{
    if inputs.len() == 0 {
        0u64
    } else {
        wrapping_sum(inputs.drop_last()).wrapping_add(inputs.last())
    }
}

/// Wrapping addition is associative.
proof fn lemma_wrapping_add_assoc(a: u64, b: u64, c: u64)
    ensures
        a.wrapping_add(b).wrapping_add(c) == a.wrapping_add(b.wrapping_add(c)),
{
}

/// Pulling matches stepping one for one: a run of the counter through
/// any sequence of inputs consumes exactly one step per input, so after
/// `inputs.len()` pulls the step counter has grown by exactly that many.
pub proof fn lemma_counter_pull_count(counter: Counter, inputs: Seq<u64>)
    requires
        counter.steps + inputs.len() <= u64::MAX,
    ensures
        run(counter, inputs).steps == counter.steps + inputs.len(),
    decreases inputs.len(),
{
    if inputs.len() != 0 {
        lemma_counter_pull_count(counter, inputs.drop_last());
    }
}

/// The counter's observable state reflects the cumulative inputs: after
/// consuming `inputs` in order, the total is the starting total plus the
/// wrapping sum of exactly those inputs.
pub proof fn lemma_counter_cumulative_total(counter: Counter, inputs: Seq<u64>)
    ensures
        run(counter, inputs).total == counter.total.wrapping_add(wrapping_sum(inputs)),
    decreases inputs.len(),
{
    if inputs.len() == 0 {
    } else {
        lemma_counter_cumulative_total(counter, inputs.drop_last());
        lemma_wrapping_add_assoc(
            counter.total,
            wrapping_sum(inputs.drop_last()),
            inputs.last(),
        );
    }
}

} // verus!
