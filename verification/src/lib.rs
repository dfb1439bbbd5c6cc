//! A minimal abstraction for discrete-step simulations: a capability
//! contract (`Simulation`) that separates mutation (`step`) from
//! observation (`state`), plus lazy sequence adapters that drive any such
//! simulation forward one step at a time, pulling each step's input from a
//! caller-supplied generator.

pub mod adapters;
pub mod counter;
pub mod simulation;

pub use adapters::IntoIter;
pub use adapters::Iter;
pub use counter::Counter;
pub use counter::ScriptGenerator;
pub use counter::lemma_counter_cumulative_total;
pub use counter::lemma_counter_pull_count;
pub use counter::wrapping_sum;
pub use simulation::InputGenerator;
pub use simulation::Simulation;
pub use simulation::lemma_indirection_transparent;
pub use simulation::lemma_run_push;
pub use simulation::run;
