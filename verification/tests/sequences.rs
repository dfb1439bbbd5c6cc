use simulation::Counter;
use simulation::InputGenerator;
use simulation::IntoIter;
use simulation::Iter;
use simulation::ScriptGenerator;
use simulation::Simulation;

fn script(values: &[u64]) -> ScriptGenerator {
    ScriptGenerator::new(values.to_vec())
}

#[test]
fn counter_scenario_into_iter() {
    let counter = Counter::new();
    let mut sequence = counter.into_iter(script(&[1, 1, 2, 3]));
    assert_eq!(sequence.next(), Some(1));
    assert_eq!(sequence.next(), Some(2));
    assert_eq!(sequence.next(), Some(4));
    assert_eq!(sequence.next(), Some(7));
}

#[test]
fn ordering_cumulative_sums() {
    let counter = Counter::new();
    let mut sequence = counter.into_iter(script(&[2, 3, 4]));
    let states = sequence.take_states(3);
    assert_eq!(states, vec![2, 5, 9]);
}

#[test]
fn borrow_returns_on_finish() {
    let counter = Counter::new();
    let mut sequence = counter.iter(script(&[5, 6, 7]));
    assert_eq!(sequence.next(), Some(5));
    assert_eq!(sequence.next(), Some(11));
    let last = sequence.next();
    assert_eq!(last, Some(18));
    let (counter, _generator) = sequence.finish();
    assert_eq!(counter.total, 18);
    assert_eq!(counter.steps, 3);
}

#[test]
fn pull_counts_match() {
    let counter = Counter::new();
    let mut sequence = counter.iter(script(&[9, 9, 9]));
    for _ in 0..5 {
        assert!(sequence.next().is_some());
    }
    let (counter, generator) = sequence.finish();
    assert_eq!(counter.steps, 5);
    assert_eq!(generator.calls, 5);
}

#[test]
fn unbounded_pulls_always_succeed() {
    let counter = Counter::new();
    let mut sequence = counter.into_iter(script(&[1]));
    for expected in 1..=100u64 {
        assert_eq!(sequence.next(), Some(expected));
    }
    let more = sequence.take_states(50);
    assert_eq!(more.len(), 50);
    assert_eq!(more[49], 150);
}

#[test]
fn size_hint_reports_unbounded() {
    let counter = Counter::new();
    let owning = counter.into_iter(script(&[1, 2]));
    assert_eq!(owning.size_hint(), (usize::MAX, None));
    let counter = Counter::new();
    let borrowing = counter.iter(script(&[1, 2]));
    assert_eq!(borrowing.size_hint(), (usize::MAX, None));
}

#[test]
fn boxed_counter_matches_unboxed() {
    let plain = Counter::new();
    let mut direct = plain.into_iter(script(&[3, 1, 4, 1, 5, 9]));
    let boxed = Box::new(Counter::new());
    let mut indirect = boxed.into_iter(script(&[3, 1, 4, 1, 5, 9]));
    let direct_states = direct.take_states(6);
    let indirect_states = indirect.take_states(6);
    assert_eq!(direct_states, indirect_states);
}

#[test]
fn boxed_counter_steps_forward() {
    let mut boxed = Box::new(Counter::new());
    boxed.step(10);
    boxed.step(20);
    assert_eq!(boxed.state(), 30);
    assert_eq!(boxed.total, 30);
    assert_eq!(boxed.steps, 2);
}

#[test]
fn empty_script_yields_zero() {
    let counter = Counter::new();
    let mut sequence = counter.iter(script(&[]));
    assert_eq!(sequence.next(), Some(0));
    assert_eq!(sequence.next(), Some(0));
    let (counter, generator) = sequence.finish();
    assert_eq!(counter.total, 0);
    assert_eq!(counter.steps, 2);
    assert_eq!(generator.calls, 2);
}

#[test]
fn script_starts_over_at_end() {
    let counter = Counter::new();
    let mut sequence = counter.into_iter(script(&[1, 2]));
    let states = sequence.take_states(5);
    assert_eq!(states, vec![1, 3, 4, 6, 7]);
}

#[test]
fn total_wraps_on_overflow() {
    let near_max = Counter { total: u64::MAX - 1, steps: 0 };
    let mut sequence = near_max.into_iter(script(&[3]));
    assert_eq!(sequence.next(), Some(1));
}

#[test]
fn adapters_built_directly() {
    let mut owning = IntoIter::new(Counter::new(), script(&[8]));
    assert_eq!(owning.next(), Some(8));
    let mut borrowing = Iter::new(Counter::new(), script(&[4]));
    assert_eq!(borrowing.next(), Some(4));
    let (counter, _generator) = borrowing.finish();
    assert_eq!(counter.total, 4);
}

#[test]
fn take_states_then_continue_pulling() {
    let counter = Counter::new();
    let mut sequence = counter.into_iter(script(&[10, 20, 30]));
    let first = sequence.take_states(2);
    assert_eq!(first, vec![10, 30]);
    assert_eq!(sequence.next(), Some(60));
    assert_eq!(sequence.next(), Some(70));
}

#[test]
fn step_and_state_direct_use() {
    let mut counter = Counter::new();
    counter.step(7);
    assert_eq!(counter.state(), 7);
    counter.step(5);
    assert_eq!(counter.state(), 12);
    assert_eq!(counter.state(), 12);
    assert_eq!(counter.steps, 2);
}

#[test]
fn generator_yields_script_in_order() {
    let mut generator = script(&[11, 22, 33]);
    assert_eq!(generator.next_input(), 11);
    assert_eq!(generator.next_input(), 22);
    assert_eq!(generator.next_input(), 33);
    assert_eq!(generator.next_input(), 11);
    assert_eq!(generator.calls, 4);
}
