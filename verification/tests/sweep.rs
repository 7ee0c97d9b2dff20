use tv_sweep::sweep::{Event, Step, Strategy, SweepDriver, SweepError};

fn event_of(ok: bool) -> Event {
    if ok {
        Event::Completed
    } else {
        Event::Failed
    }
}

/// Follows the driver to its end, with unit `k` coming out as `results[k]`,
/// and returns the steps taken.
fn drive(driver: &mut SweepDriver, results: &[bool]) -> Vec<Step> {
    let mut steps = Vec::new();
    loop {
        let step = driver.next_step();
        steps.push(step);
        let accepted = match step {
            Step::Spawn(_) => driver.advance(Event::Spawned),
            Step::Join(k) | Step::Run(k) => driver.advance(event_of(results[k])),
            Step::Finish => break,
        };
        assert!(accepted);
    }
    steps
}

/// The weights of a sweep, formed as the driver lays out: the first weight
/// times the powers of the root of the quotient.
fn lambdas(driver: &SweepDriver, start: f64, end: f64) -> Vec<f64> {
    match driver.ratio_root() {
        None => vec![start],
        Some(degree) => {
            let q = (end / start).powf(1.0 / degree as f64);
            (0..driver.steps()).map(|k| start * q.powi(k as i32)).collect()
        }
    }
}

#[test]
fn zero_steps_are_refused() {
    assert_eq!(SweepDriver::new(0, true, true, true).err(), Some(SweepError::ZeroSteps));
    assert_eq!(SweepDriver::new(0, false, false, false).err(), Some(SweepError::ZeroSteps));
}

#[test]
fn non_positive_start_is_refused() {
    assert_eq!(SweepDriver::new(3, false, true, true).err(), Some(SweepError::NonPositiveLambda));
    assert_eq!(SweepDriver::new(3, false, false, true).err(), Some(SweepError::NonPositiveLambda));
}

#[test]
fn start_not_below_end_is_refused() {
    assert_eq!(SweepDriver::new(3, true, false, true).err(), Some(SweepError::LambdaOrder));
    assert_eq!(SweepDriver::new(1, true, false, false).err(), Some(SweepError::LambdaOrder));
}

#[test]
fn accepted_request_starts_before_the_first_step() {
    let driver = SweepDriver::new(4, true, true, true).unwrap();
    assert_eq!(driver.steps(), 4);
    assert_eq!(driver.strategy(), Strategy::Parallel);
    assert!(!driver.is_finished());
    assert_eq!(driver.outcome(0), None);
    assert_eq!(driver.failures(), Vec::<usize>::new());
}

#[test]
fn host_without_parallelism_gets_a_sequential_sweep() {
    let driver = SweepDriver::new(2, true, true, false).unwrap();
    assert_eq!(driver.strategy(), Strategy::Sequential);
    assert_eq!(driver.next_step(), Step::Run(0));
}

#[test]
fn parallel_sweep_spawns_all_then_joins_all() {
    let mut driver = SweepDriver::new(3, true, true, true).unwrap();
    let steps = drive(&mut driver, &[true, true, true]);
    assert_eq!(
        steps,
        vec![
            Step::Spawn(0),
            Step::Spawn(1),
            Step::Spawn(2),
            Step::Join(0),
            Step::Join(1),
            Step::Join(2),
            Step::Finish,
        ]
    );
    assert!(driver.is_finished());
}

#[test]
fn sequential_sweep_runs_one_after_the_other() {
    let mut driver = SweepDriver::new(3, true, true, false).unwrap();
    let steps = drive(&mut driver, &[true, true, true]);
    assert_eq!(steps, vec![Step::Run(0), Step::Run(1), Step::Run(2), Step::Finish]);
    assert!(driver.is_finished());
}

#[test]
fn a_failed_unit_does_not_stop_the_others() {
    for parallel in [true, false] {
        let mut driver = SweepDriver::new(4, true, true, parallel).unwrap();
        drive(&mut driver, &[true, false, true, false]);
        assert!(driver.is_finished());
        assert_eq!(driver.outcome(0), Some(true));
        assert_eq!(driver.outcome(1), Some(false));
        assert_eq!(driver.outcome(2), Some(true));
        assert_eq!(driver.outcome(3), Some(false));
        assert_eq!(driver.outcome(4), None);
        assert_eq!(driver.failures(), vec![1, 3]);
    }
}

#[test]
fn outcomes_do_not_depend_on_the_strategy() {
    let results = [false, true, true, false, true];
    let mut parallel = SweepDriver::new(5, true, true, true).unwrap();
    let mut sequential = SweepDriver::new(5, true, true, false).unwrap();
    drive(&mut parallel, &results);
    drive(&mut sequential, &results);
    for k in 0..6 {
        assert_eq!(parallel.outcome(k), sequential.outcome(k));
    }
    for k in 0..5 {
        assert_eq!(parallel.outcome(k), Some(results[k]));
    }
    assert_eq!(parallel.failures(), sequential.failures());
    assert_eq!(parallel.failures(), vec![0, 3]);
}

#[test]
fn an_event_that_does_not_fit_changes_nothing() {
    let mut driver = SweepDriver::new(2, true, true, true).unwrap();
    assert_eq!(driver.next_step(), Step::Spawn(0));
    assert!(!driver.advance(Event::Completed));
    assert!(!driver.advance(Event::Failed));
    assert_eq!(driver.next_step(), Step::Spawn(0));
    assert!(driver.advance(Event::Spawned));
    assert!(driver.advance(Event::Spawned));
    assert_eq!(driver.next_step(), Step::Join(0));
    assert!(!driver.advance(Event::Spawned));
    assert_eq!(driver.next_step(), Step::Join(0));
    assert!(driver.advance(Event::Completed));
    assert!(driver.advance(Event::Failed));
    assert_eq!(driver.next_step(), Step::Finish);
    assert!(!driver.advance(Event::Spawned));
    assert!(!driver.advance(Event::Completed));
    assert!(!driver.advance(Event::Failed));
    assert_eq!(driver.outcome(0), Some(true));
    assert_eq!(driver.outcome(1), Some(false));
}

#[test]
fn sequential_sweep_refuses_spawned() {
    let mut driver = SweepDriver::new(1, true, true, false).unwrap();
    assert!(!driver.advance(Event::Spawned));
    assert_eq!(driver.next_step(), Step::Run(0));
    assert!(driver.advance(Event::Completed));
    assert!(driver.is_finished());
}

#[test]
fn outcome_is_unknown_until_the_unit_ends() {
    let mut driver = SweepDriver::new(2, true, true, true).unwrap();
    assert!(driver.advance(Event::Spawned));
    assert!(driver.advance(Event::Spawned));
    assert_eq!(driver.outcome(0), None);
    assert!(driver.advance(Event::Failed));
    assert_eq!(driver.outcome(0), Some(false));
    assert_eq!(driver.outcome(1), None);
    assert!(!driver.is_finished());
    assert_eq!(driver.failures(), vec![0]);
}

#[test]
fn ratio_root_is_one_less_than_the_steps() {
    assert_eq!(SweepDriver::new(1, true, true, true).unwrap().ratio_root(), None);
    assert_eq!(SweepDriver::new(2, true, true, true).unwrap().ratio_root(), Some(1));
    assert_eq!(SweepDriver::new(3, true, true, false).unwrap().ratio_root(), Some(2));
    assert_eq!(SweepDriver::new(100, true, true, true).unwrap().ratio_root(), Some(99));
}

#[test]
fn three_steps_from_a_hundredth_to_one_are_geometric() {
    let (start, end) = (0.01_f64, 1.0_f64);
    let driver = SweepDriver::new(3, start > 0.0, start < end, true).unwrap();
    let sequence = lambdas(&driver, start, end);
    let expected = [0.01, 0.1, 1.0];
    assert_eq!(sequence.len(), 3);
    for (got, want) in sequence.iter().zip(expected) {
        assert!((got - want).abs() < 1e-12, "{} is not {}", got, want);
    }
    assert!((sequence[1] / sequence[0] - 10.0).abs() < 1e-9);
}

#[test]
fn a_single_step_uses_the_first_weight_alone() {
    let (start, end) = (0.05_f64, 2.0_f64);
    let driver = SweepDriver::new(1, start > 0.0, start < end, true).unwrap();
    assert_eq!(driver.ratio_root(), None);
    assert_eq!(lambdas(&driver, start, end), vec![0.05]);
}

#[test]
fn sweep_errors_have_messages() {
    assert_eq!(SweepError::ZeroSteps.message(), "`steps` must be at least 1");
    assert_eq!(SweepError::NonPositiveLambda.message(), "`start_lambda` must be greater than zero");
    assert_eq!(
        SweepError::LambdaOrder.message(),
        "`start_lambda` must be smaller than `end_lambda`"
    );
}
