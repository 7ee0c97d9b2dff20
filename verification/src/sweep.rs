//! The driver of a sweep over regularisation weights.
//!
//! A sweep has one unit of work per weight. The driver checks the request,
//! then tells its caller, one step at a time, which unit to start, wait for
//! or carry out; the caller does the work and reports what happened. Units
//! are numbered from 0 in the order of their weights, and a unit that fails
//! does not keep the others from running.
use vstd::prelude::*;

verus! {

/// Why a sweep request was refused.
#[derive(Clone, Copy, Debug, PartialEq, Eq, Structural)]
pub enum SweepError {
    /// The sweep has no step.
    ZeroSteps,
    /// The first weight is not strictly positive.
    NonPositiveLambda,
    /// The first weight is not strictly below the last.
    LambdaOrder,
}

impl SweepError {
    /// The text shown to the user for this error.
    pub open spec fn spec_message(self) -> Seq<char> {
        match self {
            SweepError::ZeroSteps => "`steps` must be at least 1"@,
            SweepError::NonPositiveLambda => "`start_lambda` must be greater than zero"@,
            SweepError::LambdaOrder => "`start_lambda` must be smaller than `end_lambda`"@,
        }
    }

    /// Returns the text shown to the user for this error.
    pub fn message(self) -> (r: &'static str)
        ensures
            r@ == self.spec_message(),
    {
        match self {
            SweepError::ZeroSteps => "`steps` must be at least 1",
            SweepError::NonPositiveLambda => "`start_lambda` must be greater than zero",
            SweepError::LambdaOrder => "`start_lambda` must be smaller than `end_lambda`",
        }
    }
}

/// How the units of a sweep are executed.
#[derive(Clone, Copy, Debug, PartialEq, Eq, Structural)]
pub enum Strategy {
    /// Every unit on a worker of its own; all are started, then all are
    /// waited for.
    Parallel,
    /// One unit after the other on the caller's thread.
    Sequential,
}

/// What the caller does next.
#[derive(Clone, Copy, Debug, PartialEq, Eq, Structural)]
pub enum Step {
    /// Start the unit of this number on a new worker.
    Spawn(usize),
    /// Wait for the worker of the unit of this number.
    Join(usize),
    /// Carry out the unit of this number and wait for it.
    Run(usize),
    /// Nothing is left to do.
    Finish,
}

/// What the caller reports after a step.
#[derive(Clone, Copy, Debug, PartialEq, Eq, Structural)]
pub enum Event {
    /// The worker was started.
    Spawned,
    /// The unit ended with a result.
    Completed,
    /// The unit ended without a result.
    Failed,
}

/// The state of a sweep: how many units were started, and how each unit
/// that has ended came out, in the order of the units.
pub struct SweepModel {
    pub strategy: Strategy,
    pub steps: nat,
    pub started: nat,
    pub settled: Seq<bool>,
}

/// The first reason to refuse a request, and `None` for a request that is
/// accepted.
pub open spec fn request_error(steps: usize, start_positive: bool, start_below_end: bool) -> Option<
    SweepError,
> {
    if steps == 0 {
        Some(SweepError::ZeroSteps)
    } else if !start_positive {
        Some(SweepError::NonPositiveLambda)
    } else if !start_below_end {
        Some(SweepError::LambdaOrder)
    } else {
        None
    }
}

/// The strategy for a host that does or does not offer parallelism.
pub open spec fn strategy_for(parallelism_available: bool) -> Strategy {
    if parallelism_available {
        Strategy::Parallel
    } else {
        Strategy::Sequential
    }
}

impl SweepModel {
    /// The state before any step.
    pub open spec fn initial(strategy: Strategy, steps: nat) -> SweepModel {
        SweepModel { strategy, steps, started: 0, settled: Seq::empty() }
    }

    /// The states that a sweep can be in: no unit ends before it is
    /// started; in a parallel sweep none is waited for before all are
    /// started; in a sequential one a unit ends before the next starts.
    pub open spec fn inv(self) -> bool {
        &&& 1 <= self.steps <= usize::MAX
        &&& self.settled.len() <= self.started <= self.steps
        &&& match self.strategy {
            Strategy::Parallel => self.settled.len() > 0 ==> self.started == self.steps,
            Strategy::Sequential => self.started == self.settled.len(),
        }
    }

    /// The step that the caller takes in this state.
    pub open spec fn next(self) -> Step {
        match self.strategy {
            Strategy::Parallel => if self.started < self.steps {
                Step::Spawn(self.started as usize)
            } else if self.settled.len() < self.steps {
                Step::Join(self.settled.len() as usize)
            } else {
                Step::Finish
            },
            Strategy::Sequential => if self.settled.len() < self.steps {
                Step::Run(self.settled.len() as usize)
            } else {
                Step::Finish
            },
        }
    }

    /// Whether `event` can follow the step of this state.
    pub open spec fn accepts(self, event: Event) -> bool {
        match self.next() {
            Step::Spawn(_) => event == Event::Spawned,
            Step::Join(_) => event != Event::Spawned,
            Step::Run(_) => event != Event::Spawned,
            Step::Finish => false,
        }
    }

    /// The state after `event`; a state that does not accept the event
    /// stays as it is.
    pub open spec fn advance(self, event: Event) -> SweepModel {
        if !self.accepts(event) {
            self
        } else {
            match self.next() {
                Step::Spawn(_) => SweepModel { started: self.started + 1, ..self },
                Step::Join(_) => SweepModel {
                    settled: self.settled.push(event == Event::Completed),
                    ..self
                },
                Step::Run(_) => SweepModel {
                    started: self.started + 1,
                    settled: self.settled.push(event == Event::Completed),
                    ..self
                },
                Step::Finish => self,
            }
        }
    }

    /// Whether every unit has ended.
    pub open spec fn finished(self) -> bool {
        self.settled.len() == self.steps
    }

    /// The number of events that the sweep still takes.
    pub open spec fn remaining(self) -> nat {
        match self.strategy {
            Strategy::Parallel => ((self.steps - self.started) + (self.steps
                - self.settled.len())) as nat,
            Strategy::Sequential => (self.steps - self.settled.len()) as nat,
        }
    }

    /// The event that a caller reports for the step of this state when unit
    /// `k` comes out as `results[k]`.
    pub open spec fn event_for(self, results: Seq<bool>) -> Event {
        match self.next() {
            Step::Spawn(_) => Event::Spawned,
            Step::Join(k) => if results[k as int] {
                Event::Completed
            } else {
                Event::Failed
            },
            Step::Run(k) => if results[k as int] {
                Event::Completed
            } else {
                Event::Failed
            },
            Step::Finish => Event::Spawned,
        }
    }

    /// The state in which the sweep ends when its caller follows every step
    /// and unit `k` comes out as `results[k]`.
    pub open spec fn run(self, results: Seq<bool>) -> SweepModel
        decreases self.remaining(),
    {
        if self.inv() && self.next() != Step::Finish {
            self.advance(self.event_for(results)).run(results)
        } else {
            self
        }
    }

    /// The units that ended without a result, in rising order.
    pub open spec fn failures(self) -> Seq<usize> {
        Seq::new(self.settled.len(), |k: int| k as usize).filter(|k: usize| !self.settled[k as int])
    }
}

/// The driver of one sweep.
#[derive(Debug)]
pub struct SweepDriver {
    strategy: Strategy,
    steps: usize,
    started: usize,
    settled: Vec<bool>,
}

impl View for SweepDriver {
    type V = SweepModel;

    closed spec fn view(&self) -> SweepModel {
        SweepModel {
            strategy: self.strategy,
            steps: self.steps as nat,
            started: self.started as nat,
            settled: self.settled@,
        }
    }
}

impl SweepDriver {
    /// Whether the driver is in a state that a sweep can be in.
    pub open spec fn wf(&self) -> bool {
        self@.inv()
    }

    /// Checks a sweep request and makes the driver for it.
    ///
    /// `start_positive` says whether the first weight is strictly positive,
    /// `start_below_end` whether it is strictly below the last, and
    /// `parallelism_available` whether the host offers parallelism. An
    /// accepted request gives a driver before its first step; a refused one
    /// gives the first reason in the order of [`request_error`].
    pub fn new(
        steps: usize,
        start_positive: bool,
        start_below_end: bool,
        parallelism_available: bool,
    ) -> (r: Result<SweepDriver, SweepError>)
        ensures
            match r {
                Ok(driver) => {
                    &&& request_error(steps, start_positive, start_below_end).is_none()
                    &&& driver.wf()
                    &&& driver@ == SweepModel::initial(
                        strategy_for(parallelism_available),
                        steps as nat,
                    )
                },
                Err(e) => request_error(steps, start_positive, start_below_end) == Some(e),
            },
    {
        if steps == 0 {
            return Err(SweepError::ZeroSteps);
        }
        if !start_positive {
            return Err(SweepError::NonPositiveLambda);
        }
        if !start_below_end {
            return Err(SweepError::LambdaOrder);
        }
        let strategy = if parallelism_available {
            Strategy::Parallel
        } else {
            Strategy::Sequential
        };
        Ok(SweepDriver { strategy, steps, started: 0, settled: Vec::new() })
    }

    /// Returns how the units are executed.
    pub fn strategy(&self) -> (r: Strategy)
        ensures
            r == self@.strategy,
    {
        self.strategy
    }

    /// Returns the number of units.
    pub fn steps(&self) -> (r: usize)
        ensures
            r == self@.steps,
    {
        self.steps
    }

    /// Returns the degree of the root that turns the quotient of the last
    /// and the first weight into the ratio of two neighbouring weights: one
    /// less than the number of steps, and `None` for a sweep of one step,
    /// whose only weight is the first and which forms no ratio.
    pub fn ratio_root(&self) -> (r: Option<usize>)
        requires
            self.wf(),
        ensures
            self@.steps == 1 ==> r.is_none(),
            self@.steps > 1 ==> r == Some((self@.steps - 1) as usize),
    {
        if self.steps == 1 {
            None
        } else {
            Some(self.steps - 1)
        }
    }

    /// Returns the step that the caller takes next.
    pub fn next_step(&self) -> (r: Step)
        requires
            self.wf(),
        ensures
            r == self@.next(),
    {
        let done: usize = self.settled.len();
        match self.strategy {
            Strategy::Parallel => {
                if self.started < self.steps {
                    Step::Spawn(self.started)
                } else if done < self.steps {
                    Step::Join(done)
                } else {
                    Step::Finish
                }
            },
            Strategy::Sequential => {
                if done < self.steps {
                    Step::Run(done)
                } else {
                    Step::Finish
                }
            },
        }
    }

    /// Takes in what the caller reports after the step of `next_step`.
    ///
    /// Returns whether the event fits that step. One that fits moves the
    /// driver on; one that does not leaves it as it was.
    pub fn advance(&mut self, event: Event) -> (r: bool)
        requires
            old(self).wf(),
        ensures
            final(self).wf(),
            r == old(self)@.accepts(event),
            final(self)@ == old(self)@.advance(event),
            r ==> final(self)@.remaining() + 1 == old(self)@.remaining(),
    {
        let step = self.next_step();
        match step {
            Step::Spawn(_) => {
                if event == Event::Spawned {
                    self.started = self.started + 1;
                    true
                } else {
                    false
                }
            },
            Step::Join(_) => {
                if event == Event::Spawned {
                    false
                } else {
                    self.settled.push(event == Event::Completed);
                    true
                }
            },
            Step::Run(_) => {
                if event == Event::Spawned {
                    false
                } else {
                    self.started = self.started + 1;
                    self.settled.push(event == Event::Completed);
                    true
                }
            },
            Step::Finish => false,
        }
    }

    /// Says whether every unit has ended.
    pub fn is_finished(&self) -> (r: bool)
        requires
            self.wf(),
        ensures
            r == self@.finished(),
            r == (self@.next() == Step::Finish),
    {
        self.settled.len() == self.steps
    }

    /// Returns how unit `k` came out: `Some(true)` with a result,
    /// `Some(false)` without one, `None` while it has not ended or where the
    /// sweep has no such unit.
    pub fn outcome(&self, k: usize) -> (r: Option<bool>)
        ensures
            r == if k < self@.settled.len() {
                Some(self@.settled[k as int])
            } else {
                None
            },
    {
        if k < self.settled.len() {
            Some(self.settled[k])
        } else {
            None
        }
    }

    /// Returns the numbers of the units that ended without a result, in
    /// rising order.
    pub fn failures(&self) -> (r: Vec<usize>)
        ensures
            r@ == self@.failures(),
    {
        let mut found: Vec<usize> = Vec::new();
        let mut k: usize = 0;
        let ghost all = Seq::new(self.settled@.len(), |k: int| k as usize);
        let ghost keep = |k: usize| !self.settled@[k as int];
        proof {
            assert(all.take(0) =~= Seq::<usize>::empty());
            reveal(Seq::filter);
        }
        while k < self.settled.len()
            invariant
                k <= self.settled@.len(),
                all == Seq::new(self.settled@.len(), |k: int| k as usize),
                keep == |k: usize| !self.settled@[k as int],
                found@ == all.take(k as int).filter(keep),
            decreases self.settled@.len() - k,
        {
            proof {
                let longer = all.take(k as int + 1);
                assert(longer.drop_last() =~= all.take(k as int));
                assert(longer.last() == k);
                reveal(Seq::filter);
            }
            if !self.settled[k] {
                found.push(k);
            }
            k = k + 1;
        }
        assert(all.take(k as int) =~= all);
        found
    }
}

/// A sweep that is run to its end has every unit ended, each with the
/// outcome that the unit had: from any state whose ended units came out as
/// `results` says, following the steps ends in a state whose outcomes are
/// `results`.
pub proof fn lemma_run_settles_every_unit(state: SweepModel, results: Seq<bool>)
    requires
        state.inv(),
        results.len() == state.steps,
        state.settled =~= results.take(state.settled.len() as int),
    ensures
        state.run(results).inv(),
        state.run(results).finished(),
        state.run(results).next() == Step::Finish,
        state.run(results).settled == results,
        state.run(results).strategy == state.strategy,
        state.run(results).steps == state.steps,
    decreases state.remaining(),
{
    if state.next() != Step::Finish {
        let event = state.event_for(results);
        let after = state.advance(event);
        assert(state.accepts(event));
        assert(after.settled =~= results.take(after.settled.len() as int));
        lemma_run_settles_every_unit(after, results);
    } else {
        assert(state.settled =~= results);
    }
}

/// The outcome of a sweep does not depend on how its units are executed: a
/// parallel and a sequential sweep of the same number of steps, whose units
/// come out alike, end with the same outcomes, unit by unit.
pub proof fn lemma_strategy_does_not_change_outcomes(steps: nat, results: Seq<bool>)
    requires
        1 <= steps <= usize::MAX,
        results.len() == steps,
    ensures
        SweepModel::initial(Strategy::Parallel, steps).run(results).settled == results,
        SweepModel::initial(Strategy::Sequential, steps).run(results).settled == results,
        SweepModel::initial(Strategy::Parallel, steps).run(results).failures()
            == SweepModel::initial(Strategy::Sequential, steps).run(results).failures(),
{
    let parallel = SweepModel::initial(Strategy::Parallel, steps);
    let sequential = SweepModel::initial(Strategy::Sequential, steps);
    assert(parallel.settled =~= results.take(0));
    assert(sequential.settled =~= results.take(0));
    lemma_run_settles_every_unit(parallel, results);
    lemma_run_settles_every_unit(sequential, results);
}

/// Units are begun in the order of their numbers, each once: the step that
/// begins a unit names the number of units begun before it, and the step
/// that waits for one names the number of units ended before it.
pub proof fn lemma_units_in_order(state: SweepModel)
    requires
        state.inv(),
    ensures
        match state.next() {
            Step::Spawn(k) => k == state.started && state.settled.len() == 0,
            Step::Join(k) => k == state.settled.len() && state.started == state.steps,
            Step::Run(k) => k == state.started && k == state.settled.len(),
            Step::Finish => state.finished() && state.started == state.steps,
        },
{
}

} // verus!
