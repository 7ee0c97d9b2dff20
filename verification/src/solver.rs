//! The iteration control of the primal-dual solver: when a run stops, and
//! with which status.
//!
//! A run is a row of iterations. After each one the solver compares the
//! relative change of its estimate with the convergence threshold; the run
//! stops as converged at the first iteration whose change is below the
//! threshold, and as exhausted at the iteration that reaches the cap.
use vstd::prelude::*;

verus! {

/// How a run of the solver ended. Both outcomes carry a result; `Exhausted`
/// only says that the threshold was not reached.
#[derive(Clone, Copy, Debug, PartialEq, Eq, Structural)]
pub enum Status {
    Converged,
    Exhausted,
}

/// What follows an iteration: the status with which the run stops, or
/// `None` where it goes on.
///
/// `completed` counts the iterations made so far, this one included.
pub open spec fn stop_rule(completed: nat, max_iter: nat, below_threshold: bool) -> Option<
    Status,
> {
    if below_threshold {
        Some(Status::Converged)
    } else if completed >= max_iter {
        Some(Status::Exhausted)
    } else {
        None
    }
}

/// The progress of one run of the solver.
pub struct RunModel {
    pub max_iter: nat,
    pub completed: nat,
    pub status: Option<Status>,
}

impl RunModel {
    /// The state before the first iteration.
    pub open spec fn initial(max_iter: nat) -> RunModel {
        RunModel { max_iter, completed: 0, status: None }
    }

    /// The states that a run can be in: it has not gone past the cap (a
    /// cap of 0 still lets the first iteration happen), it has stopped only
    /// after an iteration, a run that goes on has room for one more, and an
    /// exhausted run has reached the cap.
    pub open spec fn inv(self) -> bool {
        &&& self.max_iter <= u32::MAX
        &&& self.completed <= self.max_iter || self.completed == 1
        &&& self.status.is_some() ==> self.completed >= 1
        &&& self.status.is_none() ==> self.completed == 0 || self.completed < self.max_iter
        &&& self.status == Some(Status::Exhausted) ==> self.completed >= self.max_iter
    }

    /// The state after one more iteration whose relative change is or is
    /// not below the threshold; a run that has stopped stays as it is.
    pub open spec fn record(self, below_threshold: bool) -> RunModel {
        if self.status.is_some() {
            self
        } else {
            RunModel {
                completed: self.completed + 1,
                status: stop_rule(self.completed + 1, self.max_iter, below_threshold),
                ..self
            }
        }
    }
}

/// Decides what follows an iteration.
///
/// `completed` counts the iterations made so far, this one included, and
/// `below_threshold` says whether the relative change of this iteration is
/// strictly below the convergence threshold.
pub fn stop_decision(completed: u32, max_iter: u32, below_threshold: bool) -> (r: Option<Status>)
    ensures
        r == stop_rule(completed as nat, max_iter as nat, below_threshold),
{
    if below_threshold {
        Some(Status::Converged)
    } else if completed >= max_iter {
        Some(Status::Exhausted)
    } else {
        None
    }
}

/// Keeps count of the iterations of one run and of how it ended.
#[derive(Clone, Copy, Debug)]
pub struct IterationControl {
    max_iter: u32,
    completed: u32,
    status: Option<Status>,
}

impl View for IterationControl {
    type V = RunModel;

    closed spec fn view(&self) -> RunModel {
        RunModel {
            max_iter: self.max_iter as nat,
            completed: self.completed as nat,
            status: self.status,
        }
    }
}

impl IterationControl {
    /// Whether the control is in a state that a run can be in.
    pub open spec fn wf(&self) -> bool {
        self@.inv()
    }

    /// Makes the control of a run of at most `max_iter` iterations.
    pub fn new(max_iter: u32) -> (r: IterationControl)
        ensures
            r.wf(),
            r@ == RunModel::initial(max_iter as nat),
    {
        IterationControl { max_iter, completed: 0, status: None }
    }

    /// Takes in the end of one iteration and returns what follows it: the
    /// status with which the run stops, or `None` where it goes on. On a
    /// run that has stopped it changes nothing and returns the status.
    pub fn record(&mut self, below_threshold: bool) -> (r: Option<Status>)
        requires
            old(self).wf(),
        ensures
            final(self).wf(),
            final(self)@ == old(self)@.record(below_threshold),
            r == final(self)@.status,
    {
        if self.status.is_none() {
            self.completed = self.completed + 1;
            self.status = stop_decision(self.completed, self.max_iter, below_threshold);
        }
        self.status
    }

    /// Returns the number of iterations made.
    pub fn iterations(&self) -> (r: u32)
        ensures
            r == self@.completed,
    {
        self.completed
    }

    /// Returns how the run ended, and `None` while it goes on.
    pub fn status(&self) -> (r: Option<Status>)
        ensures
            r == self@.status,
    {
        self.status
    }
}

/// A run whose first iteration changes the estimate by less than the
/// threshold stops there, as converged, whatever the cap and whatever else
/// the parameters are.
pub proof fn lemma_first_iteration_below_threshold_converges(max_iter: nat)
    ensures
        RunModel::initial(max_iter).record(true).completed == 1,
        RunModel::initial(max_iter).record(true).status == Some(Status::Converged),
{
}

/// No run makes more iterations than its cap allows, the first excepted:
/// recording an iteration keeps the run within the states that a run can be
/// in, and a run that goes on has made fewer iterations than the cap.
pub proof fn lemma_run_is_bounded(run: RunModel, below_threshold: bool)
    requires
        run.inv(),
    ensures
        run.record(below_threshold).inv(),
        run.record(below_threshold).status.is_none() ==> run.record(below_threshold).completed
            < run.max_iter,
        run.record(below_threshold).completed <= run.max_iter || run.record(
            below_threshold,
        ).completed == 1,
{
}

} // verus!
