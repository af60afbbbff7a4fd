use vstd::prelude::*;

verus! {

/// What the driver of an ascent run does next.
#[derive(Clone, Copy, Debug, PartialEq, Eq, Structural)]
pub enum Next {
    /// Evaluate the current state, take a gradient step from it and clip each entry
    /// of the candidate into [0, 1]; then report with `clipped` whether the clipped
    /// entries sum to more than 1.
    Step,
    /// Divide each entry of the clipped candidate by their sum; then report `rescaled`.
    Rescale,
    /// Evaluate the projected candidate and hand it to `offer`.
    Judge,
    /// The run is over: take the last accepted state.
    Stop,
}

/// Where a run stands within one iteration.
#[derive(Clone, Copy, Debug, PartialEq, Eq, Structural)]
pub enum Phase {
    /// Between iterations.
    Ready,
    /// The candidate is clipped and its entries sum to more than 1.
    Clipped,
    /// The candidate is clipped, and rescaled where its sum exceeded 1.
    Projected,
}

/// The order of actions, and the stopping and acceptance rules, of one projected
/// gradient-ascent run.
///
/// `best` is the last accepted state (an allocation with its objective value), which
/// starts as the state the run was begun from. Each iteration forms a candidate by a
/// gradient step and clipping, rescales it when its sum exceeds 1, and only then
/// judges it: it is accepted only when it strictly improves the objective, and the
/// first candidate that does not ends the run with `best` unchanged. At most
/// `max_iterations` iterations are taken.
pub struct Ascent<T> {
    pub max_iterations: usize,
    pub iterations: usize,
    pub halted: bool,
    pub phase: Phase,
    pub best: T,
}

impl<T> Ascent<T> {
    /// Iterations taken never exceed the budget, and an iteration is under way only
    /// while the run is owed one.
    pub open spec fn wf(&self) -> bool {
        &&& self.iterations <= self.max_iterations
        &&& self.phase != Phase::Ready ==> self.running()
    }

    /// Another iteration is owed: no candidate has been rejected and budget is left.
    pub open spec fn running(&self) -> bool {
        !self.halted && self.iterations < self.max_iterations
    }

    /// The action that the state calls for.
    pub open spec fn action(&self) -> Next {
        match self.phase {
            Phase::Ready => if self.running() {
                Next::Step
            } else {
                Next::Stop
            },
            Phase::Clipped => Next::Rescale,
            Phase::Projected => Next::Judge,
        }
    }

    /// The state after the candidate was clipped, with `exceeds_one` telling whether
    /// its entries sum to more than 1.
    pub open spec fn after_clip(self, exceeds_one: bool) -> Self {
        Ascent {
            phase: if exceeds_one {
                Phase::Clipped
            } else {
                Phase::Projected
            },
            ..self
        }
    }

    /// The state after the clipped candidate was rescaled.
    pub open spec fn after_rescale(self) -> Self {
        Ascent { phase: Phase::Projected, ..self }
    }

    /// The state after offering `candidate` with the report `improved`.
    pub open spec fn offered(self, candidate: T, improved: bool) -> Self {
        Ascent {
            max_iterations: self.max_iterations,
            iterations: (self.iterations + 1) as usize,
            halted: !improved,
            phase: Phase::Ready,
            best: if improved {
                candidate
            } else {
                self.best
            },
        }
    }

    /// A run with a budget of `max_iterations` iterations, begun from `start`.
    pub fn new(max_iterations: usize, start: T) -> (r: Self)
        ensures
            r.wf(),
            r.max_iterations == max_iterations,
            r.iterations == 0,
            !r.halted,
            r.phase == Phase::Ready,
            r.best == start,
    {
        Ascent { max_iterations, iterations: 0, halted: false, phase: Phase::Ready, best: start }
    }

    /// What to do next.
    pub fn next(&self) -> (r: Next)
        requires
            self.wf(),
        ensures
            r == self.action(),
    {
        match self.phase {
            Phase::Ready => if !self.halted && self.iterations < self.max_iterations {
                Next::Step
            } else {
                Next::Stop
            },
            Phase::Clipped => Next::Rescale,
            Phase::Projected => Next::Judge,
        }
    }

    /// Reports that the step was taken and the candidate clipped; `exceeds_one` tells
    /// whether the clipped entries sum to more than 1.
    pub fn clipped(&mut self, exceeds_one: bool)
        requires
            old(self).wf(),
            old(self).action() == Next::Step,
        ensures
            final(self).wf(),
            *final(self) == old(self).after_clip(exceeds_one),
    {
        if exceeds_one {
            self.phase = Phase::Clipped;
        } else {
            self.phase = Phase::Projected;
        }
    }

    /// Reports that the clipped candidate was rescaled.
    pub fn rescaled(&mut self)
        requires
            old(self).wf(),
            old(self).action() == Next::Rescale,
        ensures
            final(self).wf(),
            *final(self) == old(self).after_rescale(),
    {
        self.phase = Phase::Projected;
    }

    /// Offers the projected candidate of one iteration. `improved` tells whether the
    /// candidate's objective value is strictly greater than that of the current
    /// state; only then does the candidate become the current state, and otherwise
    /// the run halts.
    pub fn offer(&mut self, candidate: T, improved: bool)
        requires
            old(self).wf(),
            old(self).action() == Next::Judge,
        ensures
            final(self).wf(),
            *final(self) == old(self).offered(candidate, improved),
            final(self).max_iterations == old(self).max_iterations,
            final(self).iterations == old(self).iterations + 1,
            final(self).halted == !improved,
            final(self).phase == Phase::Ready,
            final(self).best == (if improved {
                candidate
            } else {
                old(self).best
            }),
    {
        self.iterations = self.iterations + 1;
        self.phase = Phase::Ready;
        if improved {
            self.best = candidate;
        } else {
            self.halted = true;
        }
    }

    /// The result of the run: the last accepted state.
    pub fn finish(self) -> (r: T)
        ensures
            r == self.best,
    {
        self.best
    }
}

/// The order within an iteration: the candidate is clipped first; it is rescaled
/// exactly when the clipped entries sum to more than 1; and it is judged only after
/// that projection, after which the run either begins a new iteration or stops.
pub proof fn lemma_iteration_order<T>(run: Ascent<T>, exceeds_one: bool, candidate: T, improved: bool)
    requires
        run.wf(),
        run.action() == Next::Step,
    ensures
        run.after_clip(exceeds_one).wf(),
        run.after_clip(exceeds_one).action() == (if exceeds_one {
            Next::Rescale
        } else {
            Next::Judge
        }),
        run.after_clip(true).after_rescale().wf(),
        run.after_clip(true).after_rescale().action() == Next::Judge,
        ({
            let after = run.after_clip(exceeds_one);
            let projected = if exceeds_one {
                after.after_rescale()
            } else {
                after
            };
            let next = projected.offered(candidate, improved).action();
            next == Next::Step || next == Next::Stop
        }),
{
}

/// Accepted values rise strictly: when the report handed to `offer` is the strict
/// comparison of the candidate's value with the current state's value, under any
/// integer-valued measure `value`, one iteration either keeps the current state or
/// moves to a state of strictly greater value.
pub proof fn lemma_step_keeps_or_rises<T>(
    run: Ascent<T>,
    candidate: T,
    value: spec_fn(T) -> int,
)
    requires
        run.wf(),
        run.action() == Next::Judge,
    ensures
        ({
            let next = run.offered(candidate, value(candidate) > value(run.best));
            next.best == run.best || value(next.best) > value(run.best)
        }),
{
}

} // verus!
