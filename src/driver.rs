//! The protocol with the execution engine: advance it until it reports
//! an error or completion, and never go on after either.

use vstd::prelude::*;

verus! {

/// What the engine reports after one advancement.
#[derive(Debug)]
pub enum DriverState {
    /// The engine needs another advancement.
    Continuing,
    /// The engine failed; `partial` describes the state it reached.
    Error { cause: String, partial: String },
    /// The engine finished and holds its result.
    Done,
}

/// The kind of an engine report.
#[derive(Clone, Copy, Debug, PartialEq, Eq, Structural)]
pub enum StateKind {
    Continuing,
    Error,
    Done,
}

/// Where a run stands.
#[derive(Clone, Copy, Debug, PartialEq, Eq, Structural)]
pub enum Phase {
    /// The engine has not reported an error or completion yet.
    Running,
    /// The engine reported completion.
    Finished,
    /// The engine reported an error.
    Failed,
}

/// What the caller does next.
#[derive(Debug)]
pub enum Decision {
    /// Advance the engine once more.
    Advance,
    /// End the run with the engine's failure.
    Fail { cause: String, partial: String },
    /// Take the engine's result.
    Collect,
    /// The engine reported something after it had finished or failed: a
    /// defect of the engine.
    Defect,
}

/// The kind of a decision.
#[derive(Clone, Copy, Debug, PartialEq, Eq, Structural)]
pub enum DecisionKind {
    Advance,
    Fail,
    Collect,
    Defect,
}

pub open spec fn state_kind(s: DriverState) -> StateKind {
    match s {
        DriverState::Continuing => StateKind::Continuing,
        DriverState::Error { .. } => StateKind::Error,
        DriverState::Done => StateKind::Done,
    }
}

pub open spec fn decision_kind(d: Decision) -> DecisionKind {
    match d {
        Decision::Advance => DecisionKind::Advance,
        Decision::Fail { .. } => DecisionKind::Fail,
        Decision::Collect => DecisionKind::Collect,
        Decision::Defect => DecisionKind::Defect,
    }
}

/// The phase after a report, and the decision it calls for.
pub open spec fn step(p: Phase, s: StateKind) -> (Phase, DecisionKind) {
    match p {
        Phase::Running => match s {
            StateKind::Continuing => (Phase::Running, DecisionKind::Advance),
            StateKind::Error => (Phase::Failed, DecisionKind::Fail),
            StateKind::Done => (Phase::Finished, DecisionKind::Collect),
        },
        _ => (p, DecisionKind::Defect),
    }
}

/// The phase after a sequence of reports.
pub open spec fn run(p: Phase, reports: Seq<StateKind>) -> Phase
    decreases reports.len(),
{
    if reports.len() == 0 {
        p
    } else {
        step(run(p, reports.drop_last()), reports.last()).0
    }
}

/// Once the engine has reported an error or completion, the run stays
/// where it is, and every later report is answered as a defect: the run
/// never advances the engine or collects a result again.
pub proof fn lemma_terminal_is_final(p: Phase, reports: Seq<StateKind>, i: int, j: int)
    requires
        0 <= i <= j < reports.len(),
        run(p, reports.take(i)) != Phase::Running,
    ensures
        run(p, reports.take(j)) == run(p, reports.take(i)),
        run(p, reports.take(j + 1)) == run(p, reports.take(i)),
        step(run(p, reports.take(j)), reports[j]).1 == DecisionKind::Defect,
    decreases j - i,
{
    if j > i {
        lemma_terminal_is_final(p, reports, i, j - 1);
        assert(reports.take(j).drop_last() =~= reports.take(j - 1));
    }
    assert(reports.take(j + 1).drop_last() =~= reports.take(j));
}

/// Follows the engine's reports through one run.
#[derive(Debug)]
pub struct DriverAdapter {
    phase: Phase,
}

impl View for DriverAdapter {
    type V = Phase;

    closed spec fn view(&self) -> Phase {
        self.phase
    }
}

impl DriverAdapter {
    /// An adapter for a run that has not started.
    pub fn new() -> (r: DriverAdapter)
        ensures
            r@ == Phase::Running,
    {
        DriverAdapter { phase: Phase::Running }
    }

    /// Where the run stands.
    pub fn phase(&self) -> (r: Phase)
        ensures
            r == self@,
    {
        self.phase
    }

    /// Takes one report of the engine and decides what comes next. An
    /// error is handed on as it came, with no retry.
    pub fn observe(&mut self, s: DriverState) -> (r: Decision)
        ensures
            (final(self)@, decision_kind(r)) == step(old(self)@, state_kind(s)),
            r matches Decision::Fail { cause, partial } ==> s == (DriverState::Error {
                cause,
                partial,
            }),
    {
        match self.phase {
            Phase::Running => match s {
                DriverState::Continuing => Decision::Advance,
                DriverState::Error { cause, partial } => {
                    self.phase = Phase::Failed;
                    Decision::Fail { cause, partial }
                },
                DriverState::Done => {
                    self.phase = Phase::Finished;
                    Decision::Collect
                },
            },
            _ => Decision::Defect,
        }
    }
}

} // verus!
