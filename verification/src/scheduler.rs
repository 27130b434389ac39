//! The round scheduler: which round may start, and when.
//!
//! The scheduler does no I/O. It names what to do next ([`Action`]): query
//! the chain height, sleep, dispatch a round, or stop. The caller does it and
//! reports back ([`Event`]). Rounds are numbered from zero and dispatched in
//! order, each after its gate has opened: under height pacing once the chain
//! has grown by the configured number of blocks since the last gate opened,
//! under time pacing once the configured delay has passed since the last
//! dispatch ended.

use crate::error::ConfigError;
use vstd::prelude::*;

verus! {

/// What holds a round back.
#[derive(Clone, Copy, Debug, PartialEq, Eq, Structural)]
pub enum Pacing {
    /// The chain must have grown by `delta` blocks; while it has not, its
    /// height is asked for every `poll_millis`.
    Height { delta: u64, poll_millis: u64 },
    /// `delay_millis` must have passed since the last dispatch ended.
    Time { delay_millis: u64 },
}

impl Pacing {
    /// A pacing parameter of zero paces nothing and is refused.
    pub open spec fn valid(self) -> bool {
        match self {
            Pacing::Height { delta, poll_millis } => delta > 0 && poll_millis > 0,
            Pacing::Time { delay_millis } => delay_millis > 0,
        }
    }

    /// Whether the parameters are all positive.
    pub fn is_valid(&self) -> (r: bool)
        ensures
            r == self.valid(),
    {
        match self {
            Pacing::Height { delta, poll_millis } => *delta > 0 && *poll_millis > 0,
            Pacing::Time { delay_millis } => *delay_millis > 0,
        }
    }
}

/// How many rounds a run has.
#[derive(Clone, Copy, Debug, PartialEq, Eq, Structural)]
pub enum RoundLimit {
    /// This many.
    Rounds { count: u64 },
    /// As many as there are round numbers: the run goes on until cancelled.
    Unbounded,
}

impl RoundLimit {
    /// The number of rounds after which the run is complete.
    pub open spec fn cap(self) -> u64 {
        match self {
            RoundLimit::Rounds { count } => count,
            RoundLimit::Unbounded => u64::MAX,
        }
    }

    /// The number of rounds after which the run is complete.
    pub fn rounds(&self) -> (r: u64)
        ensures
            r == self.cap(),
    {
        match self {
            RoundLimit::Rounds { count } => *count,
            RoundLimit::Unbounded => u64::MAX,
        }
    }
}

/// Why a run stopped.
#[derive(Clone, Copy, Debug, PartialEq, Eq, Structural)]
pub enum StopReason {
    /// Every round was dispatched.
    Completed,
    /// The caller cancelled the run.
    Cancelled,
    /// The chain height could not be had under height pacing.
    HeightUnavailable,
}

/// The four states of a scheduler.
#[derive(Clone, Copy, Debug, PartialEq, Eq, Structural)]
pub enum Phase {
    Idle,
    WaitingForGate,
    Dispatching,
    Terminal,
}

/// Where exactly the scheduler stands.
#[derive(Clone, Copy, Debug, PartialEq, Eq, Structural)]
pub enum Stage {
    /// Not started.
    Idle,
    /// Waiting for the first height, from which growth is counted.
    AwaitingBaseline,
    /// Waiting for a height to hold against the round's gate.
    AwaitingHeight,
    /// Waiting for a sleep to end.
    Pausing,
    /// Waiting for the dispatch of the current round to end.
    Dispatching,
    /// Stopped.
    Terminal { reason: StopReason },
}

impl Stage {
    /// The state that the stage belongs to.
    pub open spec fn phase(self) -> Phase {
        match self {
            Stage::Idle => Phase::Idle,
            Stage::AwaitingBaseline => Phase::WaitingForGate,
            Stage::AwaitingHeight => Phase::WaitingForGate,
            Stage::Pausing => Phase::WaitingForGate,
            Stage::Dispatching => Phase::Dispatching,
            Stage::Terminal { reason } => Phase::Terminal,
        }
    }
}

/// What the scheduler asks for.
#[derive(Clone, Copy, Debug, PartialEq, Eq, Structural)]
pub enum Action {
    /// Ask the chain for its height and report it.
    QueryHeight,
    /// Sleep this long and report back.
    Sleep { millis: u64 },
    /// Dispatch this round over all accounts and report when it is over.
    Dispatch { round: u64 },
    /// The run is over.
    Stop { reason: StopReason },
    /// The event answered nothing that was asked for; nothing changed.
    Ignored,
}

/// What the caller reports.
#[derive(Clone, Copy, Debug, PartialEq, Eq, Structural)]
pub enum Event {
    /// The run is to start.
    Start,
    /// The chain's height, or `None` where it could not be had.
    Height { value: Option<u64> },
    /// The sleep asked for is over.
    Slept,
    /// The dispatch asked for is over.
    Dispatched,
    /// The run is to stop: no further round is to be dispatched.
    Cancel,
}

/// A scheduler as plain values.
#[derive(Clone, Copy, Debug, PartialEq, Eq, Structural)]
pub struct State {
    pub pacing: Pacing,
    pub limit: RoundLimit,
    pub stage: Stage,
    /// The number of rounds whose dispatch has ended: the number of the
    /// round that is dispatched next, or being dispatched.
    pub round: u64,
    /// The height at which a gate last opened; before that, the first
    /// height seen.
    pub last_height: u64,
}

impl State {
    /// A scheduler that has not started.
    pub open spec fn fresh(pacing: Pacing, limit: RoundLimit) -> State {
        State { pacing, limit, stage: Stage::Idle, round: 0, last_height: 0 }
    }

    /// The pacing is valid, and the run is complete exactly when every round
    /// has been dispatched.
    pub open spec fn wf(self) -> bool {
        &&& self.pacing.valid()
        &&& self.limit.cap() > 0
        &&& self.round <= self.limit.cap()
        &&& (self.stage matches Stage::Terminal { reason } ==> (reason == StopReason::Completed
            <==> self.round == self.limit.cap()))
        &&& (!(self.stage is Terminal) ==> self.round < self.limit.cap())
        &&& (self.pacing is Time ==> !(self.stage is AwaitingBaseline) && !(self.stage
            is AwaitingHeight))
    }

    /// Whether the round's gate is open at `height`: the chain has grown by at least
    /// the configured number of blocks.
    pub open spec fn gate_open(self, height: u64) -> bool {
        match self.pacing {
            Pacing::Height { delta, poll_millis } => height >= self.last_height + delta,
            Pacing::Time { delay_millis } => true,
        }
    }

    /// What is asked for on the way to the next round's gate.
    pub open spec fn approach(self) -> (Stage, Action) {
        match self.pacing {
            Pacing::Height { delta, poll_millis } => (Stage::AwaitingHeight, Action::QueryHeight),
            Pacing::Time { delay_millis } => (
                Stage::Pausing,
                Action::Sleep { millis: delay_millis },
            ),
        }
    }

    /// The step that an event causes.
    ///
    /// - `Start` leaves `Idle`. Under height pacing the height is asked for,
    ///   to count growth from; under time pacing nothing holds the first
    ///   round back, and a sleep of no length is asked for.
    /// - The first height is kept and the height is asked for again. A later
    ///   height opens the round's gate if the chain has grown enough: it is then kept
    ///   and the round is dispatched. Otherwise a sleep of the poll interval
    ///   is asked for. A height that could not be had stops the run.
    /// - The end of a sleep leads to another height query under height
    ///   pacing, and to the dispatch of the round under time pacing.
    /// - The end of a dispatch completes the round. After the last round the
    ///   run stops as completed; otherwise the next gate is approached.
    /// - `Cancel` stops a run that has not stopped.
    /// - A stopped scheduler answers every event with its reason for
    ///   stopping. Any other event that answers nothing asked for is ignored.
    pub open spec fn next(self, event: Event) -> (State, Action) {
        match (self.stage, event) {
            (Stage::Terminal { reason }, _) => (self, Action::Stop { reason }),
            (_, Event::Cancel) => (
                State { stage: Stage::Terminal { reason: StopReason::Cancelled }, ..self },
                Action::Stop { reason: StopReason::Cancelled },
            ),
            (Stage::Idle, Event::Start) => match self.pacing {
                Pacing::Height { delta, poll_millis } => (
                    State { stage: Stage::AwaitingBaseline, ..self },
                    Action::QueryHeight,
                ),
                Pacing::Time { delay_millis } => (
                    State { stage: Stage::Pausing, ..self },
                    Action::Sleep { millis: 0 },
                ),
            },
            (Stage::AwaitingBaseline, Event::Height { value: Some(height) }) => (
                State { stage: Stage::AwaitingHeight, last_height: height, ..self },
                Action::QueryHeight,
            ),
            (Stage::AwaitingHeight, Event::Height { value: Some(height) }) => if self.gate_open(
                height,
            ) {
                (
                    State { stage: Stage::Dispatching, last_height: height, ..self },
                    Action::Dispatch { round: self.round },
                )
            } else {
                (
                    State { stage: Stage::Pausing, ..self },
                    Action::Sleep { millis: self.pacing->poll_millis },
                )
            },
            (Stage::AwaitingBaseline, Event::Height { value: None }) => (
                State { stage: Stage::Terminal { reason: StopReason::HeightUnavailable }, ..self },
                Action::Stop { reason: StopReason::HeightUnavailable },
            ),
            (Stage::AwaitingHeight, Event::Height { value: None }) => (
                State { stage: Stage::Terminal { reason: StopReason::HeightUnavailable }, ..self },
                Action::Stop { reason: StopReason::HeightUnavailable },
            ),
            (Stage::Pausing, Event::Slept) => match self.pacing {
                Pacing::Height { delta, poll_millis } => (
                    State { stage: Stage::AwaitingHeight, ..self },
                    Action::QueryHeight,
                ),
                Pacing::Time { delay_millis } => (
                    State { stage: Stage::Dispatching, ..self },
                    Action::Dispatch { round: self.round },
                ),
            },
            (Stage::Dispatching, Event::Dispatched) => if self.round + 1 >= self.limit.cap() {
                (
                    State {
                        stage: Stage::Terminal { reason: StopReason::Completed },
                        round: self.limit.cap(),
                        ..self
                    },
                    Action::Stop { reason: StopReason::Completed },
                )
            } else {
                (
                    State { stage: self.approach().0, round: (self.round + 1) as u64, ..self },
                    self.approach().1,
                )
            },
            _ => (self, Action::Ignored),
        }
    }
}

/// The scheduler after a sequence of events.
pub open spec fn after(start: State, events: Seq<Event>) -> State
    decreases events.len(),
{
    if events.len() == 0 {
        start
    } else {
        after(start, events.drop_last()).next(events.last()).0
    }
}

/// The rounds whose dispatch a sequence of events has caused, in order.
pub open spec fn dispatched(start: State, events: Seq<Event>) -> Seq<u64>
    decreases events.len(),
{
    if events.len() == 0 {
        Seq::empty()
    } else {
        let before = dispatched(start, events.drop_last());
        match after(start, events.drop_last()).next(events.last()).1 {
            Action::Dispatch { round } => before.push(round),
            _ => before,
        }
    }
}

/// Whatever is reported to a scheduler, and in whatever order, the rounds
/// it has dispatched are `0, 1, 2, ...` without a gap or a repeat, and no
/// more of them than the run has. While a dispatch is under way their number
/// is one more than the number of rounds completed; while the scheduler is
/// idle or waits for a gate it is the number of rounds completed. A run that
/// stopped as completed has dispatched every round.
pub proof fn lemma_rounds_in_order(pacing: Pacing, limit: RoundLimit, events: Seq<Event>)
    requires
        pacing.valid(),
        limit.cap() > 0,
    ensures
        after(State::fresh(pacing, limit), events).wf(),
        after(State::fresh(pacing, limit), events).pacing == pacing,
        after(State::fresh(pacing, limit), events).limit == limit,
        forall|i: int|
            0 <= i < dispatched(State::fresh(pacing, limit), events).len() ==> dispatched(
                State::fresh(pacing, limit),
                events,
            )[i] == i,
        dispatched(State::fresh(pacing, limit), events).len() <= limit.cap(),
        rounds_accounted(
            after(State::fresh(pacing, limit), events),
            dispatched(State::fresh(pacing, limit), events).len(),
        ),
    decreases events.len(),
{
    if events.len() > 0 {
        lemma_rounds_in_order(pacing, limit, events.drop_last());
    }
}

/// How the number of rounds dispatched so far relates to the scheduler's
/// state.
pub open spec fn rounds_accounted(state: State, count: nat) -> bool {
    match state.stage {
        Stage::Dispatching => count == state.round + 1,
        Stage::Terminal { reason: StopReason::Completed } => count == state.limit.cap(),
        Stage::Terminal { reason } => state.round <= count <= state.round + 1,
        _ => count == state.round,
    }
}

/// The round scheduler.
#[derive(Clone, Copy, Debug)]
pub struct Scheduler {
    state: State,
}

impl View for Scheduler {
    type V = State;

    closed spec fn view(&self) -> State {
        self.state
    }
}

impl Scheduler {
    #[verifier::type_invariant]
    spec fn inv(self) -> bool {
        self.state.wf()
    }

    /// A scheduler that has not started. A run without rounds and a pacing
    /// parameter of zero are refused, the first before the second.
    pub fn new(pacing: Pacing, limit: RoundLimit) -> (r: Result<Scheduler, ConfigError>)
        ensures
            match r {
                Ok(s) => limit.cap() > 0 && pacing.valid() && s@ == State::fresh(pacing, limit),
                Err(e) => if limit.cap() == 0 {
                    e == ConfigError::ZeroRounds
                } else {
                    !pacing.valid() && e == ConfigError::InvalidPacing
                },
            },
    {
        if limit.rounds() == 0 {
            Err(ConfigError::ZeroRounds)
        } else if !pacing.is_valid() {
            Err(ConfigError::InvalidPacing)
        } else {
            Ok(Scheduler { state: State { pacing, limit, stage: Stage::Idle, round: 0, last_height: 0 } })
        }
    }

    /// Takes a report and names what to do next.
    pub fn step(&mut self, event: Event) -> (action: Action)
        ensures
            (final(self)@, action) == old(self)@.next(event),
            old(self)@.wf(),
            final(self)@.wf(),
    {
        proof {
            use_type_invariant(&*self);
        }
        let state = self.state;
        let (next, action) = Self::advance(state, event);
        self.state = next;
        action
    }

    fn advance(state: State, event: Event) -> (r: (State, Action))
        requires
            state.wf(),
        ensures
            r == state.next(event),
            r.0.wf(),
    {
        let State { pacing, limit, stage, round, last_height } = state;
        match (stage, event) {
            (Stage::Terminal { reason }, _) => (state, Action::Stop { reason }),
            (_, Event::Cancel) => {
                let reason = StopReason::Cancelled;
                (
                    State { pacing, limit, stage: Stage::Terminal { reason }, round, last_height },
                    Action::Stop { reason },
                )
            },
            (Stage::Idle, Event::Start) => match pacing {
                Pacing::Height { .. } => (
                    State { pacing, limit, stage: Stage::AwaitingBaseline, round, last_height },
                    Action::QueryHeight,
                ),
                Pacing::Time { .. } => (
                    State { pacing, limit, stage: Stage::Pausing, round, last_height },
                    Action::Sleep { millis: 0 },
                ),
            },
            (Stage::AwaitingBaseline, Event::Height { value: Some(height) }) => (
                State { pacing, limit, stage: Stage::AwaitingHeight, round, last_height: height },
                Action::QueryHeight,
            ),
            (Stage::AwaitingHeight, Event::Height { value: Some(height) }) => match pacing {
                Pacing::Height { delta, poll_millis } => {
                    if height >= last_height && height - last_height >= delta {
                        (
                            State {
                                pacing,
                                limit,
                                stage: Stage::Dispatching,
                                round,
                                last_height: height,
                            },
                            Action::Dispatch { round },
                        )
                    } else {
                        (
                            State { pacing, limit, stage: Stage::Pausing, round, last_height },
                            Action::Sleep { millis: poll_millis },
                        )
                    }
                },
                Pacing::Time { .. } => (state, Action::Ignored),
            },
            (Stage::AwaitingBaseline, Event::Height { value: None }) => {
                let reason = StopReason::HeightUnavailable;
                (
                    State { pacing, limit, stage: Stage::Terminal { reason }, round, last_height },
                    Action::Stop { reason },
                )
            },
            (Stage::AwaitingHeight, Event::Height { value: None }) => {
                let reason = StopReason::HeightUnavailable;
                (
                    State { pacing, limit, stage: Stage::Terminal { reason }, round, last_height },
                    Action::Stop { reason },
                )
            },
            (Stage::Pausing, Event::Slept) => match pacing {
                Pacing::Height { .. } => (
                    State { pacing, limit, stage: Stage::AwaitingHeight, round, last_height },
                    Action::QueryHeight,
                ),
                Pacing::Time { .. } => (
                    State { pacing, limit, stage: Stage::Dispatching, round, last_height },
                    Action::Dispatch { round },
                ),
            },
            (Stage::Dispatching, Event::Dispatched) => {
                let cap = limit.rounds();
                if round >= cap - 1 {
                    let reason = StopReason::Completed;
                    (
                        State {
                            pacing,
                            limit,
                            stage: Stage::Terminal { reason },
                            round: cap,
                            last_height,
                        },
                        Action::Stop { reason },
                    )
                } else {
                    match pacing {
                        Pacing::Height { .. } => (
                            State {
                                pacing,
                                limit,
                                stage: Stage::AwaitingHeight,
                                round: round + 1,
                                last_height,
                            },
                            Action::QueryHeight,
                        ),
                        Pacing::Time { delay_millis } => (
                            State {
                                pacing,
                                limit,
                                stage: Stage::Pausing,
                                round: round + 1,
                                last_height,
                            },
                            Action::Sleep { millis: delay_millis },
                        ),
                    }
                }
            },
            _ => (state, Action::Ignored),
        }
    }

    /// The state that the scheduler is in.
    pub fn phase(&self) -> (r: Phase)
        ensures
            r == self@.stage.phase(),
    {
        match self.state.stage {
            Stage::Idle => Phase::Idle,
            Stage::AwaitingBaseline => Phase::WaitingForGate,
            Stage::AwaitingHeight => Phase::WaitingForGate,
            Stage::Pausing => Phase::WaitingForGate,
            Stage::Dispatching => Phase::Dispatching,
            Stage::Terminal { .. } => Phase::Terminal,
        }
    }

    /// The number of rounds whose dispatch has ended.
    pub fn rounds_completed(&self) -> (r: u64)
        ensures
            r == self@.round,
            r <= self@.limit.cap(),
    {
        proof {
            use_type_invariant(self);
        }
        self.state.round
    }

    /// The height at which a gate last opened.
    pub fn last_height(&self) -> (r: u64)
        ensures
            r == self@.last_height,
    {
        self.state.last_height
    }

    /// Why the run stopped, once it has.
    pub fn stop_reason(&self) -> (r: Option<StopReason>)
        ensures
            r == (match self@.stage {
                Stage::Terminal { reason } => Some(reason),
                _ => None,
            }),
    {
        match self.state.stage {
            Stage::Terminal { reason } => Some(reason),
            _ => None,
        }
    }
}

} // verus!
