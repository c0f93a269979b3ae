//! The execution engine: one benchmark case, from configuration to its
//! recorded measurement.

use vstd::prelude::*;
use crate::protocol::{text, Action, Event, EventView, Stage};
use crate::result::{BenchResult, BenchResultView};

verus! {

/// Where the engine stands.
#[derive(Clone, Copy, Debug, PartialEq, Eq, Structural)]
pub enum Phase {
    /// Nothing is registered.
    Idle,
    /// At least one procedure is registered; no run has started.
    Configured,
    /// Running: the prepare procedure has been handed out.
    Preparing,
    /// Running: waiting for the reading that opens the window.
    Opening,
    /// Running: the window is open and the measured procedure handed out.
    Measuring,
    /// Running: waiting for the reading that closes the window.
    Closing,
    /// Running: the verify procedure has been handed out.
    Verifying,
    /// The run is over and its result stands.
    Recorded,
    /// A procedure failed; the run is over and left no result.
    Failed,
}

/// One benchmark: an optional name and up to three procedures, of which the
/// measured one must be there before a run can start. The engine never calls
/// a procedure, so `P` can be any type the driver knows how to call.
pub struct BenchCase<P> {
    pub name: Option<String>,
    pub prepare: Option<P>,
    pub measured: Option<P>,
    pub verify: Option<P>,
}

/// The mathematical value of a [`BenchCase`].
pub struct CaseView<P> {
    pub name: Option<Seq<char>>,
    pub prepare: Option<P>,
    pub measured: Option<P>,
    pub verify: Option<P>,
}

impl<P> View for BenchCase<P> {
    type V = CaseView<P>;

    open spec fn view(&self) -> CaseView<P> {
        CaseView {
            name: text(self.name),
            prepare: self.prepare,
            measured: self.measured,
            verify: self.verify,
        }
    }
}

impl<P> CaseView<P> {
    /// The case with nothing in it.
    pub open spec fn empty() -> Self {
        CaseView { name: None, prepare: None, measured: None, verify: None }
    }

    /// The procedure registered for `stage`, if any.
    pub open spec fn procedure(self, stage: Stage) -> Option<P> {
        match stage {
            Stage::Prepare => self.prepare,
            Stage::Measured => self.measured,
            Stage::Verify => self.verify,
        }
    }

    /// Whether any of the three procedures is registered.
    pub open spec fn has_procedure(self) -> bool {
        self.prepare is Some || self.measured is Some || self.verify is Some
    }

    /// The name the case runs under: its own if it has one, else the
    /// identifier it was registered under.
    pub open spec fn resolved_name(self, identifier: Seq<char>) -> Seq<char> {
        match self.name {
            Some(n) => n,
            None => identifier,
        }
    }
}

/// The mathematical value of a [`Bencher`], and the transition system it
/// implements.
pub struct BencherView<P> {
    /// The case as configured so far.
    pub case: CaseView<P>,
    pub phase: Phase,
    /// The reading that opened the window.
    pub mark: u64,
    /// The units consumed between the two readings.
    pub measurement: u64,
    /// The message of the failure that ended the run.
    pub diagnostic: Option<Seq<char>>,
}

impl<P> BencherView<P> {
    /// The state of a new engine, and of any engine after `reset`.
    pub open spec fn initial() -> Self {
        BencherView {
            case: CaseView::empty(),
            phase: Phase::Idle,
            mark: 0,
            measurement: 0,
            diagnostic: None,
        }
    }

    /// No run has started: the case can still be changed.
    pub open spec fn configurable(self) -> bool {
        self.phase == Phase::Idle || self.phase == Phase::Configured
    }

    /// A run has started and has not ended.
    pub open spec fn running(self) -> bool {
        self.phase == Phase::Preparing || self.phase == Phase::Opening
            || self.phase == Phase::Measuring || self.phase == Phase::Closing
            || self.phase == Phase::Verifying
    }

    /// A run can start: none has yet, and the measured step is registered.
    pub open spec fn ready(self) -> bool {
        self.configurable() && self.case.measured is Some
    }

    /// After `name(n)`.
    pub open spec fn with_name(self, n: Seq<char>) -> Self {
        if self.configurable() {
            BencherView { case: CaseView { name: Some(n), ..self.case }, ..self }
        } else {
            self
        }
    }

    /// After `prepare(f)`, `bench(f)` or `verify(f)`, by `stage`.
    pub open spec fn with_procedure(self, stage: Stage, f: P) -> Self {
        if self.configurable() {
            let case = match stage {
                Stage::Prepare => CaseView { prepare: Some(f), ..self.case },
                Stage::Measured => CaseView { measured: Some(f), ..self.case },
                Stage::Verify => CaseView { verify: Some(f), ..self.case },
            };
            BencherView { case, phase: Phase::Configured, ..self }
        } else {
            self
        }
    }

    /// After the builder calls that leave exactly `case` registered.
    pub open spec fn configured_as(self, case: CaseView<P>) -> Self {
        if self.configurable() {
            let phase = if case.has_procedure() {
                Phase::Configured
            } else {
                self.phase
            };
            BencherView { case, phase, ..self }
        } else {
            self
        }
    }

    /// After `run(identifier)`, for a state that is `ready`.
    pub open spec fn started(self, identifier: Seq<char>) -> Self {
        BencherView {
            case: CaseView { name: Some(self.case.resolved_name(identifier)), ..self.case },
            phase: if self.case.prepare is Some {
                Phase::Preparing
            } else {
                Phase::Opening
            },
            ..self
        }
    }

    /// What the driver has to do next, once a run has started.
    pub open spec fn action(self) -> Option<Action> {
        match self.phase {
            Phase::Idle | Phase::Configured => None,
            Phase::Preparing => Some(Action::Invoke(Stage::Prepare)),
            Phase::Opening => Some(Action::Before),
            Phase::Measuring => Some(Action::Invoke(Stage::Measured)),
            Phase::Closing => Some(Action::After),
            Phase::Verifying => Some(Action::Invoke(Stage::Verify)),
            Phase::Recorded => Some(Action::Finished),
            Phase::Failed => Some(Action::Aborted),
        }
    }

    /// Whether `event` answers the pending action. A reading that closes the
    /// window answers it only if the counter has not gone backwards.
    pub open spec fn accepts(self, event: EventView) -> bool {
        match (self.phase, event) {
            (Phase::Preparing, EventView::Completed) => true,
            (Phase::Preparing, EventView::Failed(_)) => true,
            (Phase::Opening, EventView::Reading(_)) => true,
            (Phase::Measuring, EventView::Completed) => true,
            (Phase::Measuring, EventView::Failed(_)) => true,
            (Phase::Closing, EventView::Reading(reading)) => self.mark <= reading,
            (Phase::Verifying, EventView::Completed) => true,
            (Phase::Verifying, EventView::Failed(_)) => true,
            _ => false,
        }
    }

    /// After `before_block(reading)`: the window is open at `reading`.
    pub open spec fn opened(self, reading: u64) -> Self {
        BencherView { mark: reading, phase: Phase::Measuring, ..self }
    }

    /// After `after_block(reading)`: the window is closed and the
    /// measurement is what the counter advanced by while it was open.
    pub open spec fn closed(self, reading: u64) -> Self {
        BencherView {
            measurement: (reading - self.mark) as u64,
            phase: if self.case.verify is Some {
                Phase::Verifying
            } else {
                Phase::Recorded
            },
            ..self
        }
    }

    /// After `advance(event)`. An event that does not answer the pending
    /// action is no transition: it leaves the state as it is.
    pub open spec fn step(self, event: EventView) -> Self {
        if !self.accepts(event) {
            self
        } else {
            match event {
                EventView::Failed(message) => BencherView {
                    phase: Phase::Failed,
                    diagnostic: Some(message),
                    ..self
                },
                EventView::Reading(reading) => if self.phase == Phase::Opening {
                    self.opened(reading)
                } else {
                    self.closed(reading)
                },
                _ => match self.phase {
                    Phase::Preparing => BencherView { phase: Phase::Opening, ..self },
                    Phase::Measuring => BencherView { phase: Phase::Closing, ..self },
                    _ => BencherView { phase: Phase::Recorded, ..self },
                },
            }
        }
    }

    /// The record of the run, once it stands: the name that the run
    /// resolved at its start, and the measurement.
    pub open spec fn result(self) -> Option<BenchResultView> {
        if self.phase == Phase::Recorded {
            Some(
                BenchResultView {
                    name: match self.case.name {
                        Some(name) => name,
                        None => Seq::empty(),
                    },
                    value: self.measurement,
                },
            )
        } else {
            None
        }
    }
}

/// The engine. It owns the case being configured, takes it through one run
/// and holds the outcome until `reset`.
pub struct Bencher<P> {
    case: BenchCase<P>,
    phase: Phase,
    mark: u64,
    measurement: u64,
    diagnostic: Option<String>,
}

impl<P> View for Bencher<P> {
    type V = BencherView<P>;

    closed spec fn view(&self) -> BencherView<P> {
        BencherView {
            case: self.case@,
            phase: self.phase,
            mark: self.mark,
            measurement: self.measurement,
            diagnostic: text(self.diagnostic),
        }
    }
}

impl<P> Default for Bencher<P> {
    fn default() -> (b: Self)
        ensures
            b@ == BencherView::<P>::initial(),
    {
        Bencher::new()
    }
}

impl<P> Bencher<P> {
    /// An engine with nothing registered.
    pub fn new() -> (b: Self)
        ensures
            b@ == BencherView::<P>::initial(),
    {
        Bencher {
            case: BenchCase { name: None, prepare: None, measured: None, verify: None },
            phase: Phase::Idle,
            mark: 0,
            measurement: 0,
            diagnostic: None,
        }
    }

    /// Where the engine stands.
    pub fn phase(&self) -> (p: Phase)
        ensures
            p == self@.phase,
    {
        self.phase
    }

    /// The case as configured so far.
    pub fn case(&self) -> (c: &BenchCase<P>)
        ensures
            c@ == self@.case,
    {
        &self.case
    }

    /// The procedure registered for `stage`, for the driver to call.
    pub fn procedure(&self, stage: Stage) -> (f: Option<&P>)
        ensures
            f == match self@.case.procedure(stage) {
                Some(p) => Some(&p),
                None => None::<&P>,
            },
    {
        match stage {
            Stage::Prepare => self.case.prepare.as_ref(),
            Stage::Measured => self.case.measured.as_ref(),
            Stage::Verify => self.case.verify.as_ref(),
        }
    }

    /// What the driver has to do next, once a run has started.
    pub fn action(&self) -> (a: Option<Action>)
        ensures
            a == self@.action(),
    {
        match self.phase {
            Phase::Idle | Phase::Configured => None,
            Phase::Preparing => Some(Action::Invoke(Stage::Prepare)),
            Phase::Opening => Some(Action::Before),
            Phase::Measuring => Some(Action::Invoke(Stage::Measured)),
            Phase::Closing => Some(Action::After),
            Phase::Verifying => Some(Action::Invoke(Stage::Verify)),
            Phase::Recorded => Some(Action::Finished),
            Phase::Failed => Some(Action::Aborted),
        }
    }

    /// Whether the case can still be changed.
    pub fn is_configurable(&self) -> (b: bool)
        ensures
            b == self@.configurable(),
    {
        self.phase == Phase::Idle || self.phase == Phase::Configured
    }

    /// Whether a run can start.
    pub fn is_ready(&self) -> (b: bool)
        ensures
            b == self@.ready(),
    {
        self.is_configurable() && self.case.measured.is_some()
    }

    /// Sets the name the case will be recorded under. The last call before
    /// the run wins; once a run has started the call changes nothing.
    pub fn name(&mut self, n: &str) -> (ret: &mut Self)
        ensures
            ret@ == old(self)@.with_name(n@),
            *final(self) == *final(ret),
    {
        if self.is_configurable() {
            self.case.name = Some(n.to_owned());
        }
        self
    }

    /// Registers the procedure that runs once before the measurement window
    /// opens. Once a run has started the call changes nothing.
    pub fn prepare(&mut self, f: P) -> (ret: &mut Self)
        ensures
            ret@ == old(self)@.with_procedure(Stage::Prepare, f),
            *final(self) == *final(ret),
    {
        if self.is_configurable() {
            self.case.prepare = Some(f);
            self.phase = Phase::Configured;
        }
        self
    }

    /// Registers the procedure to be measured. Once a run has started the
    /// call changes nothing.
    pub fn bench(&mut self, f: P) -> (ret: &mut Self)
        ensures
            ret@ == old(self)@.with_procedure(Stage::Measured, f),
            *final(self) == *final(ret),
    {
        if self.is_configurable() {
            self.case.measured = Some(f);
            self.phase = Phase::Configured;
        }
        self
    }

    /// Registers the procedure that runs once after the measurement window
    /// closed. Once a run has started the call changes nothing.
    pub fn verify(&mut self, f: P) -> (ret: &mut Self)
        ensures
            ret@ == old(self)@.with_procedure(Stage::Verify, f),
            *final(self) == *final(ret),
    {
        if self.is_configurable() {
            self.case.verify = Some(f);
            self.phase = Phase::Configured;
        }
        self
    }

    /// Clears the name, the three registrations, the measurement and any
    /// failure: whatever the engine went through, it is as new.
    pub fn reset(&mut self)
        ensures
            final(self)@ == old(self)@.reset(),
    {
        self.case = BenchCase { name: None, prepare: None, measured: None, verify: None };
        self.phase = Phase::Idle;
        self.mark = 0;
        self.measurement = 0;
        self.diagnostic = None;
    }

    /// Starts the run. A case that was given no name takes `identifier`, the
    /// name its benchmark function was registered under. The result is the
    /// first thing for the driver to do: the prepare procedure if there is
    /// one, else the reading that opens the window.
    pub fn run(&mut self, identifier: &str) -> (action: Action)
        requires
            old(self)@.ready(),
        ensures
            final(self)@ == old(self)@.started(identifier@),
            Some(action) == final(self)@.action(),
    {
        if self.case.name.is_none() {
            self.case.name = Some(identifier.to_owned());
        }
        if self.case.prepare.is_some() {
            self.phase = Phase::Preparing;
            Action::Invoke(Stage::Prepare)
        } else {
            self.phase = Phase::Opening;
            Action::Before
        }
    }

    /// Whether `event` answers the pending action.
    pub fn accepts(&self, event: &Event) -> (b: bool)
        ensures
            b == self@.accepts(event@),
    {
        match event {
            Event::Configured => false,
            Event::Completed | Event::Failed(_) => {
                self.phase == Phase::Preparing || self.phase == Phase::Measuring
                    || self.phase == Phase::Verifying
            },
            Event::Reading(reading) => {
                self.phase == Phase::Opening || (self.phase == Phase::Closing && self.mark
                    <= *reading)
            },
        }
    }

    /// The hook in front of the measured step: opens the measurement window
    /// at `reading`, the meter's counter as read just now.
    pub fn before_block(&mut self, reading: u64) -> (action: Action)
        requires
            old(self)@.phase == Phase::Opening,
        ensures
            final(self)@ == old(self)@.opened(reading),
            action == Action::Invoke(Stage::Measured),
    {
        self.mark = reading;
        self.phase = Phase::Measuring;
        Action::Invoke(Stage::Measured)
    }

    /// The hook behind the measured step: closes the measurement window at
    /// `reading`. The measurement is `reading` less the reading that opened
    /// the window, so nothing consumed before or after the window counts.
    pub fn after_block(&mut self, reading: u64) -> (action: Action)
        requires
            old(self)@.phase == Phase::Closing,
            old(self)@.mark <= reading,
        ensures
            final(self)@ == old(self)@.closed(reading),
            Some(action) == final(self)@.action(),
    {
        self.measurement = reading - self.mark;
        if self.case.verify.is_some() {
            self.phase = Phase::Verifying;
            Action::Invoke(Stage::Verify)
        } else {
            self.phase = Phase::Recorded;
            Action::Finished
        }
    }

    /// Takes the run one step on: `event` is what came of the action the
    /// engine asked for last. A failure ends the run at once and leaves no
    /// result.
    pub fn advance(&mut self, event: Event) -> (action: Action)
        requires
            old(self)@.accepts(event@),
        ensures
            final(self)@ == old(self)@.step(event@),
            Some(action) == final(self)@.action(),
    {
        match event {
            Event::Failed(message) => {
                self.diagnostic = Some(message);
                self.phase = Phase::Failed;
                Action::Aborted
            },
            Event::Reading(reading) => {
                if self.phase == Phase::Opening {
                    self.before_block(reading)
                } else {
                    self.after_block(reading)
                }
            },
            _ => {
                if self.phase == Phase::Preparing {
                    self.phase = Phase::Opening;
                    Action::Before
                } else if self.phase == Phase::Measuring {
                    self.phase = Phase::Closing;
                    Action::After
                } else {
                    self.phase = Phase::Recorded;
                    Action::Finished
                }
            },
        }
    }

    /// The record of the run: there is one once the run has ended without a
    /// failure, and not before.
    pub fn result(&self) -> (r: Option<BenchResult>)
        ensures
            match r {
                Some(record) => self@.result() == Some(record@),
                None => self@.result() is None,
            },
    {
        if self.phase == Phase::Recorded {
            let name = match &self.case.name {
                Some(n) => n.clone(),
                None => String::new(),
            };
            Some(BenchResult { name, value: self.measurement })
        } else {
            None
        }
    }

    /// The message of the failure that ended the run, if one did.
    pub fn diagnostic(&self) -> (d: Option<String>)
        ensures
            text(d) == self@.diagnostic,
    {
        match &self.diagnostic {
            Some(message) => Some(message.clone()),
            None => None,
        }
    }
}

impl<P> BencherView<P> {
    /// After a window around one call: opened at `before`, and closed at
    /// `after` unless the counter went backwards, which leaves the window
    /// open and the engine waiting for a reading it can accept.
    pub open spec fn bracketed(self, before: u64, after: u64) -> Self {
        let called = self.opened(before).step(EventView::Completed);
        if before <= after {
            called.closed(after)
        } else {
            called
        }
    }
}

/// Brackets one call of `item` with the two hooks: reads the meter and opens
/// the window, calls `item`, reads the meter again and closes the window.
/// What `item` returns is handed on. The flag says whether the window was
/// closed: it is not when the second reading is below the first.
pub fn benchmarkable<P, R, F, M>(engine: &mut Bencher<P>, meter: &M, item: F) -> (out: (R, bool))
    where
        F: FnOnce() -> R,
        M: Fn() -> u64,
    requires
        old(engine)@.phase == Phase::Opening,
        call_requires(item, ()),
        call_requires(*meter, ()),
    ensures
        call_ensures(item, (), out.0),
        exists|before: u64, after: u64|
            {
                &&& #[trigger] call_ensures(*meter, (), before)
                &&& #[trigger] call_ensures(*meter, (), after)
                &&& final(engine)@ == old(engine)@.bracketed(before, after)
                &&& out.1 == (before <= after)
            },
{
    let before: u64 = meter();
    engine.before_block(before);
    let returned = item();
    engine.advance(Event::Completed);
    let after: u64 = meter();
    let closed = before <= after;
    if closed {
        engine.after_block(after);
    }
    (returned, closed)
}

/// How the procedures of one case behave when a driver calls them: what each
/// consumes, and which of them, if any, fails and with what message.
pub struct Conduct {
    pub prepare: nat,
    pub measured: nat,
    pub verify: nat,
    pub fault: Option<(Stage, Seq<char>)>,
}

impl Conduct {
    /// What the procedure for `stage` consumes.
    pub open spec fn cost(self, stage: Stage) -> nat {
        match stage {
            Stage::Prepare => self.prepare,
            Stage::Measured => self.measured,
            Stage::Verify => self.verify,
        }
    }

    /// What a driver reports after calling the procedure for `stage`.
    pub open spec fn outcome(self, stage: Stage) -> EventView {
        match self.fault {
            Some((s, message)) => if s == stage {
                EventView::Failed(message)
            } else {
                EventView::Completed
            },
            None => EventView::Completed,
        }
    }

    /// Whether every procedure that `case` registers returns normally.
    pub open spec fn faultless<P>(self, case: CaseView<P>) -> bool {
        match self.fault {
            Some((stage, _)) => case.procedure(stage) is None,
            None => true,
        }
    }

    /// What a whole run of `case` consumes when nothing fails.
    pub open spec fn total<P>(self, case: CaseView<P>) -> nat {
        (if case.prepare is Some {
            self.prepare
        } else {
            0
        }) + self.measured + (if case.verify is Some {
            self.verify
        } else {
            0
        })
    }
}

impl<P> BencherView<P> {
    /// After `reset`.
    pub open spec fn reset(self) -> Self {
        Self::initial()
    }

    /// The engine and the meter's counter after a faithful driver has
    /// carried out up to `fuel` actions: it calls the procedure the engine
    /// names, which advances the counter by what `conduct` says, and reports
    /// the counter whenever the engine asks for a reading.
    pub open spec fn drive(self, meter: nat, conduct: Conduct, fuel: nat) -> (Self, nat)
        decreases fuel,
    {
        if fuel == 0 {
            (self, meter)
        } else {
            match self.action() {
                Some(Action::Invoke(stage)) => self.step(conduct.outcome(stage)).drive(
                    meter + conduct.cost(stage),
                    conduct,
                    (fuel - 1) as nat,
                ),
                Some(Action::Before) | Some(Action::After) => self.step(
                    EventView::Reading(meter as u64),
                ).drive(meter, conduct, (fuel - 1) as nat),
                _ => (self, meter),
            }
        }
    }
}

/// A run that nothing fails in ends recorded, within five actions, under
/// the case's resolved name and with exactly what the measured step
/// consumed: what prepare and verify consume moves the counter, not the
/// measurement.
pub proof fn theorem_run_records_measured_cost<P>(
    b: BencherView<P>,
    identifier: Seq<char>,
    meter: nat,
    conduct: Conduct,
)
    requires
        b.ready(),
        conduct.faultless(b.case),
        meter + conduct.total(b.case) <= u64::MAX,
    ensures
        ({
            let (end, counter) = b.started(identifier).drive(meter, conduct, 5);
            &&& end.phase == Phase::Recorded
            &&& end.result() == Some(
                BenchResultView {
                    name: b.case.resolved_name(identifier),
                    value: conduct.measured as u64,
                },
            )
            &&& counter == meter + conduct.total(b.case)
        }),
{
    reveal_with_fuel(BencherView::drive, 6);
}

/// A case that `name` was never called for is recorded under the identifier
/// its benchmark function was registered with.
pub proof fn theorem_unnamed_case_takes_identifier<P>(
    b: BencherView<P>,
    identifier: Seq<char>,
    meter: nat,
    conduct: Conduct,
)
    requires
        b.ready(),
        b.case.name is None,
        conduct.faultless(b.case),
        meter + conduct.total(b.case) <= u64::MAX,
    ensures
        b.started(identifier).drive(meter, conduct, 5).0.result() is Some,
        b.started(identifier).drive(meter, conduct, 5).0.result()->0.name == identifier,
{
    theorem_run_records_measured_cost(b, identifier, meter, conduct);
}

/// A case that `name(n)` was called for is recorded as `n`, whatever the
/// identifier its benchmark function was registered with.
pub proof fn theorem_named_case_keeps_name<P>(
    b: BencherView<P>,
    n: Seq<char>,
    identifier: Seq<char>,
    meter: nat,
    conduct: Conduct,
)
    requires
        b.with_name(n).ready(),
        conduct.faultless(b.case),
        meter + conduct.total(b.case) <= u64::MAX,
    ensures
        b.with_name(n).started(identifier).drive(meter, conduct, 5).0.result() is Some,
        b.with_name(n).started(identifier).drive(meter, conduct, 5).0.result()->0.name == n,
{
    theorem_run_records_measured_cost(b.with_name(n), identifier, meter, conduct);
}

/// Once a run has started, nothing the driver reports changes the case, so
/// the name the run resolved is the name it is recorded under.
pub proof fn theorem_case_is_fixed_during_run<P>(b: BencherView<P>, event: EventView)
    ensures
        b.step(event).case == b.case,
        !b.configurable() ==> forall|n: Seq<char>| b.with_name(n) == b,
        !b.configurable() ==> forall|stage: Stage, f: P| b.with_procedure(stage, f) == b,
{
}

/// Whatever a case holds, builder calls on a new engine register exactly
/// that case: `name` if it has a name, then `prepare`, `bench` and `verify`
/// for the procedures it has.
pub proof fn theorem_builders_register_any_case<P>(case: CaseView<P>)
    ensures
        ({
            let new = BencherView::<P>::initial();
            let named = match case.name {
                Some(n) => new.with_name(n),
                None => new,
            };
            let prepared = match case.prepare {
                Some(f) => named.with_procedure(Stage::Prepare, f),
                None => named,
            };
            let benched = match case.measured {
                Some(f) => prepared.with_procedure(Stage::Measured, f),
                None => prepared,
            };
            let verified = match case.verify {
                Some(f) => benched.with_procedure(Stage::Verify, f),
                None => benched,
            };
            verified == new.configured_as(case)
        }),
{
}

/// A run that has started stays a run until it ends, and it ends either
/// recorded or failed: no report from the driver takes it back to where the
/// case could be changed, there is a result only where the run ended
/// recorded, and a failed run holds the message it failed with.
pub proof fn theorem_run_ends_recorded_or_failed<P>(b: BencherView<P>, event: EventView)
    requires
        b.running(),
    ensures
        ({
            let next = b.step(event);
            &&& next.running() || next.phase == Phase::Recorded || next.phase == Phase::Failed
            &&& next.result() is Some <==> next.phase == Phase::Recorded
            &&& next.phase == Phase::Failed ==> event is Failed && next.diagnostic == Some(
                event->Failed_0,
            )
        }),
{
}

/// Resetting gives the initial state whatever the engine went through, so
/// resetting twice, or any number of times, gives what resetting once does.
pub proof fn theorem_reset_is_idempotent<P>(b: BencherView<P>)
    ensures
        b.reset() == BencherView::<P>::initial(),
        b.reset().reset() == b.reset(),
{
}

/// Two cases through one engine, with a reset between them: what the second
/// is recorded with is what its own measured step consumed, whatever state
/// the first left the engine in and wherever it left the meter's counter.
pub proof fn theorem_reset_isolates_cases<P>(
    first: BencherView<P>,
    case: CaseView<P>,
    identifier: Seq<char>,
    meter: nat,
    conduct: Conduct,
)
    requires
        case.measured is Some,
        conduct.faultless(case),
        meter + conduct.total(case) <= u64::MAX,
    ensures
        ({
            let second = first.reset().configured_as(case).started(identifier);
            second.drive(meter, conduct, 5).0.result() == Some(
                BenchResultView {
                    name: case.resolved_name(identifier),
                    value: conduct.measured as u64,
                },
            )
        }),
{
    theorem_run_records_measured_cost(
        first.reset().configured_as(case),
        identifier,
        meter,
        conduct,
    );
}

/// A run in which a registered procedure fails ends failed, with that
/// procedure's message as the diagnostic and with no result: neither a
/// partial measurement nor a zero one.
pub proof fn theorem_failure_leaves_no_result<P>(
    b: BencherView<P>,
    identifier: Seq<char>,
    meter: nat,
    conduct: Conduct,
    stage: Stage,
    message: Seq<char>,
)
    requires
        b.ready(),
        conduct.fault == Some((stage, message)),
        b.case.procedure(stage) is Some,
        meter + conduct.total(b.case) <= u64::MAX,
    ensures
        ({
            let end = b.started(identifier).drive(meter, conduct, 5).0;
            &&& end.phase == Phase::Failed
            &&& end.diagnostic == Some(message)
            &&& end.result() is None
            &&& end.action() == Some(Action::Aborted)
        }),
{
    let start = b.started(identifier);
    let failed = conduct.outcome(stage);
    assert(failed == EventView::Failed(message));
    if stage == Stage::Prepare {
        assert(start.drive(meter, conduct, 5).0 == start.step(failed)) by {
            reveal_with_fuel(BencherView::drive, 2);
        }
    } else {
        let before = if b.case.prepare is Some {
            meter + conduct.prepare
        } else {
            meter
        };
        let opening = BencherView { phase: Phase::Opening, ..start };
        let measuring = opening.opened(before as u64);
        assert(opening.drive(before, conduct, 4).0 == measuring.drive(before, conduct, 3).0);
        if stage == Stage::Measured {
            assert(measuring.drive(before, conduct, 3).0 == measuring.step(failed)) by {
                reveal_with_fuel(BencherView::drive, 2);
            }
        } else {
            let after = before + conduct.measured;
            let closing = BencherView { phase: Phase::Closing, ..measuring };
            assert(measuring.drive(before, conduct, 3).0 == closing.drive(after, conduct, 2).0);
            let verifying = closing.closed(after as u64);
            assert(closing.drive(after, conduct, 2).0 == verifying.step(failed)) by {
                reveal_with_fuel(BencherView::drive, 3);
            }
        }
        if b.case.prepare is Some {
            assert(start.step(conduct.outcome(Stage::Prepare)) == opening);
        } else {
            lemma_drive_is_stable_when_over(opening, before, conduct, 4, 5);
        }
    }
}

/// More fuel changes nothing once the driver has nothing left to do.
proof fn lemma_drive_is_stable_when_over<P>(
    b: BencherView<P>,
    meter: nat,
    conduct: Conduct,
    enough: nat,
    more: nat,
)
    requires
        enough <= more,
        ({
            let end = b.drive(meter, conduct, enough).0;
            end.phase == Phase::Recorded || end.phase == Phase::Failed
        }),
    ensures
        b.drive(meter, conduct, more) == b.drive(meter, conduct, enough),
    decreases enough,
{
    if enough == 0 {
        reveal_with_fuel(BencherView::drive, 2);
    } else {
        match b.action() {
            Some(Action::Invoke(stage)) => {
                lemma_drive_is_stable_when_over(
                    b.step(conduct.outcome(stage)),
                    meter + conduct.cost(stage),
                    conduct,
                    (enough - 1) as nat,
                    (more - 1) as nat,
                );
            },
            Some(Action::Before) | Some(Action::After) => {
                lemma_drive_is_stable_when_over(
                    b.step(EventView::Reading(meter as u64)),
                    meter,
                    conduct,
                    (enough - 1) as nat,
                    (more - 1) as nat,
                );
            },
            _ => {},
        }
    }
}

} // verus!
