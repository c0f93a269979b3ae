//! The export bridge: every registered benchmark, in declaration order,
//! through one engine, into one list of results.

use vstd::prelude::*;
use crate::engine::{Bencher, BencherView, CaseView, Conduct, Phase};
use crate::protocol::{Action, Event, EventView, Failure, FailureView, Stage};
use crate::result::{views, BenchResult, BenchResultView};

verus! {

/// Where the bridge stands.
#[derive(Clone, Copy, Debug, PartialEq, Eq, Structural)]
pub enum Status {
    /// The engine is reset and waits for the current benchmark function to
    /// configure it.
    Configuring,
    /// The current case is running.
    Running,
    /// Every benchmark has been recorded.
    Finished,
    /// A failure ended the whole run.
    Aborted,
}

/// The views of a list of texts, in the same order.
pub open spec fn texts(list: Seq<String>) -> Seq<Seq<char>> {
    Seq::new(list.len(), |i: int| list[i]@)
}

/// The mathematical value of an [`Exporter`], and the transition system it
/// implements.
pub struct ExporterView<P> {
    /// The identifiers of the registered benchmark functions, in declaration
    /// order.
    pub identifiers: Seq<Seq<char>>,
    /// The position of the current benchmark; as many are recorded.
    pub cursor: nat,
    pub bencher: BencherView<P>,
    /// The results so far, in the order the cases ran.
    pub results: Seq<BenchResultView>,
    pub status: Status,
    /// Why the run was aborted.
    pub failure: Option<FailureView>,
}

impl<P> ExporterView<P> {
    /// The bridge before anything ran. With nothing registered it is
    /// finished at once.
    pub open spec fn initial(identifiers: Seq<Seq<char>>) -> Self {
        ExporterView {
            identifiers,
            cursor: 0,
            bencher: BencherView::initial(),
            results: Seq::empty(),
            status: if identifiers.len() == 0 {
                Status::Finished
            } else {
                Status::Configuring
            },
            failure: None,
        }
    }

    /// What holds of every bridge: one result for each benchmark before the
    /// current one, a current one as long as the run is not over, and a
    /// running engine while a case runs.
    pub open spec fn wf(self) -> bool {
        &&& self.identifiers.len() <= usize::MAX
        &&& self.cursor <= self.identifiers.len()
        &&& self.results.len() == self.cursor
        &&& self.status == Status::Configuring || self.status == Status::Running ==> self.cursor
            < self.identifiers.len()
        &&& self.status == Status::Finished ==> self.cursor == self.identifiers.len()
        &&& self.status == Status::Running ==> self.bencher.running()
        &&& self.status == Status::Aborted <==> self.failure is Some
    }

    /// What the driver has to do next.
    pub open spec fn pending(self) -> Action {
        match self.status {
            Status::Configuring => Action::Configure(self.cursor as usize),
            Status::Running => match self.bencher.action() {
                Some(action) => action,
                None => Action::Aborted,
            },
            Status::Finished => Action::Finished,
            Status::Aborted => Action::Aborted,
        }
    }

    /// Whether `event` answers the pending action.
    pub open spec fn accepts(self, event: EventView) -> bool {
        match self.status {
            Status::Configuring => event is Configured || event is Failed,
            Status::Running => self.bencher.accepts(event),
            _ => false,
        }
    }

    /// After the current case has been recorded as `record`: the result is
    /// appended, the engine is reset, and the next benchmark is current, or
    /// the run is finished if there is none.
    pub open spec fn recorded(self, record: BenchResultView) -> Self {
        ExporterView {
            cursor: self.cursor + 1,
            bencher: self.bencher.reset(),
            results: self.results.push(record),
            status: if self.cursor + 1 < self.identifiers.len() {
                Status::Configuring
            } else {
                Status::Finished
            },
            ..self
        }
    }

    /// After a failure: the run is over, and nothing was appended.
    pub open spec fn aborted(self, failure: FailureView) -> Self {
        ExporterView { status: Status::Aborted, failure: Some(failure), ..self }
    }

    /// After `advance(event)`. An event that does not answer the pending
    /// action is no transition: it leaves the state as it is.
    pub open spec fn step(self, event: EventView) -> Self {
        if !self.accepts(event) {
            self
        } else if self.status == Status::Configuring {
            match event {
                EventView::Failed(message) => self.aborted(FailureView::Guest(message)),
                _ => if self.bencher.ready() {
                    ExporterView {
                        status: Status::Running,
                        bencher: self.bencher.started(self.identifiers[self.cursor as int]),
                        ..self
                    }
                } else {
                    self.aborted(FailureView::Configuration)
                },
            }
        } else {
            let bencher = self.bencher.step(event);
            match event {
                EventView::Failed(message) => ExporterView { bencher, ..self }.aborted(
                    FailureView::Guest(message),
                ),
                _ => match bencher.result() {
                    Some(record) => ExporterView { bencher, ..self }.recorded(record),
                    None => ExporterView { bencher, ..self },
                },
            }
        }
    }

    /// What the bridge returns once the run is over: every result, or the
    /// failure and no result at all.
    pub open spec fn outcome(self) -> Option<Result<Seq<BenchResultView>, FailureView>> {
        match self.status {
            Status::Finished => Some(Ok(self.results)),
            Status::Aborted => match self.failure {
                Some(failure) => Some(Err(failure)),
                None => None,
            },
            _ => None,
        }
    }
}

/// The bridge. It owns the engine and the list of results for the length of
/// one run.
pub struct Exporter<P> {
    identifiers: Vec<String>,
    cursor: usize,
    bencher: Bencher<P>,
    results: Vec<BenchResult>,
    status: Status,
    failure: Option<Failure>,
}

impl<P> View for Exporter<P> {
    type V = ExporterView<P>;

    closed spec fn view(&self) -> ExporterView<P> {
        ExporterView {
            identifiers: texts(self.identifiers@),
            cursor: self.cursor as nat,
            bencher: self.bencher@,
            results: views(self.results@),
            status: self.status,
            failure: match self.failure {
                Some(failure) => Some(failure@),
                None => None,
            },
        }
    }
}

impl<P> Exporter<P> {
    /// A bridge for the benchmark functions registered under `identifiers`,
    /// in declaration order.
    pub fn new(identifiers: Vec<String>) -> (x: Self)
        ensures
            x@ == ExporterView::<P>::initial(texts(identifiers@)),
            x@.wf(),
    {
        let status = if identifiers.len() == 0 {
            Status::Finished
        } else {
            Status::Configuring
        };
        let x = Exporter {
            identifiers,
            cursor: 0,
            bencher: Bencher::new(),
            results: Vec::new(),
            status,
            failure: None,
        };
        assert(x@.results =~= Seq::empty());
        x
    }

    /// Where the bridge stands.
    pub fn status(&self) -> (s: Status)
        ensures
            s == self@.status,
    {
        self.status
    }

    /// The engine, for the driver to find the procedure to call.
    pub fn bencher(&self) -> (b: &Bencher<P>)
        ensures
            b@ == self@.bencher,
    {
        &self.bencher
    }

    /// The engine, for the current benchmark function to configure.
    pub fn bencher_mut(&mut self) -> (b: &mut Bencher<P>)
        requires
            old(self)@.status == Status::Configuring,
        ensures
            b@ == old(self)@.bencher,
            final(self)@ == (ExporterView { bencher: final(b)@, ..old(self)@ }),
            old(self)@.wf() ==> final(self)@.wf(),
    {
        &mut self.bencher
    }

    /// What the driver has to do next.
    pub fn pending(&self) -> (action: Action)
        ensures
            action == self@.pending(),
    {
        match self.status {
            Status::Configuring => Action::Configure(self.cursor),
            Status::Running => match self.bencher.action() {
                Some(action) => action,
                None => Action::Aborted,
            },
            Status::Finished => Action::Finished,
            Status::Aborted => Action::Aborted,
        }
    }

    /// Whether `event` answers the pending action.
    pub fn accepts(&self, event: &Event) -> (b: bool)
        ensures
            b == self@.accepts(event@),
    {
        match self.status {
            Status::Configuring => match event {
                Event::Configured | Event::Failed(_) => true,
                _ => false,
            },
            Status::Running => self.bencher.accepts(event),
            _ => false,
        }
    }

    /// Takes the run one step on: `event` is what came of the action the
    /// bridge asked for last.
    ///
    /// A benchmark function that leaves the engine without a measured step,
    /// and any failure, abort the whole run. A case that ends recorded has
    /// its result appended; then the engine is reset for the next benchmark.
    pub fn advance(&mut self, event: Event) -> (action: Action)
        requires
            old(self)@.wf(),
            old(self)@.accepts(event@),
        ensures
            final(self)@ == old(self)@.step(event@),
            final(self)@.wf(),
            action == final(self)@.pending(),
    {
        match self.status {
            Status::Configuring => {
                match event {
                    Event::Failed(message) => self.abort(Failure::Guest(message)),
                    _ => {
                        if self.bencher.is_ready() {
                            self.status = Status::Running;
                            self.bencher.run(self.identifiers[self.cursor].as_str())
                        } else {
                            self.abort(Failure::Configuration)
                        }
                    },
                }
            },
            _ => {
                match event {
                    Event::Failed(message) => {
                        let diagnostic = message.clone();
                        self.bencher.advance(Event::Failed(message));
                        self.abort(Failure::Guest(diagnostic))
                    },
                    other => {
                        let action = self.bencher.advance(other);
                        match self.bencher.result() {
                            Some(record) => self.record(record),
                            None => action,
                        }
                    },
                }
            },
        }
    }

    /// Ends the run with `failure`.
    fn abort(&mut self, failure: Failure) -> (action: Action)
        ensures
            final(self)@ == old(self)@.aborted(failure@),
            action == Action::Aborted,
    {
        self.failure = Some(failure);
        self.status = Status::Aborted;
        Action::Aborted
    }

    /// Appends the current case's result and moves to the next benchmark.
    fn record(&mut self, record: BenchResult) -> (action: Action)
        requires
            old(self)@.cursor < old(self)@.identifiers.len() <= usize::MAX,
            old(self)@.results.len() == old(self)@.cursor,
            old(self)@.failure is None,
        ensures
            final(self)@ == old(self)@.recorded(record@),
            final(self)@.wf(),
            action == final(self)@.pending(),
    {
        self.results.push(record);
        self.cursor = self.cursor + 1;
        self.bencher.reset();
        assert(views(self.results@) =~= views(old(self).results@).push(record@));
        if self.cursor < self.identifiers.len() {
            self.status = Status::Configuring;
            Action::Configure(self.cursor)
        } else {
            self.status = Status::Finished;
            Action::Finished
        }
    }

    /// The results recorded so far, in the order the cases ran.
    pub fn results(&self) -> (r: &Vec<BenchResult>)
        ensures
            views(r@) == self@.results,
    {
        &self.results
    }

    /// What the bridge returns: every result once the run has finished, the
    /// failure and nothing else once it was aborted, and nothing before.
    pub fn into_outcome(self) -> (r: Option<Result<Vec<BenchResult>, Failure>>)
        ensures
            match r {
                Some(Ok(results)) => self@.outcome() == Some(
                    Ok::<Seq<BenchResultView>, FailureView>(views(results@)),
                ),
                Some(Err(failure)) => self@.outcome() == Some(
                    Err::<Seq<BenchResultView>, FailureView>(failure@),
                ),
                None => self@.outcome() is None,
            },
    {
        match self.status {
            Status::Finished => Some(Ok(self.results)),
            Status::Aborted => match self.failure {
                Some(failure) => Some(Err(failure)),
                None => None,
            },
            _ => None,
        }
    }
}

/// What one benchmark function registers when it is handed the engine, and
/// how the procedures it registers behave.
pub struct Plan<P> {
    pub case: CaseView<P>,
    pub conduct: Conduct,
}

impl<P> Plan<P> {
    /// The benchmark runs to its end: it registers a measured step, and none
    /// of its procedures fails.
    pub open spec fn sound(self) -> bool {
        self.case.measured is Some && self.conduct.faultless(self.case)
    }

    /// What the benchmark is recorded as when it was registered under
    /// `identifier`.
    pub open spec fn record(self, identifier: Seq<char>) -> BenchResultView {
        BenchResultView {
            name: self.case.resolved_name(identifier),
            value: self.conduct.measured as u64,
        }
    }

    /// How many actions the bridge asks for to take the benchmark from
    /// configuration to its record.
    pub open spec fn actions(self) -> nat {
        4 + (if self.case.prepare is Some {
            1nat
        } else {
            0nat
        }) + (if self.case.verify is Some {
            1nat
        } else {
            0nat
        })
    }
}

/// What the first `count` benchmarks consume between them.
pub open spec fn consumption<P>(plans: Seq<Plan<P>>, count: nat) -> nat
    decreases count,
{
    if count == 0 {
        0
    } else {
        consumption(plans, (count - 1) as nat) + plans[count - 1].conduct.total(
            plans[count - 1].case,
        )
    }
}

/// How many actions the first `count` benchmarks take between them.
pub open spec fn actions<P>(plans: Seq<Plan<P>>, count: nat) -> nat
    decreases count,
{
    if count == 0 {
        0
    } else {
        actions(plans, (count - 1) as nat) + plans[count - 1].actions()
    }
}

/// What the first `count` benchmarks are recorded as, in declaration order.
pub open spec fn records<P>(
    identifiers: Seq<Seq<char>>,
    plans: Seq<Plan<P>>,
    count: nat,
) -> Seq<BenchResultView> {
    Seq::new(count, |i: int| plans[i].record(identifiers[i]))
}

impl<P> ExporterView<P> {
    /// After the current benchmark function has configured the engine as
    /// `plan` says.
    pub open spec fn configured_by(self, plan: Plan<P>) -> Self {
        ExporterView { bencher: self.bencher.configured_as(plan.case), ..self }
    }

    /// The bridge and the meter's counter after a faithful driver has
    /// carried out up to `fuel` actions: it lets each benchmark function
    /// configure the engine, calls the procedure the bridge names, which
    /// advances the counter by what the benchmark's plan says, and reports
    /// the counter whenever the bridge asks for a reading.
    pub open spec fn drive(self, meter: nat, plans: Seq<Plan<P>>, fuel: nat) -> (Self, nat)
        decreases fuel,
    {
        let plan = plans[self.cursor as int];
        if fuel == 0 {
            (self, meter)
        } else {
            match self.pending() {
                Action::Configure(_) => self.configured_by(plan).step(
                    EventView::Configured,
                ).drive(meter, plans, (fuel - 1) as nat),
                Action::Invoke(stage) => self.step(plan.conduct.outcome(stage)).drive(
                    meter + plan.conduct.cost(stage),
                    plans,
                    (fuel - 1) as nat,
                ),
                Action::Before | Action::After => self.step(
                    EventView::Reading(meter as u64),
                ).drive(meter, plans, (fuel - 1) as nat),
                Action::Finished | Action::Aborted => (self, meter),
            }
        }
    }

    /// The bridge between two benchmarks: `count` are recorded as their plans
    /// say, the engine is reset, and the next one is current, if there is
    /// one.
    pub open spec fn between(
        identifiers: Seq<Seq<char>>,
        plans: Seq<Plan<P>>,
        count: nat,
    ) -> Self {
        ExporterView {
            identifiers,
            cursor: count,
            bencher: BencherView::initial(),
            results: records(identifiers, plans, count),
            status: if count < identifiers.len() {
                Status::Configuring
            } else {
                Status::Finished
            },
            failure: None,
        }
    }
}

/// The list of results is append-only, and it grows by one exactly when the
/// bridge goes on to the next benchmark: whatever the driver reports, the
/// results afterwards are the results before, or those with one record at
/// their end.
pub proof fn theorem_results_are_append_only<P>(x: ExporterView<P>, event: EventView)
    ensures
        ({
            let next = x.step(event);
            if next.cursor == x.cursor {
                next.results == x.results
            } else {
                &&& next.cursor == x.cursor + 1
                &&& next.results.len() == x.results.len() + 1
                &&& next.results.drop_last() == x.results
            }
        }),
{
    let next = x.step(event);
    if next.cursor != x.cursor {
        assert(next.results.drop_last() =~= x.results);
    }
}

/// Every step keeps what holds of every bridge: there is one result for each
/// benchmark before the current one, no more and no less.
pub proof fn theorem_step_keeps_the_bridge_well_formed<P>(x: ExporterView<P>, event: EventView)
    requires
        x.wf(),
    ensures
        x.step(event).wf(),
        ExporterView::<P>::initial(x.identifiers).wf(),
{
}

/// Driving for `a + b` actions is driving for `a` and then for `b`.
proof fn lemma_drive_splits<P>(
    x: ExporterView<P>,
    meter: nat,
    plans: Seq<Plan<P>>,
    a: nat,
    b: nat,
)
    ensures
        x.drive(meter, plans, a + b) == ({
            let (y, counter) = x.drive(meter, plans, a);
            y.drive(counter, plans, b)
        }),
    decreases a,
{
    if a > 0 {
        let plan = plans[x.cursor as int];
        let rest = (a - 1) as nat;
        assert((a + b - 1) as nat == rest + b);
        match x.pending() {
            Action::Configure(_) => {
                lemma_drive_splits(
                    x.configured_by(plan).step(EventView::Configured),
                    meter,
                    plans,
                    rest,
                    b,
                );
            },
            Action::Invoke(stage) => {
                lemma_drive_splits(
                    x.step(plan.conduct.outcome(stage)),
                    meter + plan.conduct.cost(stage),
                    plans,
                    rest,
                    b,
                );
            },
            Action::Before | Action::After => {
                lemma_drive_splits(
                    x.step(EventView::Reading(meter as u64)),
                    meter,
                    plans,
                    rest,
                    b,
                );
            },
            Action::Finished | Action::Aborted => {},
        }
    }
}

/// From the opening of the window on, a sound benchmark takes three or four
/// actions to its record, and the record holds what the measured step
/// consumed.
proof fn lemma_window_records<P>(x: ExporterView<P>, meter: nat, plans: Seq<Plan<P>>)
    requires
        x.status == Status::Running,
        x.cursor < plans.len(),
        x.bencher.phase == Phase::Opening,
        x.bencher.case.measured is Some,
        x.bencher.case.name is Some,
        x.bencher.case.verify is Some == plans[x.cursor as int].case.verify is Some,
        plans[x.cursor as int].conduct.faultless(x.bencher.case),
        meter + plans[x.cursor as int].conduct.measured <= u64::MAX,
    ensures
        ({
            let plan = plans[x.cursor as int];
            let fuel = (plan.actions() - 1 - if plan.case.prepare is Some {
                1nat
            } else {
                0nat
            }) as nat;
            let verify = if plan.case.verify is Some {
                plan.conduct.verify
            } else {
                0
            };
            x.drive(meter, plans, fuel) == (
                x.recorded(
                    BenchResultView {
                        name: x.bencher.case.name->0,
                        value: plan.conduct.measured as u64,
                    },
                ),
                meter + plan.conduct.measured + verify,
            )
        }),
{
    let plan = plans[x.cursor as int];
    let conduct = plan.conduct;
    let after = meter + conduct.measured;
    let record = BenchResultView {
        name: x.bencher.case.name->0,
        value: conduct.measured as u64,
    };
    let measuring = ExporterView { bencher: x.bencher.opened(meter as u64), ..x };
    let closing = ExporterView {
        bencher: BencherView { phase: Phase::Closing, ..measuring.bencher },
        ..x
    };
    assert(x.step(EventView::Reading(meter as u64)) == measuring);
    assert(conduct.outcome(Stage::Measured) == EventView::Completed);
    assert(measuring.step(EventView::Completed) == closing);
    let closed = closing.bencher.closed(after as u64);
    assert(closed.measurement == conduct.measured as u64);
    if plan.case.verify is Some {
        let verifying = ExporterView { bencher: closed, ..x };
        assert(closing.step(EventView::Reading(after as u64)) == verifying);
        assert(conduct.outcome(Stage::Verify) == EventView::Completed);
        let done = BencherView { phase: Phase::Recorded, ..closed };
        assert(verifying.bencher.step(EventView::Completed) == done);
        assert(done.result() == Some(record));
        assert(verifying.step(EventView::Completed) == x.recorded(record));
        assert(x.drive(meter, plans, 4) == measuring.drive(meter, plans, 3));
        assert(measuring.drive(meter, plans, 3) == closing.drive(after, plans, 2));
        assert(closing.drive(after, plans, 2) == verifying.drive(after, plans, 1));
        assert(verifying.drive(after, plans, 1) == x.recorded(record).drive(
            after + conduct.verify,
            plans,
            0,
        ));
    } else {
        assert(closed.result() == Some(record));
        assert(closing.step(EventView::Reading(after as u64)) == x.recorded(record));
        assert(x.drive(meter, plans, 3) == measuring.drive(meter, plans, 2));
        assert(measuring.drive(meter, plans, 2) == closing.drive(after, plans, 1));
        assert(closing.drive(after, plans, 1) == x.recorded(record).drive(after, plans, 0));
    }
}

/// A sound benchmark, from the reset engine to its record: the bridge ends
/// between this benchmark and the next, and the counter has advanced by what
/// the benchmark consumed.
proof fn lemma_case_records<P>(
    identifiers: Seq<Seq<char>>,
    plans: Seq<Plan<P>>,
    count: nat,
    meter: nat,
)
    requires
        identifiers.len() == plans.len(),
        count < plans.len(),
        plans[count as int].sound(),
        meter + plans[count as int].conduct.total(plans[count as int].case) <= u64::MAX,
    ensures
        ExporterView::between(identifiers, plans, count).drive(
            meter,
            plans,
            plans[count as int].actions(),
        ) == (
            ExporterView::between(identifiers, plans, count + 1),
            meter + plans[count as int].conduct.total(plans[count as int].case),
        ),
{
    let x = ExporterView::between(identifiers, plans, count);
    let plan = plans[count as int];
    let conduct = plan.conduct;
    let configured = x.configured_by(plan);
    assert(configured.bencher.ready());
    let running = configured.step(EventView::Configured);
    assert(running.status == Status::Running);
    assert(x.drive(meter, plans, plan.actions()) == running.drive(
        meter,
        plans,
        (plan.actions() - 1) as nat,
    ));
    let record = plan.record(identifiers[count as int]);
    let opening = ExporterView {
        bencher: BencherView { phase: Phase::Opening, ..running.bencher },
        ..running
    };
    if plan.case.prepare is Some {
        assert(conduct.outcome(Stage::Prepare) == EventView::Completed);
        assert(running.step(EventView::Completed) == opening);
        assert(running.drive(meter, plans, (plan.actions() - 1) as nat) == opening.drive(
            meter + conduct.prepare,
            plans,
            (plan.actions() - 2) as nat,
        ));
        lemma_window_records(opening, meter + conduct.prepare, plans);
    } else {
        assert(running == opening);
        lemma_window_records(opening, meter, plans);
    }
    assert(opening.recorded(record) == ExporterView::between(identifiers, plans, count + 1)) by {
        assert(records(identifiers, plans, count).push(record) =~= records(
            identifiers,
            plans,
            count + 1,
        ));
    }
}

/// As long as every benchmark so far is sound, the bridge gets from the
/// start to between any two benchmarks.
proof fn lemma_cases_record<P>(
    identifiers: Seq<Seq<char>>,
    plans: Seq<Plan<P>>,
    count: nat,
    meter: nat,
)
    requires
        identifiers.len() == plans.len(),
        count <= plans.len(),
        forall|i: int| 0 <= i < count ==> (#[trigger] plans[i]).sound(),
        meter + consumption(plans, count) <= u64::MAX,
    ensures
        ExporterView::initial(identifiers).drive(meter, plans, actions(plans, count)) == (
            ExporterView::between(identifiers, plans, count),
            meter + consumption(plans, count),
        ),
    decreases count,
{
    let start = ExporterView::<P>::initial(identifiers);
    if count == 0 {
        assert(records(identifiers, plans, 0) =~= Seq::empty());
        assert(start == ExporterView::between(identifiers, plans, 0));
    } else {
        let before = (count - 1) as nat;
        lemma_cases_record(identifiers, plans, before, meter);
        lemma_drive_splits(start, meter, plans, actions(plans, before), plans[before as int].actions());
        lemma_case_records(identifiers, plans, before, meter + consumption(plans, before));
    }
}

/// Each benchmark takes at most six actions.
proof fn lemma_actions_are_bounded<P>(plans: Seq<Plan<P>>, count: nat)
    ensures
        actions(plans, count) <= 6 * count,
    decreases count,
{
    if count > 0 {
        lemma_actions_are_bounded(plans, (count - 1) as nat);
    }
}

/// However many benchmark functions are registered, if each registers a
/// measured step and none of their procedures fails, the bridge returns
/// exactly one result for each, in declaration order: the result at a
/// position is that of the benchmark declared at that position, under its
/// resolved name and with what its own measured step consumed. Six actions
/// for each benchmark are enough to get there.
pub proof fn theorem_export_returns_every_case_in_order<P>(
    identifiers: Seq<Seq<char>>,
    plans: Seq<Plan<P>>,
    meter: nat,
    fuel: nat,
)
    requires
        identifiers.len() == plans.len(),
        forall|i: int| 0 <= i < plans.len() ==> (#[trigger] plans[i]).sound(),
        meter + consumption(plans, plans.len()) <= u64::MAX,
        fuel >= 6 * plans.len(),
    ensures
        ({
            let (end, counter) = ExporterView::initial(identifiers).drive(meter, plans, fuel);
            &&& end.outcome() == Some(
                Ok::<Seq<BenchResultView>, FailureView>(
                    records(identifiers, plans, plans.len()),
                ),
            )
            &&& end.results.len() == plans.len()
            &&& forall|i: int|
                0 <= i < plans.len() ==> end.results[i] == plans[i].record(identifiers[i])
            &&& counter == meter + consumption(plans, plans.len())
        }),
{
    let start = ExporterView::<P>::initial(identifiers);
    let enough = actions(plans, plans.len());
    lemma_cases_record(identifiers, plans, plans.len(), meter);
    lemma_actions_are_bounded(plans, plans.len());
    lemma_drive_splits(start, meter, plans, enough, (fuel - enough) as nat);
    assert(enough + (fuel - enough) as nat == fuel);
}

/// If the benchmark at some position fails in a procedure it registered, and
/// every benchmark before it is sound, the run is aborted with that
/// procedure's message: the bridge returns the failure and no result, and
/// nothing was appended for the failed case.
pub proof fn theorem_failure_aborts_export<P>(
    identifiers: Seq<Seq<char>>,
    plans: Seq<Plan<P>>,
    position: nat,
    stage: Stage,
    message: Seq<char>,
    meter: nat,
    fuel: nat,
)
    requires
        identifiers.len() == plans.len(),
        position < plans.len(),
        forall|i: int| 0 <= i < position ==> (#[trigger] plans[i]).sound(),
        plans[position as int].case.measured is Some,
        plans[position as int].case.procedure(stage) is Some,
        plans[position as int].conduct.fault == Some((stage, message)),
        meter + consumption(plans, position + 1) <= u64::MAX,
        fuel >= 6 * (position + 1),
    ensures
        ({
            let end = ExporterView::initial(identifiers).drive(meter, plans, fuel).0;
            &&& end.status == Status::Aborted
            &&& end.outcome() == Some(
                Err::<Seq<BenchResultView>, FailureView>(FailureView::Guest(message)),
            )
            &&& end.results == records(identifiers, plans, position)
        }),
{
    let start = ExporterView::<P>::initial(identifiers);
    let done = actions(plans, position);
    let counter = meter + consumption(plans, position);
    lemma_cases_record(identifiers, plans, position, meter);
    lemma_actions_are_bounded(plans, position);
    lemma_drive_splits(start, meter, plans, done, (fuel - done) as nat);
    assert(done + (fuel - done) as nat == fuel);
    let x = ExporterView::between(identifiers, plans, position);
    lemma_case_aborts(x, plans, stage, message, counter, (fuel - done) as nat);
}

/// If the benchmark at some position registers no measured step, and every
/// benchmark before it is sound, the run is aborted as a configuration
/// error the moment that benchmark is to start: none of its procedures is
/// called, the bridge returns the failure and no result.
pub proof fn theorem_missing_measured_step_aborts_export<P>(
    identifiers: Seq<Seq<char>>,
    plans: Seq<Plan<P>>,
    position: nat,
    meter: nat,
    fuel: nat,
)
    requires
        identifiers.len() == plans.len(),
        position < plans.len(),
        forall|i: int| 0 <= i < position ==> (#[trigger] plans[i]).sound(),
        plans[position as int].case.measured is None,
        meter + consumption(plans, position) <= u64::MAX,
        fuel > 6 * position,
    ensures
        ({
            let (end, counter) = ExporterView::initial(identifiers).drive(meter, plans, fuel);
            &&& end.status == Status::Aborted
            &&& end.outcome() == Some(
                Err::<Seq<BenchResultView>, FailureView>(FailureView::Configuration),
            )
            &&& end.results == records(identifiers, plans, position)
            &&& counter == meter + consumption(plans, position)
        }),
{
    let start = ExporterView::<P>::initial(identifiers);
    let done = actions(plans, position);
    let counter = meter + consumption(plans, position);
    lemma_cases_record(identifiers, plans, position, meter);
    lemma_actions_are_bounded(plans, position);
    lemma_drive_splits(start, meter, plans, done, (fuel - done) as nat);
    assert(done + (fuel - done) as nat == fuel);
    let x = ExporterView::between(identifiers, plans, position);
    let left = (fuel - done) as nat;
    let end = x.configured_by(plans[position as int]).step(EventView::Configured);
    assert(end.status == Status::Aborted);
    assert(x.drive(counter, plans, left) == end.drive(counter, plans, (left - 1) as nat));
    assert(end.drive(counter, plans, (left - 1) as nat) == (end, counter));
}

/// A benchmark that fails in a registered procedure aborts the run within
/// six actions, and leaves the list of results as it was.
proof fn lemma_case_aborts<P>(
    x: ExporterView<P>,
    plans: Seq<Plan<P>>,
    stage: Stage,
    message: Seq<char>,
    meter: nat,
    fuel: nat,
)
    requires
        x.status == Status::Configuring,
        x.cursor < plans.len(),
        x.cursor < x.identifiers.len(),
        x.bencher == BencherView::<P>::initial(),
        plans[x.cursor as int].case.measured is Some,
        plans[x.cursor as int].case.procedure(stage) is Some,
        plans[x.cursor as int].conduct.fault == Some((stage, message)),
        meter + plans[x.cursor as int].conduct.total(plans[x.cursor as int].case) <= u64::MAX,
        fuel >= 6,
    ensures
        ({
            let end = x.drive(meter, plans, fuel).0;
            &&& end.status == Status::Aborted
            &&& end.failure == Some(FailureView::Guest(message))
            &&& end.results == x.results
        }),
{
    let plan = plans[x.cursor as int];
    let conduct = plan.conduct;
    let failed = EventView::Failed(message);
    assert(conduct.outcome(stage) == failed);
    let configured = x.configured_by(plan);
    assert(configured.bencher.ready());
    let running = configured.step(EventView::Configured);
    assert(x.drive(meter, plans, fuel) == running.drive(meter, plans, (fuel - 1) as nat));
    if stage == Stage::Prepare {
        let end = running.step(failed);
        assert(end.status == Status::Aborted);
        assert(running.drive(meter, plans, (fuel - 1) as nat) == end.drive(
            meter + conduct.prepare,
            plans,
            (fuel - 2) as nat,
        ));
        assert(end.drive(meter + conduct.prepare, plans, (fuel - 2) as nat).0 == end);
    } else {
        let opening = ExporterView {
            bencher: BencherView { phase: Phase::Opening, ..running.bencher },
            ..running
        };
        let before = if plan.case.prepare is Some {
            meter + conduct.prepare
        } else {
            meter
        };
        let left = if plan.case.prepare is Some {
            (fuel - 2) as nat
        } else {
            (fuel - 1) as nat
        };
        if plan.case.prepare is Some {
            assert(conduct.outcome(Stage::Prepare) == EventView::Completed);
            assert(running.step(EventView::Completed) == opening);
            assert(running.drive(meter, plans, (fuel - 1) as nat) == opening.drive(
                before,
                plans,
                left,
            ));
        } else {
            assert(running == opening);
        }
        let measuring = ExporterView { bencher: opening.bencher.opened(before as u64), ..opening };
        assert(opening.step(EventView::Reading(before as u64)) == measuring);
        assert(opening.drive(before, plans, left) == measuring.drive(
            before,
            plans,
            (left - 1) as nat,
        ));
        let after = before + conduct.measured;
        if stage == Stage::Measured {
            let end = measuring.step(failed);
            assert(end.status == Status::Aborted);
            assert(measuring.drive(before, plans, (left - 1) as nat) == end.drive(
                after,
                plans,
                (left - 2) as nat,
            ));
            assert(end.drive(after, plans, (left - 2) as nat).0 == end);
        } else {
            let closing = ExporterView {
                bencher: BencherView { phase: Phase::Closing, ..measuring.bencher },
                ..opening
            };
            assert(conduct.outcome(Stage::Measured) == EventView::Completed);
            assert(measuring.step(EventView::Completed) == closing);
            assert(measuring.drive(before, plans, (left - 1) as nat) == closing.drive(
                after,
                plans,
                (left - 2) as nat,
            ));
            let verifying = ExporterView {
                bencher: closing.bencher.closed(after as u64),
                ..opening
            };
            assert(closing.step(EventView::Reading(after as u64)) == verifying);
            assert(closing.drive(after, plans, (left - 2) as nat) == verifying.drive(
                after,
                plans,
                (left - 3) as nat,
            ));
            let end = verifying.step(failed);
            assert(end.status == Status::Aborted);
            assert(verifying.drive(after, plans, (left - 3) as nat) == end.drive(
                after + conduct.verify,
                plans,
                (left - 4) as nat,
            ));
            assert(end.drive(after + conduct.verify, plans, (left - 4) as nat).0 == end);
        }
    }
}

} // verus!
