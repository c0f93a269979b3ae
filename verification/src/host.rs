//! The host side: build the guest, invoke its export entry point, decode
//! what it handed back, pair the results with the caller's metadata.
//!
//! The driver here decides; it does not build or invoke. It names the next
//! thing to do as a [`HostAction`] and is told what came of it as a
//! [`HostEvent`].

use vstd::prelude::*;
use crate::result::{views, BenchResult, BenchResultView};
use crate::wire::{decode, parse_response, Response, ResponseView};

verus! {

/// The diagnostic of an execution error whose cause is a response that is
/// not in the wire format.
pub const MALFORMED_RESPONSE: &'static str = "the guest returned a malformed response";

/// One entry of the caller's metadata: a name to pair results by, and
/// whatever the caller wants reported with them.
#[derive(Clone, Debug, PartialEq, Eq)]
pub struct Descriptor<D> {
    pub name: String,
    pub detail: D,
}

/// The mathematical value of a [`Descriptor`].
pub struct DescriptorView<D> {
    pub name: Seq<char>,
    pub detail: D,
}

impl<D> View for Descriptor<D> {
    type V = DescriptorView<D>;

    open spec fn view(&self) -> DescriptorView<D> {
        DescriptorView { name: self.name@, detail: self.detail }
    }
}

/// The views of a list of descriptors, in the same order.
pub open spec fn descriptors<D>(list: Seq<Descriptor<D>>) -> Seq<DescriptorView<D>> {
    Seq::new(list.len(), |i: int| list[i]@)
}

/// The results of a run beside the caller's metadata.
#[derive(Clone, Debug, PartialEq, Eq)]
pub struct Report<D> {
    /// The results, in the order the guest returned them.
    pub results: Vec<BenchResult>,
    /// The metadata, as the caller supplied it.
    pub metadata: Vec<Descriptor<D>>,
    /// For each result, the position in `metadata` of the descriptor it is
    /// paired with, if there is one.
    pub pairing: Vec<Option<usize>>,
    /// The positions in `metadata`, ascending, of the descriptors that no
    /// result is paired by name with.
    pub unmatched: Vec<usize>,
}

/// The mathematical value of a [`Report`].
pub struct ReportView<D> {
    pub results: Seq<BenchResultView>,
    pub metadata: Seq<DescriptorView<D>>,
    pub pairing: Seq<Option<usize>>,
    pub unmatched: Seq<usize>,
}

impl<D> View for Report<D> {
    type V = ReportView<D>;

    open spec fn view(&self) -> ReportView<D> {
        ReportView {
            results: views(self.results@),
            metadata: descriptors(self.metadata@),
            pairing: self.pairing@,
            unmatched: self.unmatched@,
        }
    }
}

/// The first position at or after `from` of a descriptor named `name`.
pub open spec fn first_match<D>(
    metadata: Seq<DescriptorView<D>>,
    name: Seq<char>,
    from: nat,
) -> Option<usize>
    decreases metadata.len() - from,
{
    if from >= metadata.len() {
        None
    } else if metadata[from as int].name == name {
        Some(from as usize)
    } else {
        first_match(metadata, name, from + 1)
    }
}

/// Whether one of the first `upto` results is named `name`.
pub open spec fn is_named(results: Seq<BenchResultView>, name: Seq<char>, upto: nat) -> bool {
    exists|i: int| 0 <= i < upto && i < results.len() && (#[trigger] results[i]).name == name
}

/// The positions below `upto`, ascending, of the descriptors whose name no
/// result has.
pub open spec fn unmatched<D>(
    results: Seq<BenchResultView>,
    metadata: Seq<DescriptorView<D>>,
    upto: nat,
) -> Seq<usize>
    decreases upto,
{
    if upto == 0 {
        Seq::empty()
    } else {
        let before = unmatched(results, metadata, (upto - 1) as nat);
        if is_named(results, metadata[upto - 1].name, results.len()) {
            before
        } else {
            before.push((upto - 1) as usize)
        }
    }
}

/// The report on `results` and `metadata`: every result in its place,
/// paired with the first descriptor of its name if there is one, and every
/// descriptor kept, those that no result has the name of listed apart.
pub open spec fn merged<D>(
    results: Seq<BenchResultView>,
    metadata: Seq<DescriptorView<D>>,
) -> ReportView<D> {
    ReportView {
        results,
        metadata,
        pairing: Seq::new(results.len(), |i: int| first_match(metadata, results[i].name, 0)),
        unmatched: unmatched(results, metadata, metadata.len()),
    }
}

/// The position of the first descriptor named `name`.
fn find<D>(metadata: &Vec<Descriptor<D>>, name: &String) -> (found: Option<usize>)
    ensures
        found == first_match(descriptors(metadata@), name@, 0),
{
    let ghost all = descriptors(metadata@);
    let mut j: usize = 0;
    while j < metadata.len()
        invariant
            j <= metadata.len(),
            all == descriptors(metadata@),
            first_match(all, name@, 0) == first_match(all, name@, j as nat),
        decreases metadata.len() - j,
    {
        if metadata[j].name == *name {
            return Some(j);
        }
        j = j + 1;
    }
    None
}

/// Whether a result is named `name`.
fn names(results: &Vec<BenchResult>, name: &String) -> (found: bool)
    ensures
        found == is_named(views(results@), name@, results@.len()),
{
    let ghost all = views(results@);
    let mut i: usize = 0;
    while i < results.len()
        invariant
            i <= results.len(),
            all == views(results@),
            !is_named(all, name@, i as nat),
        decreases results.len() - i,
    {
        if results[i].name == *name {
            assert(all[i as int].name == name@);
            return true;
        }
        i = i + 1;
    }
    false
}

/// Pairs each result with the first descriptor of its name, and lists the
/// descriptors whose name no result has. Nothing is dropped and nothing is
/// reordered.
pub fn merge<D>(results: Vec<BenchResult>, metadata: Vec<Descriptor<D>>) -> (report: Report<D>)
    ensures
        report@ == merged(views(results@), descriptors(metadata@)),
{
    let ghost rs = views(results@);
    let ghost ds = descriptors(metadata@);
    let mut pairing: Vec<Option<usize>> = Vec::new();
    let mut i: usize = 0;
    while i < results.len()
        invariant
            i <= results.len(),
            rs == views(results@),
            ds == descriptors(metadata@),
            pairing@ == Seq::new(i as nat, |k: int| first_match(ds, rs[k].name, 0)),
        decreases results.len() - i,
    {
        let found = find(&metadata, &results[i].name);
        pairing.push(found);
        i = i + 1;
        assert(pairing@ =~= Seq::new(i as nat, |k: int| first_match(ds, rs[k].name, 0)));
    }
    let mut rest: Vec<usize> = Vec::new();
    let mut j: usize = 0;
    while j < metadata.len()
        invariant
            j <= metadata.len(),
            rs == views(results@),
            ds == descriptors(metadata@),
            rest@ == unmatched(rs, ds, j as nat),
        decreases metadata.len() - j,
    {
        if !names(&results, &metadata[j].name) {
            rest.push(j);
        }
        j = j + 1;
    }
    Report { results, metadata, pairing, unmatched: rest }
}

/// Where the host driver stands.
#[derive(Clone, Copy, Debug, PartialEq, Eq, Structural)]
pub enum HostPhase {
    /// The guest artifact is being built.
    Building,
    /// The artifact is built and the guest's entry point is being invoked.
    Invoking,
    /// The run is over: there is a report, or an error.
    Done,
}

/// What the host has to do next.
#[derive(Clone, Copy, Debug, PartialEq, Eq, Structural)]
pub enum HostAction {
    /// Build the guest artifact, then report `Built` or `BuildFailed`.
    Build,
    /// Instantiate the guest and call its export entry point, then report
    /// `Returned` with the bytes it handed back, or `InvokeFailed`.
    Invoke,
    /// Nothing is left to do; the outcome can be collected.
    Finished,
}

/// What the host reports back.
#[derive(Clone, Debug, PartialEq, Eq)]
pub enum HostEvent {
    /// The artifact is there.
    Built,
    /// The artifact could not be produced; the text says why.
    BuildFailed(String),
    /// The guest handed back these bytes: the response of its entry point,
    /// or the one its panic bridge sent before the guest terminated.
    Returned(Vec<u8>),
    /// The guest could not be instantiated or called, or ended without a
    /// response; the text is the underlying cause.
    InvokeFailed(String),
}

/// The mathematical value of a [`HostEvent`].
pub enum HostEventView {
    Built,
    BuildFailed(Seq<char>),
    Returned(Seq<u8>),
    InvokeFailed(Seq<char>),
}

impl View for HostEvent {
    type V = HostEventView;

    open spec fn view(&self) -> HostEventView {
        match *self {
            HostEvent::Built => HostEventView::Built,
            HostEvent::BuildFailed(cause) => HostEventView::BuildFailed(cause@),
            HostEvent::Returned(bytes) => HostEventView::Returned(bytes@),
            HostEvent::InvokeFailed(cause) => HostEventView::InvokeFailed(cause@),
        }
    }
}

/// Why a run gave no report.
#[derive(Clone, Debug, PartialEq, Eq)]
pub enum HostError {
    /// The guest artifact could not be built; nothing was invoked.
    Build(String),
    /// The guest could not be run to its end: it could not be invoked, it
    /// failed and sent its diagnostic, or what it handed back was malformed.
    Execution(String),
}

/// The mathematical value of a [`HostError`].
pub enum HostErrorView {
    Build(Seq<char>),
    Execution(Seq<char>),
}

impl View for HostError {
    type V = HostErrorView;

    open spec fn view(&self) -> HostErrorView {
        match *self {
            HostError::Build(cause) => HostErrorView::Build(cause@),
            HostError::Execution(cause) => HostErrorView::Execution(cause@),
        }
    }
}

/// What the guest's bytes mean to the host: a report if they hold results,
/// else an execution error with the guest's message, or with
/// [`MALFORMED_RESPONSE`] if they hold no response at all. A failure is never
/// taken for an empty list of results.
pub open spec fn concluded<D>(bytes: Seq<u8>, metadata: Seq<DescriptorView<D>>) -> Result<
    ReportView<D>,
    HostErrorView,
> {
    match parse_response(bytes) {
        Some(ResponseView::Results(results)) => Ok(merged(results, metadata)),
        Some(ResponseView::Failure(message)) => Err(HostErrorView::Execution(message)),
        None => Err(HostErrorView::Execution(MALFORMED_RESPONSE@)),
    }
}

/// The mathematical value of a [`HostDriver`], and the transition system it
/// implements.
pub struct HostView<D> {
    pub phase: HostPhase,
    /// The caller's metadata, until it has gone into the report.
    pub metadata: Seq<DescriptorView<D>>,
    /// How the run ended, once it has.
    pub outcome: Option<Result<ReportView<D>, HostErrorView>>,
}

impl<D> HostView<D> {
    /// The driver before anything was done: the build is next.
    pub open spec fn initial(metadata: Seq<DescriptorView<D>>) -> Self {
        HostView { phase: HostPhase::Building, metadata, outcome: None }
    }

    /// What the host has to do next.
    pub open spec fn pending(self) -> HostAction {
        match self.phase {
            HostPhase::Building => HostAction::Build,
            HostPhase::Invoking => HostAction::Invoke,
            HostPhase::Done => HostAction::Finished,
        }
    }

    /// Whether `event` answers the pending action.
    pub open spec fn accepts(self, event: HostEventView) -> bool {
        match self.phase {
            HostPhase::Building => event is Built || event is BuildFailed,
            HostPhase::Invoking => event is Returned || event is InvokeFailed,
            HostPhase::Done => false,
        }
    }

    /// The run is over with `outcome`.
    pub open spec fn ended(self, outcome: Result<ReportView<D>, HostErrorView>) -> Self {
        HostView { phase: HostPhase::Done, metadata: Seq::empty(), outcome: Some(outcome) }
    }

    /// After `advance(event)`. An event that does not answer the pending
    /// action is no transition: it leaves the state as it is.
    pub open spec fn step(self, event: HostEventView) -> Self {
        if !self.accepts(event) {
            self
        } else {
            match event {
                HostEventView::Built => HostView { phase: HostPhase::Invoking, ..self },
                HostEventView::BuildFailed(cause) => self.ended(Err(HostErrorView::Build(cause))),
                HostEventView::Returned(bytes) => self.ended(concluded(bytes, self.metadata)),
                HostEventView::InvokeFailed(cause) => self.ended(
                    Err(HostErrorView::Execution(cause)),
                ),
            }
        }
    }
}

/// The view of an outcome.
pub open spec fn outcome_view<D>(outcome: Option<Result<Report<D>, HostError>>) -> Option<
    Result<ReportView<D>, HostErrorView>,
> {
    match outcome {
        Some(Ok(report)) => Some(Ok(report@)),
        Some(Err(error)) => Some(Err(error@)),
        None => None,
    }
}

/// The host driver. It owns the caller's metadata until the report is made.
pub struct HostDriver<D> {
    phase: HostPhase,
    metadata: Vec<Descriptor<D>>,
    outcome: Option<Result<Report<D>, HostError>>,
}

impl<D> View for HostDriver<D> {
    type V = HostView<D>;

    closed spec fn view(&self) -> HostView<D> {
        HostView {
            phase: self.phase,
            metadata: descriptors(self.metadata@),
            outcome: outcome_view(self.outcome),
        }
    }
}

/// What the guest's bytes mean to the host.
pub fn conclude<D>(bytes: &[u8], metadata: Vec<Descriptor<D>>) -> (r: Result<
    Report<D>,
    HostError,
>)
    ensures
        outcome_view(Some(r)) == Some(concluded(bytes@, descriptors(metadata@))),
{
    match decode(bytes) {
        Some(Response::Results(results)) => Ok(merge(results, metadata)),
        Some(Response::Failure(message)) => Err(HostError::Execution(message)),
        None => Err(HostError::Execution(MALFORMED_RESPONSE.to_owned())),
    }
}

impl<D> HostDriver<D> {
    /// A driver for one run, with the caller's `metadata`.
    pub fn new(metadata: Vec<Descriptor<D>>) -> (h: Self)
        ensures
            h@ == HostView::initial(descriptors(metadata@)),
    {
        HostDriver { phase: HostPhase::Building, metadata, outcome: None }
    }

    /// What the host has to do next.
    pub fn pending(&self) -> (action: HostAction)
        ensures
            action == self@.pending(),
    {
        match self.phase {
            HostPhase::Building => HostAction::Build,
            HostPhase::Invoking => HostAction::Invoke,
            HostPhase::Done => HostAction::Finished,
        }
    }

    /// Whether `event` answers the pending action.
    pub fn accepts(&self, event: &HostEvent) -> (b: bool)
        ensures
            b == self@.accepts(event@),
    {
        match self.phase {
            HostPhase::Building => match event {
                HostEvent::Built | HostEvent::BuildFailed(_) => true,
                _ => false,
            },
            HostPhase::Invoking => match event {
                HostEvent::Returned(_) | HostEvent::InvokeFailed(_) => true,
                _ => false,
            },
            HostPhase::Done => false,
        }
    }

    /// Takes the run one step on: `event` is what came of the action the
    /// driver asked for last.
    ///
    /// A failed build ends the run with a build error, and the guest is
    /// never invoked. A guest that cannot be invoked, that sent a failure's
    /// message, or whose bytes are no response ends the run with an
    /// execution error. Results end it with the report.
    pub fn advance(&mut self, event: HostEvent) -> (action: HostAction)
        requires
            old(self)@.accepts(event@),
        ensures
            final(self)@ == old(self)@.step(event@),
            action == final(self)@.pending(),
    {
        match event {
            HostEvent::Built => {
                self.phase = HostPhase::Invoking;
                HostAction::Invoke
            },
            HostEvent::BuildFailed(cause) => self.end(Err(HostError::Build(cause))),
            HostEvent::Returned(bytes) => {
                let mut metadata: Vec<Descriptor<D>> = Vec::new();
                core::mem::swap(&mut metadata, &mut self.metadata);
                let outcome = conclude(bytes.as_slice(), metadata);
                self.end(outcome)
            },
            HostEvent::InvokeFailed(cause) => self.end(Err(HostError::Execution(cause))),
        }
    }

    /// Ends the run with `outcome`.
    fn end(&mut self, outcome: Result<Report<D>, HostError>) -> (action: HostAction)
        ensures
            final(self)@ == old(self)@.ended(outcome_view(Some(outcome))->0),
            action == HostAction::Finished,
    {
        self.metadata = Vec::new();
        self.outcome = Some(outcome);
        self.phase = HostPhase::Done;
        assert(descriptors(self.metadata@) =~= Seq::empty());
        HostAction::Finished
    }

    /// How the run ended: the report or the error once it is over, and
    /// nothing before.
    pub fn into_outcome(self) -> (r: Option<Result<Report<D>, HostError>>)
        ensures
            outcome_view(r) == self@.outcome,
    {
        self.outcome
    }
}

/// The first descriptor of a name is of that name, and no descriptor before
/// it is; where there is none, no descriptor is of that name.
pub proof fn theorem_first_match_is_first<D>(
    metadata: Seq<DescriptorView<D>>,
    name: Seq<char>,
    from: nat,
)
    requires
        metadata.len() <= usize::MAX,
    ensures
        match first_match(metadata, name, from) {
            Some(j) => {
                &&& from <= j < metadata.len()
                &&& metadata[j as int].name == name
                &&& forall|k: int| from <= k < j ==> metadata[k].name != name
            },
            None => forall|k: int| from <= k < metadata.len() ==> metadata[k].name != name,
        },
    decreases metadata.len() - from,
{
    if from < metadata.len() && metadata[from as int].name != name {
        theorem_first_match_is_first(metadata, name, from + 1);
    }
}

/// The positions listed apart are ascending, and a position is among them
/// exactly when it is one of the first `upto` and no result has the name of
/// the descriptor there.
pub proof fn theorem_unmatched_are_the_unnamed<D>(
    results: Seq<BenchResultView>,
    metadata: Seq<DescriptorView<D>>,
    upto: nat,
)
    requires
        upto <= metadata.len() <= usize::MAX,
    ensures
        ({
            let list = unmatched(results, metadata, upto);
            &&& forall|a: int, b: int| 0 <= a < b < list.len() ==> list[a] < list[b]
            &&& forall|a: int| 0 <= a < list.len() ==> list[a] < upto
            &&& forall|p: usize|
                p < upto ==> (#[trigger] list.contains(p) <==> !is_named(
                    results,
                    metadata[p as int].name,
                    results.len(),
                ))
        }),
    decreases upto,
{
    if upto > 0 {
        let before = unmatched(results, metadata, (upto - 1) as nat);
        let list = unmatched(results, metadata, upto);
        let last = (upto - 1) as usize;
        theorem_unmatched_are_the_unnamed(results, metadata, (upto - 1) as nat);
        if is_named(results, metadata[upto - 1].name, results.len()) {
            assert(!list.contains(last)) by {
                if list.contains(last) {
                    let a = choose|a: int| 0 <= a < list.len() && list[a] == last;
                    assert(list[a] < upto - 1);
                }
            }
        } else {
            assert(list[list.len() - 1] == last);
            assert forall|p: usize| p < upto - 1 implies (#[trigger] list.contains(p)
                <==> before.contains(p)) by {
                if before.contains(p) {
                    let a = choose|a: int| 0 <= a < before.len() && before[a] == p;
                    assert(list[a] == p);
                }
                if list.contains(p) {
                    let a = choose|a: int| 0 <= a < list.len() && list[a] == p;
                    assert(before[a] == p);
                }
            }
        }
    }
}

/// Merging drops nothing and reorders nothing: the report holds the results
/// and the metadata as they came, one pairing for each result, and every
/// descriptor is either paired with a result of its name or listed apart.
pub proof fn theorem_merge_keeps_everything<D>(
    results: Seq<BenchResultView>,
    metadata: Seq<DescriptorView<D>>,
)
    requires
        metadata.len() <= usize::MAX,
    ensures
        ({
            let report = merged(results, metadata);
            &&& report.results == results
            &&& report.metadata == metadata
            &&& report.pairing.len() == results.len()
            &&& forall|i: int|
                0 <= i < results.len() ==> match #[trigger] report.pairing[i] {
                    Some(j) => j < metadata.len() && metadata[j as int].name == results[i].name,
                    None => forall|k: int|
                        0 <= k < metadata.len() ==> metadata[k].name != results[i].name,
                }
            &&& forall|p: usize|
                p < metadata.len() ==> (#[trigger] report.unmatched.contains(p) <==> !is_named(
                    results,
                    metadata[p as int].name,
                    results.len(),
                ))
        }),
{
    let report = merged(results, metadata);
    assert forall|i: int| 0 <= i < results.len() implies match #[trigger] report.pairing[i] {
        Some(j) => j < metadata.len() && metadata[j as int].name == results[i].name,
        None => forall|k: int| 0 <= k < metadata.len() ==> metadata[k].name != results[i].name,
    } by {
        theorem_first_match_is_first(metadata, results[i].name, 0);
    }
    theorem_unmatched_are_the_unnamed(results, metadata, metadata.len());
}

/// A build that fails ends the run with a build error carrying the cause,
/// and the driver never asks for the guest to be invoked.
pub proof fn theorem_failed_build_invokes_nothing<D>(
    metadata: Seq<DescriptorView<D>>,
    cause: Seq<char>,
)
    ensures
        ({
            let end = HostView::initial(metadata).step(HostEventView::BuildFailed(cause));
            &&& HostView::initial(metadata).pending() == HostAction::Build
            &&& end.pending() == HostAction::Finished
            &&& end.outcome == Some(
                Err::<ReportView<D>, HostErrorView>(HostErrorView::Build(cause)),
            )
            &&& forall|event: HostEventView| !end.accepts(event)
        }),
{
}

/// What the guest wrote is what the host reports: the bytes of a list of
/// results give the report on exactly those results, in their order, and the
/// bytes of a failure's message give an execution error with exactly that
/// message, never a report.
pub proof fn theorem_host_reports_what_the_guest_wrote<D>(
    metadata: Seq<DescriptorView<D>>,
    response: ResponseView,
)
    requires
        crate::wire::representable(response),
    ensures
        ({
            let invoking = HostView::initial(metadata).step(HostEventView::Built);
            let end = invoking.step(
                HostEventView::Returned(crate::wire::response_bytes(response)),
            );
            &&& invoking.pending() == HostAction::Invoke
            &&& end.pending() == HostAction::Finished
            &&& end.outcome == Some(
                match response {
                    ResponseView::Results(results) => Ok(merged(results, metadata)),
                    ResponseView::Failure(message) => Err(HostErrorView::Execution(message)),
                },
            )
        }),
{
    crate::wire::theorem_decode_inverts_encode(response);
}

} // verus!
