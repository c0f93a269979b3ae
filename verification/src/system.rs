//! Guest and host together: what a run gives from end to end.

use vstd::prelude::*;
use vstd::utf8::encode_utf8;
use crate::export::{
    records, theorem_export_returns_every_case_in_order, theorem_failure_aborts_export,
    ExporterView, Plan,
};
use crate::host::{
    merged, theorem_host_reports_what_the_guest_wrote, DescriptorView, HostErrorView,
    HostEventView, HostView, ReportView,
};
use crate::panic_bridge::BridgeView;
use crate::protocol::{Failure, FailureView, Stage};
use crate::result::{views, BenchResult, BenchResultView};
use crate::wire::{
    encode_failure, encode_results, parse_response, representable, response_bytes, ResponseView,
};

verus! {

/// The response that tells the host how the guest's run ended: the results
/// of a run that finished, or the message of the failure that ended it. The
/// latter is what the panic bridge sends for that message.
pub open spec fn guest_response(outcome: Result<Seq<BenchResultView>, FailureView>) -> ResponseView {
    match outcome {
        Ok(results) => ResponseView::Results(results),
        Err(failure) => ResponseView::Failure(failure.message()),
    }
}

/// The view of the outcome of a guest's run.
pub open spec fn guest_outcome(outcome: Result<Vec<BenchResult>, Failure>) -> Result<
    Seq<BenchResultView>,
    FailureView,
> {
    match outcome {
        Ok(results) => Ok(views(results@)),
        Err(failure) => Err(failure@),
    }
}

/// The bytes that the guest hands to the host for `outcome`. Read back, they
/// give the results in their order, or the failure's message.
pub fn respond(outcome: &Result<Vec<BenchResult>, Failure>) -> (bytes: Vec<u8>)
    ensures
        bytes@ == response_bytes(guest_response(guest_outcome(*outcome))),
        parse_response(bytes@) == Some(guest_response(guest_outcome(*outcome))),
        outcome matches Err(failure) ==> bytes@ == BridgeView::raised(failure@.message()).response,
{
    match outcome {
        Ok(results) => encode_results(results),
        Err(failure) => {
            let message = failure.message();
            encode_failure(message.as_str())
        },
    }
}

/// What the host makes of a guest whose faithful driver has carried out up
/// to `fuel` actions on `plans`, registered under `identifiers`: it builds,
/// invokes, and concludes from the response to how the guest's run ended.
pub open spec fn run_all<P, D>(
    identifiers: Seq<Seq<char>>,
    plans: Seq<Plan<P>>,
    metadata: Seq<DescriptorView<D>>,
    meter: nat,
    fuel: nat,
) -> Option<Result<ReportView<D>, HostErrorView>> {
    match ExporterView::initial(identifiers).drive(meter, plans, fuel).0.outcome() {
        Some(outcome) => HostView::initial(metadata).step(HostEventView::Built).step(
            HostEventView::Returned(response_bytes(guest_response(outcome))),
        ).outcome,
        None => None,
    }
}

/// From end to end, when nothing fails: the report holds exactly one result
/// for each registered benchmark, in declaration order, each under its
/// resolved name and with what its measured step consumed, beside the
/// caller's metadata.
pub proof fn theorem_run_reports_every_benchmark<P, D>(
    identifiers: Seq<Seq<char>>,
    plans: Seq<Plan<P>>,
    metadata: Seq<DescriptorView<D>>,
    meter: nat,
    fuel: nat,
)
    requires
        identifiers.len() == plans.len(),
        forall|i: int| 0 <= i < plans.len() ==> (#[trigger] plans[i]).sound(),
        meter + crate::export::consumption(plans, plans.len()) <= u64::MAX,
        fuel >= 6 * plans.len(),
        representable(ResponseView::Results(records(identifiers, plans, plans.len()))),
    ensures
        run_all(identifiers, plans, metadata, meter, fuel) == Some(
            Ok::<ReportView<D>, HostErrorView>(
                merged(records(identifiers, plans, plans.len()), metadata),
            ),
        ),
{
    theorem_export_returns_every_case_in_order(identifiers, plans, meter, fuel);
    theorem_host_reports_what_the_guest_wrote(
        metadata,
        ResponseView::Results(records(identifiers, plans, plans.len())),
    );
}

/// From end to end, when a registered procedure fails: the host reports an
/// execution error that carries the procedure's message, and no report, not
/// even of the benchmarks that ran before.
pub proof fn theorem_guest_failure_is_an_execution_error<P, D>(
    identifiers: Seq<Seq<char>>,
    plans: Seq<Plan<P>>,
    metadata: Seq<DescriptorView<D>>,
    position: nat,
    stage: Stage,
    message: Seq<char>,
    meter: nat,
    fuel: nat,
)
    requires
        identifiers.len() == plans.len(),
        position < plans.len(),
        forall|i: int| 0 <= i < position ==> (#[trigger] plans[i]).sound(),
        plans[position as int].case.measured is Some,
        plans[position as int].case.procedure(stage) is Some,
        plans[position as int].conduct.fault == Some((stage, message)),
        meter + crate::export::consumption(plans, position + 1) <= u64::MAX,
        fuel >= 6 * (position + 1),
        encode_utf8(message).len() <= u64::MAX,
    ensures
        run_all(identifiers, plans, metadata, meter, fuel) == Some(
            Err::<ReportView<D>, HostErrorView>(HostErrorView::Execution(message)),
        ),
{
    theorem_failure_aborts_export(identifiers, plans, position, stage, message, meter, fuel);
    theorem_host_reports_what_the_guest_wrote(metadata, ResponseView::Failure(message));
}

} // verus!
