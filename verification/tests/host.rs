use bencher::host::MALFORMED_RESPONSE;
use bencher::{
    conclude, encode_failure, encode_results, merge, BenchResult, Descriptor, HostAction,
    HostDriver, HostError, HostEvent, Report,
};

fn record(name: &str, value: u64) -> BenchResult {
    BenchResult { name: name.to_string(), value }
}

fn descriptor(name: &str, detail: u32) -> Descriptor<u32> {
    Descriptor { name: name.to_string(), detail }
}

#[test]
fn each_result_is_paired_with_the_descriptor_of_its_name() {
    let results = vec![record("foo", 10), record("bar", 25)];
    let metadata = vec![descriptor("bar", 1), descriptor("foo", 2)];
    let report = merge(results.clone(), metadata.clone());
    assert_eq!(
        report,
        Report { results, metadata, pairing: vec![Some(1), Some(0)], unmatched: vec![] }
    );
}

#[test]
fn a_result_without_a_descriptor_is_reported_without_one() {
    let report = merge(vec![record("foo", 10), record("new", 1)], vec![descriptor("foo", 2)]);
    assert_eq!(report.pairing, vec![Some(0), None]);
    assert_eq!(report.results, vec![record("foo", 10), record("new", 1)]);
    assert!(report.unmatched.is_empty());
}

#[test]
fn a_descriptor_without_a_result_is_kept_and_listed_apart() {
    let metadata = vec![descriptor("gone", 7), descriptor("foo", 2), descriptor("old", 9)];
    let report = merge(vec![record("foo", 10)], metadata.clone());
    assert_eq!(report.metadata, metadata);
    assert_eq!(report.pairing, vec![Some(1)]);
    assert_eq!(report.unmatched, vec![0, 2]);
}

#[test]
fn results_without_metadata_and_metadata_without_results() {
    let report: Report<u32> = merge(vec![record("a", 1), record("b", 2)], Vec::new());
    assert_eq!(report.pairing, vec![None, None]);
    assert!(report.unmatched.is_empty());
    let report = merge(Vec::new(), vec![descriptor("a", 1), descriptor("b", 2)]);
    assert!(report.results.is_empty());
    assert!(report.pairing.is_empty());
    assert_eq!(report.unmatched, vec![0, 1]);
    let report: Report<u32> = merge(Vec::new(), Vec::new());
    assert_eq!(
        report,
        Report { results: vec![], metadata: vec![], pairing: vec![], unmatched: vec![] }
    );
}

#[test]
fn of_descriptors_with_one_name_the_first_is_taken() {
    let metadata = vec![descriptor("x", 0), descriptor("foo", 1), descriptor("foo", 2)];
    let report = merge(vec![record("foo", 10), record("foo", 11)], metadata);
    assert_eq!(report.pairing, vec![Some(1), Some(1)]);
    assert_eq!(report.unmatched, vec![0]);
}

#[test]
fn names_are_compared_whole() {
    let metadata = vec![descriptor("fo", 0), descriptor("fooo", 1), descriptor("Foo", 2)];
    let report = merge(vec![record("foo", 10)], metadata);
    assert_eq!(report.pairing, vec![None]);
    assert_eq!(report.unmatched, vec![0, 1, 2]);
}

#[test]
fn the_host_builds_then_invokes_then_reports() {
    let metadata = vec![descriptor("foo", 2)];
    let mut host = HostDriver::new(metadata.clone());
    assert_eq!(host.pending(), HostAction::Build);
    assert!(host.accepts(&HostEvent::Built));
    assert!(!host.accepts(&HostEvent::Returned(Vec::new())));
    assert_eq!(host.advance(HostEvent::Built), HostAction::Invoke);
    assert_eq!(host.pending(), HostAction::Invoke);
    assert!(!host.accepts(&HostEvent::Built));
    let results = vec![record("foo", 10), record("bench_name", 25)];
    let returned = HostEvent::Returned(encode_results(&results));
    assert!(host.accepts(&returned));
    assert_eq!(host.advance(returned), HostAction::Finished);
    assert_eq!(host.pending(), HostAction::Finished);
    assert!(!host.accepts(&HostEvent::Built));
    assert!(!host.accepts(&HostEvent::InvokeFailed(String::new())));
    assert_eq!(
        host.into_outcome(),
        Some(Ok(Report { results, metadata, pairing: vec![Some(0), None], unmatched: vec![] }))
    );
}

#[test]
fn a_failed_build_is_a_build_error_and_nothing_is_invoked() {
    let mut host = HostDriver::new(vec![descriptor("foo", 2)]);
    let failed = HostEvent::BuildFailed("linker not found".to_string());
    assert!(host.accepts(&failed));
    assert_eq!(host.advance(failed), HostAction::Finished);
    assert!(!host.accepts(&HostEvent::Returned(Vec::new())));
    assert_eq!(host.into_outcome(), Some(Err(HostError::Build("linker not found".to_string()))));
}

#[test]
fn a_guest_that_cannot_be_invoked_is_an_execution_error() {
    let mut host: HostDriver<u32> = HostDriver::new(Vec::new());
    host.advance(HostEvent::Built);
    let failed = HostEvent::InvokeFailed("missing export".to_string());
    assert!(host.accepts(&failed));
    assert_eq!(host.advance(failed), HostAction::Finished);
    assert_eq!(
        host.into_outcome(),
        Some(Err(HostError::Execution("missing export".to_string())))
    );
}

#[test]
fn a_guest_failure_is_an_execution_error_with_the_guests_message() {
    let mut host = HostDriver::new(vec![descriptor("foo", 2)]);
    host.advance(HostEvent::Built);
    host.advance(HostEvent::Returned(encode_failure("panicked at 'overflow'")));
    assert_eq!(
        host.into_outcome(),
        Some(Err(HostError::Execution("panicked at 'overflow'".to_string())))
    );
}

#[test]
fn a_malformed_response_is_an_execution_error() {
    let mut host: HostDriver<u32> = HostDriver::new(Vec::new());
    host.advance(HostEvent::Built);
    host.advance(HostEvent::Returned(vec![9, 9, 9]));
    assert_eq!(
        host.into_outcome(),
        Some(Err(HostError::Execution(MALFORMED_RESPONSE.to_string())))
    );
    assert_eq!(MALFORMED_RESPONSE, "the guest returned a malformed response");
}

#[test]
fn an_empty_response_is_not_an_empty_list() {
    let outcome: Result<Report<u32>, HostError> = conclude(&[], Vec::new());
    assert_eq!(outcome, Err(HostError::Execution(MALFORMED_RESPONSE.to_string())));
    let outcome: Result<Report<u32>, HostError> = conclude(&encode_results(&Vec::new()), vec![]);
    assert_eq!(
        outcome,
        Ok(Report { results: vec![], metadata: vec![], pairing: vec![], unmatched: vec![] })
    );
}

#[test]
fn there_is_no_outcome_before_the_host_is_done() {
    let host: HostDriver<u32> = HostDriver::new(Vec::new());
    assert_eq!(host.into_outcome(), None);
    let mut host: HostDriver<u32> = HostDriver::new(Vec::new());
    host.advance(HostEvent::Built);
    assert_eq!(host.into_outcome(), None);
}
