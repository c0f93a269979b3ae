use bencher::{benchmarkable, Action, BenchResult, Bencher, Event, Phase, Stage};
use std::cell::Cell;
use std::rc::Rc;

type Procedure = Box<dyn Fn() -> Result<(), String>>;

/// A counter that the procedures of a test advance and the driver reads.
fn meter() -> Rc<Cell<u64>> {
    Rc::new(Cell::new(0))
}

/// A procedure that consumes `units` and returns.
fn consumes(meter: &Rc<Cell<u64>>, units: u64) -> Procedure {
    let meter = Rc::clone(meter);
    Box::new(move || {
        meter.set(meter.get() + units);
        Ok(())
    })
}

/// A procedure that consumes `units` and then fails with `message`.
fn fails(meter: &Rc<Cell<u64>>, units: u64, message: &str) -> Procedure {
    let meter = Rc::clone(meter);
    let message = message.to_string();
    Box::new(move || {
        meter.set(meter.get() + units);
        Err(message.clone())
    })
}

/// Carries out what the engine asks for until the run is over.
fn carry_out(b: &mut Bencher<Procedure>, meter: &Rc<Cell<u64>>, first: Action) -> Action {
    let mut action = first;
    loop {
        let event = match action {
            Action::Invoke(stage) => match (b.procedure(stage).unwrap())() {
                Ok(()) => Event::Completed,
                Err(message) => Event::Failed(message),
            },
            Action::Before | Action::After => Event::Reading(meter.get()),
            _ => return action,
        };
        assert!(b.accepts(&event));
        action = b.advance(event);
    }
}

fn record(name: &str, value: u64) -> BenchResult {
    BenchResult { name: name.to_string(), value }
}

#[test]
fn a_new_engine_is_idle_and_not_ready() {
    let b: Bencher<Procedure> = Bencher::new();
    assert_eq!(b.phase(), Phase::Idle);
    assert!(b.is_configurable());
    assert!(!b.is_ready());
    assert_eq!(b.action(), None);
    assert!(b.result().is_none());
    assert!(b.diagnostic().is_none());
    assert!(b.case().name.is_none());
    assert!(b.procedure(Stage::Prepare).is_none());
    assert!(b.procedure(Stage::Measured).is_none());
    assert!(b.procedure(Stage::Verify).is_none());
}

#[test]
fn the_default_engine_is_a_new_engine() {
    let b: Bencher<Procedure> = Bencher::default();
    assert_eq!(b.phase(), Phase::Idle);
    assert!(!b.is_ready());
}

#[test]
fn a_name_alone_leaves_the_engine_idle() {
    let mut b: Bencher<Procedure> = Bencher::new();
    b.name("only a name");
    assert_eq!(b.phase(), Phase::Idle);
    assert_eq!(b.case().name.as_deref(), Some("only a name"));
    assert!(!b.is_ready());
}

#[test]
fn any_procedure_makes_the_engine_configured() {
    let m = meter();
    let mut b: Bencher<Procedure> = Bencher::new();
    b.prepare(consumes(&m, 1));
    assert_eq!(b.phase(), Phase::Configured);
    assert!(!b.is_ready());
    b.verify(consumes(&m, 1));
    assert!(!b.is_ready());
    b.bench(consumes(&m, 1));
    assert!(b.is_ready());
    assert!(b.procedure(Stage::Prepare).is_some());
    assert!(b.procedure(Stage::Measured).is_some());
    assert!(b.procedure(Stage::Verify).is_some());
}

#[test]
fn the_steps_come_in_order() {
    let m = meter();
    let mut b: Bencher<Procedure> = Bencher::new();
    b.prepare(consumes(&m, 1)).bench(consumes(&m, 2)).verify(consumes(&m, 3));
    assert_eq!(b.run("ordered"), Action::Invoke(Stage::Prepare));
    assert_eq!(b.phase(), Phase::Preparing);
    assert_eq!(b.advance(Event::Completed), Action::Before);
    assert_eq!(b.phase(), Phase::Opening);
    assert_eq!(b.advance(Event::Reading(100)), Action::Invoke(Stage::Measured));
    assert_eq!(b.phase(), Phase::Measuring);
    assert_eq!(b.advance(Event::Completed), Action::After);
    assert_eq!(b.phase(), Phase::Closing);
    assert_eq!(b.advance(Event::Reading(142)), Action::Invoke(Stage::Verify));
    assert_eq!(b.phase(), Phase::Verifying);
    assert!(b.result().is_none());
    assert_eq!(b.advance(Event::Completed), Action::Finished);
    assert_eq!(b.phase(), Phase::Recorded);
    assert_eq!(b.action(), Some(Action::Finished));
    assert_eq!(b.result(), Some(record("ordered", 42)));
}

#[test]
fn without_prepare_and_verify_the_window_is_all_there_is() {
    let m = meter();
    let mut b: Bencher<Procedure> = Bencher::new();
    b.bench(consumes(&m, 5));
    assert_eq!(b.run("bare"), Action::Before);
    assert_eq!(b.before_block(7), Action::Invoke(Stage::Measured));
    assert_eq!(b.advance(Event::Completed), Action::After);
    assert_eq!(b.after_block(12), Action::Finished);
    assert_eq!(b.result(), Some(record("bare", 5)));
}

#[test]
fn measurement_is_what_the_measured_step_consumed() {
    let m = meter();
    let mut b: Bencher<Procedure> = Bencher::new();
    b.prepare(consumes(&m, 7)).bench(consumes(&m, 10)).verify(consumes(&m, 3));
    assert_eq!(b.phase(), Phase::Configured);
    let first = b.run("foo");
    assert_eq!(first, Action::Invoke(Stage::Prepare));
    assert_eq!(carry_out(&mut b, &m, first), Action::Finished);
    assert_eq!(b.result(), Some(record("foo", 10)));
    assert_eq!(m.get(), 20);
}

#[test]
fn a_measured_step_that_consumes_nothing_measures_zero() {
    let m = meter();
    m.set(u64::MAX);
    let mut b: Bencher<Procedure> = Bencher::new();
    b.bench(consumes(&m, 0));
    let first = b.run("idle");
    assert_eq!(carry_out(&mut b, &m, first), Action::Finished);
    assert_eq!(b.result(), Some(record("idle", 0)));
}

#[test]
fn a_window_can_span_the_whole_counter() {
    let mut b: Bencher<u8> = Bencher::new();
    b.bench(0);
    b.run("wide");
    b.advance(Event::Reading(0));
    b.advance(Event::Completed);
    assert_eq!(b.advance(Event::Reading(u64::MAX)), Action::Finished);
    assert_eq!(b.result(), Some(record("wide", u64::MAX)));
}

#[test]
fn an_unnamed_case_takes_the_identifier() {
    let m = meter();
    let mut b: Bencher<Procedure> = Bencher::new();
    b.bench(consumes(&m, 1));
    let first = b.run("registered_as");
    carry_out(&mut b, &m, first);
    assert_eq!(b.result().unwrap().name, "registered_as");
}

#[test]
fn a_named_case_keeps_its_name() {
    let m = meter();
    let mut b: Bencher<Procedure> = Bencher::new();
    b.name("custom").bench(consumes(&m, 1));
    let first = b.run("registered_as");
    carry_out(&mut b, &m, first);
    assert_eq!(b.result().unwrap().name, "custom");
}

#[test]
fn the_last_name_wins() {
    let m = meter();
    let mut b: Bencher<Procedure> = Bencher::new();
    b.name("first").bench(consumes(&m, 1)).name("second");
    let first = b.run("registered_as");
    carry_out(&mut b, &m, first);
    assert_eq!(b.result().unwrap().name, "second");
}

#[test]
fn an_empty_name_is_a_name() {
    let m = meter();
    let mut b: Bencher<Procedure> = Bencher::new();
    b.name("").bench(consumes(&m, 1));
    let first = b.run("registered_as");
    carry_out(&mut b, &m, first);
    assert_eq!(b.result().unwrap().name, "");
}

#[test]
fn the_case_cannot_change_once_the_run_has_started() {
    let m = meter();
    let mut b: Bencher<Procedure> = Bencher::new();
    b.bench(consumes(&m, 4));
    let first = b.run("fixed");
    assert_eq!(first, Action::Before);
    b.name("late").prepare(consumes(&m, 100)).verify(consumes(&m, 100));
    b.bench(consumes(&m, 100));
    assert_eq!(b.phase(), Phase::Opening);
    assert!(b.procedure(Stage::Prepare).is_none());
    assert!(b.procedure(Stage::Verify).is_none());
    assert_eq!(carry_out(&mut b, &m, first), Action::Finished);
    assert_eq!(b.result(), Some(record("fixed", 4)));
    b.name("later still");
    assert_eq!(b.result(), Some(record("fixed", 4)));
}

#[test]
fn reset_gives_a_new_engine() {
    let m = meter();
    let mut b: Bencher<Procedure> = Bencher::new();
    b.name("x").prepare(consumes(&m, 1)).bench(consumes(&m, 2)).verify(consumes(&m, 3));
    let first = b.run("x");
    carry_out(&mut b, &m, first);
    assert!(b.result().is_some());
    b.reset();
    assert_eq!(b.phase(), Phase::Idle);
    assert!(b.case().name.is_none());
    assert!(b.procedure(Stage::Prepare).is_none());
    assert!(b.procedure(Stage::Measured).is_none());
    assert!(b.procedure(Stage::Verify).is_none());
    assert!(b.result().is_none());
    assert!(b.diagnostic().is_none());
    assert_eq!(b.action(), None);
}

#[test]
fn reset_twice_is_reset_once() {
    let m = meter();
    let mut b: Bencher<Procedure> = Bencher::new();
    b.name("x").bench(fails(&m, 2, "broken"));
    let first = b.run("x");
    carry_out(&mut b, &m, first);
    assert_eq!(b.phase(), Phase::Failed);
    b.reset();
    let once = (b.phase(), b.case().name.clone(), b.result(), b.diagnostic(), b.is_ready());
    b.reset();
    b.reset();
    let thrice = (b.phase(), b.case().name.clone(), b.result(), b.diagnostic(), b.is_ready());
    assert_eq!(once, thrice);
    assert_eq!(once, (Phase::Idle, None, None, None, false));
}

#[test]
fn reset_in_the_middle_of_a_run_forgets_the_run() {
    let m = meter();
    let mut b: Bencher<Procedure> = Bencher::new();
    b.bench(consumes(&m, 2));
    b.run("x");
    b.advance(Event::Reading(5));
    assert_eq!(b.phase(), Phase::Measuring);
    b.reset();
    assert_eq!(b.phase(), Phase::Idle);
    assert!(!b.accepts(&Event::Completed));
}

#[test]
fn a_second_case_is_not_charged_for_the_first() {
    let m = meter();
    let mut b: Bencher<Procedure> = Bencher::new();
    b.prepare(consumes(&m, 1000)).bench(consumes(&m, 500)).verify(consumes(&m, 250));
    let first = b.run("a");
    carry_out(&mut b, &m, first);
    assert_eq!(b.result(), Some(record("a", 500)));
    b.reset();
    b.bench(consumes(&m, 3));
    let first = b.run("b");
    carry_out(&mut b, &m, first);
    assert_eq!(b.result(), Some(record("b", 3)));
    assert_eq!(m.get(), 1753);
}

#[test]
fn a_failing_prepare_ends_the_run_before_the_window_opens() {
    let m = meter();
    let mut b: Bencher<Procedure> = Bencher::new();
    b.prepare(fails(&m, 1, "no state")).bench(consumes(&m, 10));
    let first = b.run("x");
    assert_eq!(carry_out(&mut b, &m, first), Action::Aborted);
    assert_eq!(b.phase(), Phase::Failed);
    assert_eq!(b.result(), None);
    assert_eq!(b.diagnostic(), Some("no state".to_string()));
    assert_eq!(m.get(), 1);
}

#[test]
fn a_failing_measured_step_leaves_no_result() {
    let m = meter();
    let mut b: Bencher<Procedure> = Bencher::new();
    b.name("bar").bench(fails(&m, 4, "out of gas"));
    let first = b.run("bar");
    assert_eq!(first, Action::Before);
    assert_eq!(carry_out(&mut b, &m, first), Action::Aborted);
    assert_eq!(b.phase(), Phase::Failed);
    assert_eq!(b.action(), Some(Action::Aborted));
    assert_eq!(b.result(), None);
    assert_eq!(b.diagnostic(), Some("out of gas".to_string()));
}

#[test]
fn a_failing_verify_discards_the_measurement() {
    let m = meter();
    let mut b: Bencher<Procedure> = Bencher::new();
    b.bench(consumes(&m, 10)).verify(fails(&m, 0, "wrong effect"));
    let first = b.run("x");
    assert_eq!(carry_out(&mut b, &m, first), Action::Aborted);
    assert_eq!(b.result(), None);
    assert_eq!(b.diagnostic(), Some("wrong effect".to_string()));
}

#[test]
fn a_failed_engine_accepts_nothing_until_reset() {
    let m = meter();
    let mut b: Bencher<Procedure> = Bencher::new();
    b.bench(fails(&m, 0, "x"));
    let first = b.run("x");
    carry_out(&mut b, &m, first);
    assert!(!b.accepts(&Event::Completed));
    assert!(!b.accepts(&Event::Reading(0)));
    assert!(!b.accepts(&Event::Failed("again".to_string())));
    assert!(!b.accepts(&Event::Configured));
    assert!(!b.is_ready());
    b.reset();
    b.bench(consumes(&m, 1));
    assert!(b.is_ready());
}

#[test]
fn only_the_answer_to_the_pending_action_is_accepted() {
    let mut b: Bencher<u8> = Bencher::new();
    assert!(!b.accepts(&Event::Completed));
    assert!(!b.accepts(&Event::Reading(1)));
    b.prepare(1).bench(2).verify(3);
    assert!(!b.accepts(&Event::Completed));
    b.run("x");
    assert!(b.accepts(&Event::Completed));
    assert!(b.accepts(&Event::Failed(String::new())));
    assert!(!b.accepts(&Event::Reading(1)));
    assert!(!b.accepts(&Event::Configured));
    b.advance(Event::Completed);
    assert!(b.accepts(&Event::Reading(10)));
    assert!(!b.accepts(&Event::Completed));
    assert!(!b.accepts(&Event::Failed(String::new())));
    b.advance(Event::Reading(10));
    assert!(b.accepts(&Event::Completed));
    assert!(!b.accepts(&Event::Reading(11)));
    b.advance(Event::Completed);
    assert!(b.accepts(&Event::Reading(10)));
    assert!(b.accepts(&Event::Reading(11)));
    assert!(!b.accepts(&Event::Reading(9)));
    assert!(!b.accepts(&Event::Completed));
    b.advance(Event::Reading(11));
    assert!(b.accepts(&Event::Completed));
    b.advance(Event::Completed);
    assert!(!b.accepts(&Event::Completed));
    assert!(!b.accepts(&Event::Reading(12)));
    assert_eq!(b.result(), Some(record("x", 1)));
}

#[test]
fn the_engine_hands_back_the_procedure_it_was_given() {
    let mut b: Bencher<u32> = Bencher::new();
    b.prepare(11).bench(22).verify(33);
    assert_eq!(b.procedure(Stage::Prepare), Some(&11));
    assert_eq!(b.procedure(Stage::Measured), Some(&22));
    assert_eq!(b.procedure(Stage::Verify), Some(&33));
    b.bench(44);
    assert_eq!(b.procedure(Stage::Measured), Some(&44));
    assert_eq!(b.case().measured, Some(44));
}

#[test]
fn a_result_can_be_built_from_its_parts() {
    assert_eq!(BenchResult::new("built", 9), record("built", 9));
}

#[test]
fn a_bracketed_call_is_measured_and_hands_on_what_it_returns() {
    let m = meter();
    m.set(40);
    let mut b: Bencher<()> = Bencher::new();
    b.name("bracketed").bench(());
    assert_eq!(b.run("x"), Action::Before);
    let (returned, closed) = benchmarkable(&mut b, &|| m.get(), || {
        m.set(m.get() + 12);
        "returned"
    });
    assert_eq!(returned, "returned");
    assert!(closed);
    assert_eq!(b.phase(), Phase::Recorded);
    assert_eq!(b.result(), Some(record("bracketed", 12)));
}

#[test]
fn a_bracketed_call_leaves_verification_to_come() {
    let m = meter();
    let mut b: Bencher<()> = Bencher::new();
    b.bench(()).verify(());
    b.run("x");
    let (_, closed) = benchmarkable(&mut b, &|| m.get(), || m.set(5));
    assert!(closed);
    assert_eq!(b.phase(), Phase::Verifying);
    assert_eq!(b.action(), Some(Action::Invoke(Stage::Verify)));
    assert_eq!(b.advance(Event::Completed), Action::Finished);
    assert_eq!(b.result(), Some(record("x", 5)));
}

#[test]
fn a_meter_that_goes_backwards_closes_no_window() {
    let m = meter();
    m.set(100);
    let mut b: Bencher<()> = Bencher::new();
    b.bench(());
    b.run("x");
    let (_, closed) = benchmarkable(&mut b, &|| m.get(), || m.set(99));
    assert!(!closed);
    assert_eq!(b.phase(), Phase::Closing);
    assert_eq!(b.result(), None);
    assert!(!b.accepts(&Event::Reading(99)));
    assert!(b.accepts(&Event::Reading(100)));
}
