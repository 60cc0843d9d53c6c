use run_in_roblox::events::{ChannelItem, EndReason, LogEvent, OutputLevel};
use run_in_roblox::orchestrator::{
    derive_exit_code, drain, process_exit_code, Orchestrator, RunError, RunOutcome, EXIT_FAILURE,
    EXIT_SUCCESS, EXIT_TOOLING_FAILURE,
};

fn event(level: OutputLevel, body: &str) -> ChannelItem {
    ChannelItem::Event(LogEvent { level, body: body.as_bytes().to_vec() })
}

#[test]
fn one_error_one_warning_is_a_failure() {
    let items = vec![
        event(OutputLevel::Error, "bad thing"),
        event(OutputLevel::Warning, "heads up"),
        ChannelItem::End(EndReason::Finished),
    ];
    let outcome = drain(&items).unwrap();
    assert_eq!(outcome.error_count, 1);
    assert_eq!(outcome.warning_count, 1);
    assert_eq!(outcome.print_count, 0);
    assert_eq!(outcome.end, EndReason::Finished);
    assert_eq!(derive_exit_code(&outcome), EXIT_FAILURE);
}

#[test]
fn two_prints_is_a_success() {
    let items = vec![
        event(OutputLevel::Print, "hello"),
        event(OutputLevel::Print, "world"),
        ChannelItem::End(EndReason::Finished),
    ];
    let outcome = drain(&items).unwrap();
    assert_eq!(outcome.error_count, 0);
    assert_eq!(outcome.warning_count, 0);
    assert_eq!(outcome.print_count, 2);
    assert_eq!(derive_exit_code(&outcome), EXIT_SUCCESS);
}

#[test]
fn events_after_the_end_marker_are_ignored() {
    let items = vec![
        event(OutputLevel::Print, "before"),
        ChannelItem::End(EndReason::Finished),
        event(OutputLevel::Error, "after"),
    ];
    let outcome = drain(&items).unwrap();
    assert_eq!(outcome.error_count, 0);
    assert_eq!(outcome.print_count, 1);
    assert_eq!(derive_exit_code(&outcome), EXIT_SUCCESS);
}

#[test]
fn exact_tally_of_a_longer_mixed_stream() {
    let items = vec![
        event(OutputLevel::Warning, "w1"),
        event(OutputLevel::Error, "e1"),
        event(OutputLevel::Print, "p1"),
        event(OutputLevel::Info, "i1"),
        event(OutputLevel::Error, "e2"),
        event(OutputLevel::Warning, "w2"),
        event(OutputLevel::Warning, "w3"),
        ChannelItem::End(EndReason::Finished),
    ];
    let outcome = drain(&items).unwrap();
    assert_eq!(outcome.error_count, 2);
    assert_eq!(outcome.warning_count, 3);
    // One print-severity and one informational event: both count as prints.
    assert_eq!(outcome.print_count, 2);
}

#[test]
fn info_events_count_as_prints_and_never_fail_the_run() {
    let items = vec![event(OutputLevel::Info, "fyi"), ChannelItem::End(EndReason::Finished)];
    let outcome = drain(&items).unwrap();
    assert_eq!(outcome.error_count, 0);
    assert_eq!(outcome.warning_count, 0);
    assert_eq!(outcome.print_count, 1);
    assert_eq!(derive_exit_code(&outcome), EXIT_SUCCESS);
}

#[test]
fn empty_stream_with_end_marker_is_a_success() {
    let items = vec![ChannelItem::End(EndReason::Finished)];
    let outcome = drain(&items).unwrap();
    assert_eq!(outcome.error_count, 0);
    assert_eq!(derive_exit_code(&outcome), EXIT_SUCCESS);
}

#[test]
fn disconnect_without_finish_is_lenient_completion() {
    let items = vec![
        event(OutputLevel::Print, "partial"),
        ChannelItem::End(EndReason::Disconnected),
    ];
    let outcome = drain(&items).unwrap();
    assert_eq!(outcome.end, EndReason::Disconnected);
    assert_eq!(outcome.print_count, 1);
    assert_eq!(derive_exit_code(&outcome), EXIT_SUCCESS);
}

#[test]
fn closed_without_end_marker_is_a_transport_error() {
    let items = vec![event(OutputLevel::Error, "lost")];
    let result = drain(&items);
    assert_eq!(result, Err(RunError::TransportClosedAbnormally));
    assert_eq!(process_exit_code(&result), EXIT_TOOLING_FAILURE);
}

#[test]
fn no_connection_end_marker_is_a_distinct_fatal_outcome() {
    let items = vec![ChannelItem::End(EndReason::NoConnection)];
    let result = drain(&items);
    assert_eq!(result, Err(RunError::NoConnection));
    assert_eq!(process_exit_code(&result), EXIT_TOOLING_FAILURE);
}

#[test]
fn incremental_orchestrator_matches_the_batch_drain() {
    let items = vec![
        event(OutputLevel::Error, "e"),
        event(OutputLevel::Print, "p"),
        ChannelItem::End(EndReason::Finished),
        event(OutputLevel::Error, "late"),
    ];
    let mut orch = Orchestrator::new();
    assert!(!orch.is_done());
    for item in &items {
        orch.observe(item);
    }
    assert!(orch.is_done());
    assert_eq!(orch.error_count(), 1);
    assert_eq!(orch.warning_count(), 0);
    assert_eq!(orch.print_count(), 1);
    let outcome = orch.finish().unwrap();
    assert_eq!(outcome, drain(&items).unwrap());
}

#[test]
fn unfinished_orchestrator_reports_abnormal_close() {
    let mut orch = Orchestrator::new();
    orch.observe(&event(OutputLevel::Warning, "w"));
    assert!(!orch.is_done());
    assert_eq!(orch.finish(), Err(RunError::TransportClosedAbnormally));
}

#[test]
fn exit_code_ignores_warning_and_print_counts() {
    let quiet = RunOutcome {
        error_count: 0,
        warning_count: 0,
        print_count: 0,
        end: EndReason::Finished,
    };
    let noisy = RunOutcome {
        error_count: 0,
        warning_count: 9,
        print_count: 40,
        end: EndReason::Finished,
    };
    assert_eq!(derive_exit_code(&quiet), EXIT_SUCCESS);
    assert_eq!(derive_exit_code(&noisy), EXIT_SUCCESS);
    let failing = RunOutcome { error_count: 3, ..noisy };
    assert_eq!(derive_exit_code(&failing), EXIT_FAILURE);
}

#[test]
fn process_exit_code_distinguishes_content_and_tooling_failures() {
    let ok = Ok(RunOutcome {
        error_count: 1,
        warning_count: 0,
        print_count: 0,
        end: EndReason::Finished,
    });
    assert_eq!(process_exit_code(&ok), EXIT_FAILURE);
    assert_eq!(process_exit_code(&Err(RunError::LaunchFailed)), EXIT_TOOLING_FAILURE);
    assert_eq!(process_exit_code(&Err(RunError::BindFailed)), EXIT_TOOLING_FAILURE);
}
