use elevated_command::collector::{
    BlockingCollector, CollectError, CollectorAction, CollectorEvent, CollectorStage, ExitOutcome,
};

fn sentinels(exit_code: Option<&[u8]>, stdout: Option<&[u8]>, stderr: Option<&[u8]>) -> CollectorEvent {
    CollectorEvent::SentinelsRead {
        exit_code: exit_code.map(|b| b.to_vec()),
        stdout: stdout.map(|b| b.to_vec()),
        stderr: stderr.map(|b| b.to_vec()),
    }
}

#[test]
fn outcome_is_assembled_from_the_three_files() {
    let outcome = ExitOutcome::collect(
        Some(b"3\r\n".to_vec()),
        Some(b"out".to_vec()),
        Some(b"err".to_vec()),
    );
    assert_eq!(outcome, ExitOutcome { status: 3, stdout: b"out".to_vec(), stderr: b"err".to_vec() });
    assert_eq!(outcome.code(), 3);
}

#[test]
fn missing_files_degrade_to_defaults() {
    let outcome = ExitOutcome::collect(None, None, None);
    assert_eq!(outcome, ExitOutcome { status: 0, stdout: vec![], stderr: vec![] });
    let outcome = ExitOutcome::collect(Some(b"not a number".to_vec()), None, Some(vec![1, 2]));
    assert_eq!(outcome, ExitOutcome { status: 0, stdout: vec![], stderr: vec![1, 2] });
    let outcome = ExitOutcome::collect(Some(vec![0xff, 0xfe]), Some(vec![0xff]), None);
    assert_eq!(outcome, ExitOutcome { status: 0, stdout: vec![0xff], stderr: vec![] });
    let outcome = ExitOutcome::collect(Some(b"".to_vec()), None, None);
    assert_eq!(outcome.status, 0);
}

#[test]
fn negative_exit_codes_keep_their_bits() {
    let outcome = ExitOutcome::collect(Some(b"-1\r\n".to_vec()), None, None);
    assert_eq!(outcome.status, 0xffff_ffff);
    assert_eq!(outcome.code(), -1);
    let outcome = ExitOutcome::collect(Some(b"-1073741819".to_vec()), None, None);
    assert_eq!(outcome.status, 0xc000_0005);
    assert_eq!(outcome.code(), -1073741819);
    let outcome = ExitOutcome::collect(Some(b"-2147483648".to_vec()), None, None);
    assert_eq!(outcome.status, 0x8000_0000);
    assert_eq!(outcome.code(), i32::MIN);
    let outcome = ExitOutcome::collect(Some(b"2147483647".to_vec()), None, None);
    assert_eq!(outcome.status, 0x7fff_ffff);
    assert_eq!(outcome.code(), i32::MAX);
}

#[test]
fn blocking_result_reports_every_exit_code_of_one_byte() {
    for k in 0..=255 {
        let mut collector = BlockingCollector::new();
        collector.handle(CollectorEvent::ScriptStored { ok: true });
        collector.handle(CollectorEvent::ElevationRequested { granted: true });
        collector.handle(CollectorEvent::HandleInspected { valid: true });
        let content = format!("{}\r\n", k);
        collector.handle(sentinels(Some(content.as_bytes()), Some(b"x"), None));
        collector.handle(CollectorEvent::ArtifactsDeleted);
        let outcome = collector.into_result().unwrap().unwrap();
        assert_eq!(outcome.code(), k);
        assert_eq!(outcome.status, k as u32);
    }
}

#[test]
fn the_path_that_goes_well() {
    let mut collector = BlockingCollector::new();
    assert_eq!(collector.stage(), CollectorStage::Idle);
    assert_eq!(collector.action(), CollectorAction::WriteScript);
    collector.handle(CollectorEvent::ScriptStored { ok: true });
    assert_eq!(collector.stage(), CollectorStage::ScriptWritten);
    assert_eq!(collector.action(), CollectorAction::RequestElevation);
    collector.handle(CollectorEvent::ElevationRequested { granted: true });
    assert_eq!(collector.stage(), CollectorStage::Elevated);
    assert_eq!(collector.action(), CollectorAction::InspectHandle);
    collector.handle(CollectorEvent::HandleInspected { valid: true });
    assert_eq!(collector.stage(), CollectorStage::Waiting);
    assert_eq!(collector.action(), CollectorAction::WaitForBroker);
    collector.handle(sentinels(Some(b"5"), Some(b"hello\r\n"), Some(b"")));
    assert_eq!(collector.stage(), CollectorStage::Collected);
    assert_eq!(collector.action(), CollectorAction::DeleteArtifacts);
    collector.handle(CollectorEvent::ArtifactsDeleted);
    assert_eq!(collector.stage(), CollectorStage::CleanedUp);
    assert_eq!(collector.action(), CollectorAction::Return);
    assert_eq!(
        collector.into_result(),
        Some(Ok(ExitOutcome { status: 5, stdout: b"hello\r\n".to_vec(), stderr: vec![] }))
    );
}

#[test]
fn no_result_before_the_artifacts_are_deleted() {
    let mut collector = BlockingCollector::new();
    collector.handle(CollectorEvent::ScriptStored { ok: true });
    collector.handle(CollectorEvent::ElevationRequested { granted: true });
    collector.handle(CollectorEvent::HandleInspected { valid: true });
    collector.handle(sentinels(Some(b"5"), None, None));
    assert_eq!(collector.stage(), CollectorStage::Collected);
    assert_eq!(collector.into_result(), None);
    assert_eq!(BlockingCollector::new().into_result(), None);
}

#[test]
fn a_script_that_cannot_be_written_is_an_io_failure() {
    let mut collector = BlockingCollector::new();
    collector.handle(CollectorEvent::ScriptStored { ok: false });
    assert_eq!(collector.stage(), CollectorStage::Failed);
    assert_eq!(collector.action(), CollectorAction::DeleteArtifacts);
    collector.handle(CollectorEvent::ArtifactsDeleted);
    assert_eq!(collector.stage(), CollectorStage::CleanedUp);
    assert_eq!(collector.into_result(), Some(Err(CollectError::IoFailure)));
}

#[test]
fn a_declined_prompt_is_an_elevation_failure() {
    let mut collector = BlockingCollector::new();
    collector.handle(CollectorEvent::ScriptStored { ok: true });
    collector.handle(CollectorEvent::ElevationRequested { granted: false });
    assert_eq!(collector.stage(), CollectorStage::Failed);
    assert_eq!(collector.action(), CollectorAction::DeleteArtifacts);
    collector.handle(CollectorEvent::ArtifactsDeleted);
    assert_eq!(collector.into_result(), Some(Err(CollectError::ElevationFailed)));
}

#[test]
fn an_invalid_handle_is_an_elevation_failure_without_a_fallback() {
    let mut collector = BlockingCollector::new();
    collector.handle(CollectorEvent::ScriptStored { ok: true });
    collector.handle(CollectorEvent::ElevationRequested { granted: true });
    collector.handle(CollectorEvent::HandleInspected { valid: false });
    assert_eq!(collector.stage(), CollectorStage::Failed);
    collector.handle(CollectorEvent::ArtifactsDeleted);
    assert_eq!(collector.into_result(), Some(Err(CollectError::ElevationFailed)));
}

#[test]
fn an_invalid_handle_leads_to_the_delay_where_one_is_allowed() {
    let mut collector = BlockingCollector::with_fallback_delay(2500);
    collector.handle(CollectorEvent::ScriptStored { ok: true });
    collector.handle(CollectorEvent::ElevationRequested { granted: true });
    collector.handle(CollectorEvent::HandleInspected { valid: false });
    assert_eq!(collector.stage(), CollectorStage::HeuristicSleep { millis: 2500 });
    assert_eq!(collector.action(), CollectorAction::Sleep { millis: 2500 });
    // the command had not finished: nothing to read yet
    collector.handle(sentinels(None, None, None));
    assert_eq!(collector.stage(), CollectorStage::Collected);
    collector.handle(CollectorEvent::ArtifactsDeleted);
    assert_eq!(
        collector.into_result(),
        Some(Ok(ExitOutcome { status: 0, stdout: vec![], stderr: vec![] }))
    );
}

#[test]
fn a_valid_handle_is_waited_on_even_where_a_delay_is_allowed() {
    let mut collector = BlockingCollector::with_fallback_delay(2500);
    collector.handle(CollectorEvent::ScriptStored { ok: true });
    collector.handle(CollectorEvent::ElevationRequested { granted: true });
    collector.handle(CollectorEvent::HandleInspected { valid: true });
    assert_eq!(collector.action(), CollectorAction::WaitForBroker);
}

#[test]
fn a_collector_report_out_of_turn_changes_nothing() {
    let mut collector = BlockingCollector::new();
    collector.handle(CollectorEvent::ArtifactsDeleted);
    collector.handle(CollectorEvent::HandleInspected { valid: true });
    collector.handle(CollectorEvent::ElevationRequested { granted: false });
    collector.handle(sentinels(Some(b"1"), None, None));
    assert_eq!(collector.stage(), CollectorStage::Idle);
    assert_eq!(collector.action(), CollectorAction::WriteScript);
    collector.handle(CollectorEvent::ScriptStored { ok: true });
    collector.handle(CollectorEvent::ScriptStored { ok: false });
    assert_eq!(collector.stage(), CollectorStage::ScriptWritten);
    collector.handle(CollectorEvent::ElevationRequested { granted: true });
    collector.handle(CollectorEvent::HandleInspected { valid: true });
    collector.handle(sentinels(Some(b"1"), None, None));
    collector.handle(sentinels(Some(b"2"), None, None));
    collector.handle(CollectorEvent::ArtifactsDeleted);
    collector.handle(CollectorEvent::ScriptStored { ok: false });
    collector.handle(CollectorEvent::ArtifactsDeleted);
    assert_eq!(collector.stage(), CollectorStage::CleanedUp);
    assert_eq!(collector.into_result().unwrap().unwrap().status, 1);
}

#[test]
fn errors_say_what_went_wrong() {
    assert_eq!(CollectError::ElevationFailed.message(), "Failed to execute elevated command");
    assert_eq!(CollectError::IoFailure.message(), "Failed to write the wrapper script");
}

#[test]
fn a_second_report_of_deletion_changes_nothing() {
    let mut collector = BlockingCollector::new();
    collector.handle(CollectorEvent::ScriptStored { ok: false });
    collector.handle(CollectorEvent::ArtifactsDeleted);
    assert_eq!(collector.stage(), CollectorStage::CleanedUp);
    collector.handle(CollectorEvent::ArtifactsDeleted);
    assert_eq!(collector.stage(), CollectorStage::CleanedUp);
    assert_eq!(collector.into_result(), Some(Err(CollectError::IoFailure)));
}
