use muri::error::Error;
use muri::tray::{
    after_batch, after_registration, drains_again, install_outcome, sinks, split_batch,
    thread_spawn_failed, work_in_order, Handshake, LoopStep, Sink, TrayCommand, Work,
};

#[test]
fn spawn_tray_thread_surfaces_a_reported_install_failure() {
    let report = Some(Err(Error::TrayInstall("forced install failure".to_string())));
    let err = install_outcome(report).unwrap_err();
    assert!(
        matches!(err, Error::TrayInstall(_)),
        "a reported install failure must surface as Error::TrayInstall, got {err:?}"
    );
    assert_eq!(err, Error::TrayInstall("forced install failure".to_string()));
}

#[test]
fn spawn_tray_thread_returns_ok_on_a_confirmed_install() {
    assert!(install_outcome(Some(Ok(()))).is_ok());
}

#[test]
fn spawn_tray_thread_does_not_hang_when_the_thread_dies_before_signalling() {
    let err = install_outcome(None).unwrap_err();
    assert_eq!(
        err,
        Error::TrayInstall("muri tray thread exited before reporting the tray install".to_string())
    );
}

#[test]
fn a_thread_that_did_not_start_is_reported() {
    assert_eq!(
        thread_spawn_failed("out of threads"),
        Error::ThreadSpawn("failed to spawn muri tray thread: out of threads".to_string())
    );
}

#[test]
fn a_shutdown_waits_for_the_rest_of_its_batch() {
    let batch = split_batch(vec![
        TrayCommand::SetVisible(true),
        TrayCommand::Shutdown,
        TrayCommand::SetVisible(false),
        TrayCommand::Open,
    ]);
    assert!(batch.shutdown);
    assert_eq!(batch.commands.len(), 3);
    assert!(matches!(batch.commands[0], TrayCommand::SetVisible(true)));
    assert!(matches!(batch.commands[1], TrayCommand::SetVisible(false)));
    assert!(matches!(batch.commands[2], TrayCommand::Open));
    assert!(!split_batch(vec![TrayCommand::Close]).shutdown);
    assert!(split_batch(vec![]).commands.is_empty());
}

#[test]
fn the_loop_ends_on_shutdown_or_when_the_item_is_gone() {
    assert_eq!(after_batch(true, false), LoopStep::ShutDown);
    assert_eq!(after_batch(true, true), LoopStep::ShutDown);
    assert_eq!(after_batch(false, true), LoopStep::Stop);
    assert_eq!(after_batch(false, false), LoopStep::Wait);
}

#[test]
fn the_handler_learns_of_a_click_before_the_channel() {
    assert_eq!(sinks(true), vec![Sink::Handler, Sink::Channel]);
    assert_eq!(sinks(false), vec![Sink::Channel]);
}

#[test]
fn commands_are_done_before_events() {
    assert_eq!(
        work_in_order(vec![1, 2], vec!["a", "b"]),
        vec![Work::Command(1), Work::Command(2), Work::Event("a"), Work::Event("b")]
    );
    assert!(work_in_order(Vec::<u8>::new(), Vec::<u8>::new()).is_empty());
}

#[test]
fn a_drain_goes_on_while_there_was_work() {
    assert!(drains_again(true, false, false));
    assert!(drains_again(false, true, false));
    assert!(drains_again(false, false, true));
    assert!(!drains_again(false, false, false));
}

#[test]
fn success_is_reported_only_after_the_waker_is_stored() {
    assert_eq!(
        after_registration(true),
        vec![Handshake::StoreWaker, Handshake::ReportOk]
    );
    assert_eq!(after_registration(false), vec![Handshake::ReportFailure]);
}
