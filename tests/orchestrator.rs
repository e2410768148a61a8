use wasm_capnp_async::orchestrator::{
    drain_action, trimmed_len, DrainAction, Event, Orchestrator, Phase, UnexpectedEvent,
};

fn start_to_running(o: &mut Orchestrator) {
    assert_eq!(o.handle(Event::ChannelsAllocated), Ok(Phase::ChannelsCreated));
    assert_eq!(o.handle(Event::DriverSpawned), Ok(Phase::DriverSpawned));
    assert_eq!(o.handle(Event::WaitingForReady), Ok(Phase::AwaitingReady));
    assert_eq!(o.handle(Event::ReadySignalled), Ok(Phase::Ready));
    assert_eq!(o.handle(Event::GuestStarted), Ok(Phase::GuestRunning));
}

#[test]
fn clean_run_is_torn_down() {
    let mut o = Orchestrator::new();
    assert_eq!(o.phase(), Phase::Init);
    start_to_running(&mut o);
    assert_eq!(o.handle(Event::GuestReturned(true)), Ok(Phase::GuestExited));
    assert!(!o.succeeded());
    assert_eq!(o.handle(Event::TeardownFinished), Ok(Phase::TornDown));
    assert!(o.succeeded());
}

#[test]
fn guest_failure_still_tears_down() {
    let mut o = Orchestrator::new();
    start_to_running(&mut o);
    assert_eq!(o.handle(Event::GuestReturned(false)), Ok(Phase::GuestExited));
    assert_eq!(o.handle(Event::TeardownFinished), Ok(Phase::TornDown));
    assert!(o.succeeded());
}

#[test]
fn driver_spawn_failure_aborts() {
    let mut o = Orchestrator::new();
    o.handle(Event::ChannelsAllocated).unwrap();
    assert_eq!(o.handle(Event::DriverSpawnFailed), Ok(Phase::Aborted));
    assert_eq!(
        o.handle(Event::GuestStarted),
        Err(UnexpectedEvent { phase: Phase::Aborted, event: Event::GuestStarted })
    );
    assert!(!o.succeeded());
}

#[test]
fn lost_readiness_signal_aborts() {
    let mut o = Orchestrator::new();
    o.handle(Event::ChannelsAllocated).unwrap();
    o.handle(Event::DriverSpawned).unwrap();
    o.handle(Event::WaitingForReady).unwrap();
    assert_eq!(o.handle(Event::ReadySignalLost), Ok(Phase::Aborted));
}

#[test]
fn guest_cannot_start_before_ready() {
    let mut o = Orchestrator::new();
    o.handle(Event::ChannelsAllocated).unwrap();
    o.handle(Event::DriverSpawned).unwrap();
    assert_eq!(
        o.handle(Event::GuestStarted),
        Err(UnexpectedEvent { phase: Phase::DriverSpawned, event: Event::GuestStarted })
    );
    assert_eq!(o.phase(), Phase::DriverSpawned);
}

#[test]
fn drain_actions() {
    assert_eq!(drain_action(Some(0)), DrainAction::Finish);
    assert_eq!(drain_action(Some(12)), DrainAction::Forward);
    assert_eq!(drain_action(None), DrainAction::Abandon);
}

#[test]
fn trimmed_len_drops_trailing_line_ends() {
    assert_eq!(trimmed_len(b"guest: got echoer\n"), 17);
    assert_eq!(trimmed_len(b"abc\r\n"), 3);
    assert_eq!(trimmed_len(b"abc\n\r\n"), 3);
    assert_eq!(trimmed_len(b"a\nb"), 3);
    assert_eq!(trimmed_len(b"\n\n"), 0);
    assert_eq!(trimmed_len(b""), 0);
}
