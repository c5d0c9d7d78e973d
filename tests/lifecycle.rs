use linkage::{
    find_interface, ConnectionAction, ConnectionEvent, ConnectionState, FailureReason,
    LeakCheckResult, LifecycleController,
};

fn connect_until_interface(c: &mut LifecycleController) {
    assert!(matches!(c.handle(ConnectionEvent::Start { elevated: true }), ConnectionAction::CaptureBaseline));
    assert!(matches!(c.handle(ConnectionEvent::BaselineCaptured { ok: true }), ConnectionAction::PrepareExceptions));
    assert!(matches!(c.handle(ConnectionEvent::ExceptionsReady { ok: true }), ConnectionAction::CheckBackend));
    assert!(matches!(c.handle(ConnectionEvent::BackendChecked { available: true }), ConnectionAction::RunPreConnect));
    assert!(matches!(c.handle(ConnectionEvent::PreConnectDone { ok: true }), ConnectionAction::SpawnClient));
    assert_eq!(ConnectionState::AwaitingInterface, c.state());
}

#[test]
fn finds_the_announced_interface() {
    assert_eq!(Some("tun0".to_string()), find_interface("Mon Jan 1 net_iface_up: set tun0 up\n"));
    assert_eq!(Some("tun12".to_string()), find_interface("x net_iface_up: set tun12 up net_iface_up: set tun3 up"));
    assert_eq!(None, find_interface("net_iface_up: set tun up"));
    assert_eq!(None, find_interface("net_iface_up: set eth0 up"));
    assert_eq!(None, find_interface(""));
}

#[test]
fn full_connection_and_interrupt() {
    let mut c = LifecycleController::new();
    assert_eq!(ConnectionState::Idle, c.state());
    connect_until_interface(&mut c);
    assert!(matches!(c.handle(ConnectionEvent::ClientOutput { text: "starting".to_string() }), ConnectionAction::ReadClientOutput));
    match c.handle(ConnectionEvent::ClientOutput { text: "net_iface_up: set tun1 up".to_string() }) {
        ConnectionAction::RunPostConnect { interface } => assert_eq!("tun1", interface),
        other => panic!("unexpected action {:?}", other),
    }
    assert_eq!(ConnectionState::PostConnecting, c.state());
    assert!(matches!(c.handle(ConnectionEvent::PostConnectDone { ok: true }), ConnectionAction::CaptureAndCompare));
    let clean = LeakCheckResult { dns_leak: false, ip_leak: false };
    assert!(matches!(c.handle(ConnectionEvent::LeakCheckDone { ok: true, verdict: clean }), ConnectionAction::AwaitInterrupt));
    assert_eq!(ConnectionState::Connected, c.state());
    assert!(matches!(c.handle(ConnectionEvent::Interrupted), ConnectionAction::Teardown));
    assert_eq!(ConnectionState::Disconnecting, c.state());
    assert!(matches!(c.handle(ConnectionEvent::TeardownDone), ConnectionAction::Finish));
    assert_eq!(ConnectionState::Disconnected, c.state());
}

#[test]
fn leak_tears_down() {
    let mut c = LifecycleController::new();
    connect_until_interface(&mut c);
    c.handle(ConnectionEvent::ClientOutput { text: "net_iface_up: set tun0 up".to_string() });
    c.handle(ConnectionEvent::PostConnectDone { ok: true });
    let leak = LeakCheckResult { dns_leak: true, ip_leak: false };
    assert!(matches!(c.handle(ConnectionEvent::LeakCheckDone { ok: true, verdict: leak }), ConnectionAction::Teardown));
    assert_eq!(ConnectionState::LeakDetected, c.state());
}

#[test]
fn root_required_fails_without_teardown() {
    let mut c = LifecycleController::new();
    assert!(matches!(c.handle(ConnectionEvent::Start { elevated: false }), ConnectionAction::Finish));
    assert_eq!(ConnectionState::Failed(FailureReason::RootRequired), c.state());
    assert_eq!(3, FailureReason::RootRequired.exit_code());
    assert_eq!(1, FailureReason::FirewallFailed.exit_code());
}

#[test]
fn failures_tear_down() {
    let mut c = LifecycleController::new();
    c.handle(ConnectionEvent::Start { elevated: true });
    c.handle(ConnectionEvent::BaselineCaptured { ok: true });
    c.handle(ConnectionEvent::ExceptionsReady { ok: true });
    assert!(matches!(c.handle(ConnectionEvent::BackendChecked { available: false }), ConnectionAction::Teardown));
    assert_eq!(ConnectionState::Failed(FailureReason::FirewallBackendNotAvailable), c.state());

    let mut c = LifecycleController::new();
    connect_until_interface(&mut c);
    assert!(matches!(c.handle(ConnectionEvent::InterfaceTimeout), ConnectionAction::Teardown));
    assert_eq!(ConnectionState::Failed(FailureReason::InterfaceParseError), c.state());
    assert!(matches!(c.handle(ConnectionEvent::TeardownDone), ConnectionAction::Finish));
}

#[test]
fn events_out_of_place_change_nothing() {
    let mut c = LifecycleController::new();
    assert!(matches!(c.handle(ConnectionEvent::Interrupted), ConnectionAction::Nothing));
    assert!(matches!(c.handle(ConnectionEvent::ClientOutput { text: "net_iface_up: set tun0 up".to_string() }), ConnectionAction::Nothing));
    assert_eq!(ConnectionState::Idle, c.state());
}
