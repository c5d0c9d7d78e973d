//! The connection lifecycle: the decisions that sequence firewall transitions, the VPN
//! client and the leak checks. The embedding application performs each action and hands
//! back what came of it as the next event.

use vstd::prelude::*;
use crate::leaks::LeakCheckResult;

verus! {

/// The pattern of the client's announcement of its tunnel interface; group 1 is the name.
pub const INTERFACE_PATTERN: &'static str = "net_iface_up: set (tun[0-9]+) up";

/// A tunnel interface name: `tun` and one or more ASCII digits.
pub open spec fn is_tunnel_name(name: Seq<char>) -> bool {
    &&& name.len() > 3
    &&& name.take(3) == "tun"@
    &&& forall|k: int| 3 <= k < name.len() ==> '0' <= #[trigger] name[k] && name[k] <= '9'
}

/// The text that announces the tunnel interface `name`.
pub open spec fn announcement(name: Seq<char>) -> Seq<char> {
    "net_iface_up: set "@ + name + " up"@
}

/// `text` announces the tunnel interface `name` at position `i`.
pub open spec fn announces_at(text: Seq<char>, i: int, name: Seq<char>) -> bool {
    &&& is_tunnel_name(name)
    &&& 0 <= i
    &&& i + announcement(name).len() <= text.len()
    &&& text.subrange(i, i + announcement(name).len()) == announcement(name)
}

/// `text` announces some tunnel interface.
pub open spec fn has_announcement(text: Seq<char>) -> bool {
    exists|i: int, name: Seq<char>| announces_at(text, i, name)
}

/// `text` announces `name`, and no announcement starts further left.
pub open spec fn is_first_announcement(text: Seq<char>, name: Seq<char>) -> bool {
    exists|i: int|
        announces_at(text, i, name) && forall|j: int, other: Seq<char>| j < i ==> !announces_at(text, j, other)
}

/// Relies on the regex crate: `Regex::new` compiles the interface pattern (which is valid),
/// and `Regex::captures` gives the leftmost match, whose group 1 is the interface name.
#[verifier::external_body]
fn first_group(pattern: &str, text: &str) -> (r: Option<String>)
    requires
        pattern@ == INTERFACE_PATTERN@,
    ensures
        r is None <==> !has_announcement(text@),
        r is Some ==> is_first_announcement(text@, r->Some_0@),
{
    regex::Regex::new(pattern).unwrap().captures(text).map(|c| c[1].to_string())
}

/// The tunnel interface that a piece of the client's output announces, if any: the
/// leftmost announcement.
pub fn find_interface(text: &str) -> (r: Option<String>)
    ensures
        r is None <==> !has_announcement(text@),
        r is Some ==> is_first_announcement(text@, r->Some_0@),
{
    first_group(INTERFACE_PATTERN, text)
}

/// Why a connection attempt failed.
#[derive(Debug, Clone, Copy, PartialEq, Eq, Structural)]
pub enum FailureReason {
    /// The process does not run with elevated privilege.
    RootRequired,
    /// A leak test (addresses or resolvers) could not be completed.
    LeakTestFailed,
    /// The VPN configuration or the persisted exceptions could not be read.
    ConfigurationInvalid,
    /// The firewall backend cannot be used on this host.
    FirewallBackendNotAvailable,
    /// A firewall program failed.
    FirewallFailed,
    /// The client announced no tunnel interface in time.
    InterfaceParseError,
}

impl FailureReason {
    /// The exit code of the process after this failure: 3 when privilege is missing,
    /// 1 otherwise.
    pub fn exit_code(&self) -> (r: i32)
        ensures
            r == (if *self == FailureReason::RootRequired { 3i32 } else { 1i32 }),
    {
        match self {
            FailureReason::RootRequired => 3,
            _ => 1,
        }
    }
}

/// The states of a connection.
#[derive(Debug, Clone, Copy, PartialEq, Eq, Structural)]
pub enum ConnectionState {
    Idle,
    PreConnecting,
    AwaitingInterface,
    PostConnecting,
    Connected,
    LeakDetected,
    Disconnecting,
    Disconnected,
    Failed(FailureReason),
}

/// What came of the last action.
pub enum ConnectionEvent {
    /// A connection is asked for; whether the process runs elevated.
    Start { elevated: bool },
    /// The baseline snapshot (public addresses and resolvers) was taken, or failed.
    BaselineCaptured { ok: bool },
    /// The exceptions were read from the VPN configuration and the persisted list, or not.
    ExceptionsReady { ok: bool },
    /// Whether the firewall backend is available.
    BackendChecked { available: bool },
    /// The pre-connect program ran, or failed.
    PreConnectDone { ok: bool },
    /// The VPN client wrote `text`.
    ClientOutput { text: String },
    /// The client announced no interface in time.
    InterfaceTimeout,
    /// The post-connect program ran, or failed.
    PostConnectDone { ok: bool },
    /// The second snapshot was taken and compared with the baseline (`ok`), or failed.
    LeakCheckDone { ok: bool, verdict: LeakCheckResult },
    /// The user asked to disconnect.
    Interrupted,
    /// The teardown (disconnect program, client termination) was attempted.
    TeardownDone,
}

/// What the application does next.
#[derive(Debug)]
pub enum ConnectionAction {
    /// Take the baseline snapshot while the host still has its own route.
    CaptureBaseline,
    /// Read the exceptions from the VPN configuration and the persisted list.
    PrepareExceptions,
    /// Ask whether the firewall backend is available.
    CheckBackend,
    /// Run the pre-connect program with the exceptions.
    RunPreConnect,
    /// Start the VPN client and read its output.
    SpawnClient,
    /// Read more of the client's output.
    ReadClientOutput,
    /// Run the post-connect program for the tunnel interface.
    RunPostConnect { interface: String },
    /// Take the second snapshot and compare it with the baseline.
    CaptureAndCompare,
    /// Wait for the user to ask for a disconnect.
    AwaitInterrupt,
    /// Run the disconnect program and terminate the client.
    Teardown,
    /// Return to the caller.
    Finish,
    /// The event does not apply in this state.
    Nothing,
}

/// The transition table for every event but the client's output: the next state and
/// action.
pub open spec fn transition(s: ConnectionState, e: ConnectionEvent) -> (ConnectionState, ConnectionAction) {
    match (s, e) {
        (ConnectionState::Idle, ConnectionEvent::Start { elevated }) => if elevated {
            (ConnectionState::PreConnecting, ConnectionAction::CaptureBaseline)
        } else {
            (ConnectionState::Failed(FailureReason::RootRequired), ConnectionAction::Finish)
        },
        (ConnectionState::PreConnecting, ConnectionEvent::BaselineCaptured { ok }) => if ok {
            (ConnectionState::PreConnecting, ConnectionAction::PrepareExceptions)
        } else {
            (ConnectionState::Failed(FailureReason::LeakTestFailed), ConnectionAction::Teardown)
        },
        (ConnectionState::PreConnecting, ConnectionEvent::ExceptionsReady { ok }) => if ok {
            (ConnectionState::PreConnecting, ConnectionAction::CheckBackend)
        } else {
            (ConnectionState::Failed(FailureReason::ConfigurationInvalid), ConnectionAction::Teardown)
        },
        (ConnectionState::PreConnecting, ConnectionEvent::BackendChecked { available }) => if available {
            (ConnectionState::PreConnecting, ConnectionAction::RunPreConnect)
        } else {
            (ConnectionState::Failed(FailureReason::FirewallBackendNotAvailable), ConnectionAction::Teardown)
        },
        (ConnectionState::PreConnecting, ConnectionEvent::PreConnectDone { ok }) => if ok {
            (ConnectionState::AwaitingInterface, ConnectionAction::SpawnClient)
        } else {
            (ConnectionState::Failed(FailureReason::FirewallFailed), ConnectionAction::Teardown)
        },
        (ConnectionState::AwaitingInterface, ConnectionEvent::InterfaceTimeout) => (
            ConnectionState::Failed(FailureReason::InterfaceParseError),
            ConnectionAction::Teardown,
        ),
        (ConnectionState::PostConnecting, ConnectionEvent::PostConnectDone { ok }) => if ok {
            (ConnectionState::PostConnecting, ConnectionAction::CaptureAndCompare)
        } else {
            (ConnectionState::Failed(FailureReason::FirewallFailed), ConnectionAction::Teardown)
        },
        (ConnectionState::PostConnecting, ConnectionEvent::LeakCheckDone { ok, verdict }) => if !ok {
            (ConnectionState::Failed(FailureReason::LeakTestFailed), ConnectionAction::Teardown)
        } else if verdict.dns_leak || verdict.ip_leak {
            (ConnectionState::LeakDetected, ConnectionAction::Teardown)
        } else {
            (ConnectionState::Connected, ConnectionAction::AwaitInterrupt)
        },
        (ConnectionState::Connected, ConnectionEvent::Interrupted) => (
            ConnectionState::Disconnecting,
            ConnectionAction::Teardown,
        ),
        (ConnectionState::Disconnecting, ConnectionEvent::TeardownDone) => (
            ConnectionState::Disconnected,
            ConnectionAction::Finish,
        ),
        (ConnectionState::LeakDetected, ConnectionEvent::TeardownDone) => (
            ConnectionState::LeakDetected,
            ConnectionAction::Finish,
        ),
        (ConnectionState::Failed(r), ConnectionEvent::TeardownDone) => (
            ConnectionState::Failed(r),
            ConnectionAction::Finish,
        ),
        _ => (s, ConnectionAction::Nothing),
    }
}

/// The connection lifecycle controller: it owns the connection state and changes it only
/// through the transition table.
pub struct LifecycleController {
    state: ConnectionState,
}

impl LifecycleController {
    pub closed spec fn view(&self) -> ConnectionState {
        self.state
    }

    /// A controller in the idle state.
    pub fn new() -> (r: LifecycleController)
        ensures
            r@ == ConnectionState::Idle,
    {
        LifecycleController { state: ConnectionState::Idle }
    }

    /// The current state.
    pub fn state(&self) -> (r: ConnectionState)
        ensures
            r == self@,
    {
        self.state
    }

    /// Takes one event: moves to the next state and says what to do next. The client's
    /// output, while the interface is awaited, leads to the post-connect program for the
    /// first interface it announces, or else to reading on.
    pub fn handle(&mut self, event: ConnectionEvent) -> (r: ConnectionAction)
        ensures
            !(event is ClientOutput) ==> (final(self)@, r) == transition(old(self)@, event),
            event is ClientOutput && old(self)@ != ConnectionState::AwaitingInterface ==> (
                final(self)@ == old(self)@ && r is Nothing
            ),
            event is ClientOutput && old(self)@ == ConnectionState::AwaitingInterface ==> match r {
                ConnectionAction::RunPostConnect { interface } => {
                    &&& final(self)@ == ConnectionState::PostConnecting
                    &&& is_first_announcement(event->ClientOutput_text@, interface@)
                },
                ConnectionAction::ReadClientOutput => {
                    &&& final(self)@ == ConnectionState::AwaitingInterface
                    &&& !has_announcement(event->ClientOutput_text@)
                },
                _ => false,
            },
    {
        let s = self.state;
        let (next, action) = match (s, event) {
            (ConnectionState::AwaitingInterface, ConnectionEvent::ClientOutput { text }) => {
                match find_interface(text.as_str()) {
                    Some(interface) => (ConnectionState::PostConnecting, ConnectionAction::RunPostConnect { interface }),
                    None => (ConnectionState::AwaitingInterface, ConnectionAction::ReadClientOutput),
                }
            },
            (ConnectionState::Idle, ConnectionEvent::Start { elevated }) => if elevated {
                (ConnectionState::PreConnecting, ConnectionAction::CaptureBaseline)
            } else {
                (ConnectionState::Failed(FailureReason::RootRequired), ConnectionAction::Finish)
            },
            (ConnectionState::PreConnecting, ConnectionEvent::BaselineCaptured { ok }) => if ok {
                (ConnectionState::PreConnecting, ConnectionAction::PrepareExceptions)
            } else {
                (ConnectionState::Failed(FailureReason::LeakTestFailed), ConnectionAction::Teardown)
            },
            (ConnectionState::PreConnecting, ConnectionEvent::ExceptionsReady { ok }) => if ok {
                (ConnectionState::PreConnecting, ConnectionAction::CheckBackend)
            } else {
                (ConnectionState::Failed(FailureReason::ConfigurationInvalid), ConnectionAction::Teardown)
            },
            (ConnectionState::PreConnecting, ConnectionEvent::BackendChecked { available }) => if available {
                (ConnectionState::PreConnecting, ConnectionAction::RunPreConnect)
            } else {
                (ConnectionState::Failed(FailureReason::FirewallBackendNotAvailable), ConnectionAction::Teardown)
            },
            (ConnectionState::PreConnecting, ConnectionEvent::PreConnectDone { ok }) => if ok {
                (ConnectionState::AwaitingInterface, ConnectionAction::SpawnClient)
            } else {
                (ConnectionState::Failed(FailureReason::FirewallFailed), ConnectionAction::Teardown)
            },
            (ConnectionState::AwaitingInterface, ConnectionEvent::InterfaceTimeout) => (
                ConnectionState::Failed(FailureReason::InterfaceParseError),
                ConnectionAction::Teardown,
            ),
            (ConnectionState::PostConnecting, ConnectionEvent::PostConnectDone { ok }) => if ok {
                (ConnectionState::PostConnecting, ConnectionAction::CaptureAndCompare)
            } else {
                (ConnectionState::Failed(FailureReason::FirewallFailed), ConnectionAction::Teardown)
            },
            (ConnectionState::PostConnecting, ConnectionEvent::LeakCheckDone { ok, verdict }) => if !ok {
                (ConnectionState::Failed(FailureReason::LeakTestFailed), ConnectionAction::Teardown)
            } else if verdict.dns_leak || verdict.ip_leak {
                (ConnectionState::LeakDetected, ConnectionAction::Teardown)
            } else {
                (ConnectionState::Connected, ConnectionAction::AwaitInterrupt)
            },
            (ConnectionState::Connected, ConnectionEvent::Interrupted) => (
                ConnectionState::Disconnecting,
                ConnectionAction::Teardown,
            ),
            (ConnectionState::Disconnecting, ConnectionEvent::TeardownDone) => (
                ConnectionState::Disconnected,
                ConnectionAction::Finish,
            ),
            (ConnectionState::LeakDetected, ConnectionEvent::TeardownDone) => (
                ConnectionState::LeakDetected,
                ConnectionAction::Finish,
            ),
            (ConnectionState::Failed(r), ConnectionEvent::TeardownDone) => (
                ConnectionState::Failed(r),
                ConnectionAction::Finish,
            ),
            _ => (s, ConnectionAction::Nothing),
        };
        self.state = next;
        action
    }
}

/// Firewall teardown is never skipped: every transition out of a state in which the
/// firewall may have been touched into a failure, a detected leak or a disconnect asks for
/// the teardown. Only a missing privilege, checked before anything is touched, fails
/// without it.
pub proof fn lemma_failure_tears_down(s: ConnectionState, e: ConnectionEvent)
    requires
        s != ConnectionState::Idle,
        !(s is Failed),
        s != ConnectionState::LeakDetected,
        s != ConnectionState::Disconnecting,
        (transition(s, e).0 is Failed) || transition(s, e).0 == ConnectionState::LeakDetected
            || transition(s, e).0 == ConnectionState::Disconnecting,
    ensures
        transition(s, e).1 is Teardown,
{
}

} // verus!
