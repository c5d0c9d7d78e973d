//! The values a firewall backend works with: exceptions, protocols and identifiers, and
//! the capabilities that firewall backends offer.

use vstd::prelude::*;
use crate::address::IpAddress;
use crate::error::FirewallResult;
use crate::executor::Executor;
use crate::text::text_eq;

verus! {

/// A transport protocol of a firewall exception.
#[derive(Debug, Clone, Copy, PartialEq, Eq, Structural)]
pub enum FirewallExceptionProtocol {
    TCP,
    UDP,
}

/// The protocol text could not be read as a protocol.
#[derive(Debug, Clone, Copy, PartialEq, Eq, Structural)]
pub struct FirewallExceptionProtocolError;

/// The texts that read as a protocol: `tcp`, `TCP`, `udp` and `UDP`.
pub open spec fn protocol_of_text(s: Seq<char>) -> Option<FirewallExceptionProtocol> {
    if s == "udp"@ || s == "UDP"@ {
        Some(FirewallExceptionProtocol::UDP)
    } else if s == "tcp"@ || s == "TCP"@ {
        Some(FirewallExceptionProtocol::TCP)
    } else {
        None
    }
}

impl FirewallExceptionProtocol {
    /// The protocol's name in upper case.
    pub open spec fn name(self) -> Seq<char> {
        match self {
            FirewallExceptionProtocol::TCP => "TCP"@,
            FirewallExceptionProtocol::UDP => "UDP"@,
        }
    }

    /// The protocol's name in upper case, `TCP` or `UDP`.
    pub fn to_string(&self) -> (r: String)
        ensures
            r@ == self.name(),
    {
        match self {
            FirewallExceptionProtocol::TCP => String::from_str("TCP"),
            FirewallExceptionProtocol::UDP => String::from_str("UDP"),
        }
    }

    /// Reads a protocol: `udp` and `UDP` are UDP, `tcp` and `TCP` are TCP; any other
    /// text (other mixes of case among them) is an error.
    pub fn parse(s: &str) -> (r: Result<FirewallExceptionProtocol, FirewallExceptionProtocolError>)
        ensures
            r is Ok <==> protocol_of_text(s@) is Some,
            r is Ok ==> Some(r->Ok_0) == protocol_of_text(s@),
    {
        if text_eq(s, "udp") || text_eq(s, "UDP") {
            Ok(FirewallExceptionProtocol::UDP)
        } else if text_eq(s, "tcp") || text_eq(s, "TCP") {
            Ok(FirewallExceptionProtocol::TCP)
        } else {
            Err(FirewallExceptionProtocolError)
        }
    }
}

impl std::str::FromStr for FirewallExceptionProtocol {
    type Err = FirewallExceptionProtocolError;

    fn from_str(s: &str) -> Result<FirewallExceptionProtocol, FirewallExceptionProtocolError> {
        FirewallExceptionProtocol::parse(s)
    }
}

impl FirewallExceptionProtocolError {
    /// The message of the error.
    pub fn to_string(&self) -> (r: String)
        ensures
            r@ == "The protocol is invalid"@,
    {
        String::from_str("The protocol is invalid")
    }
}

/// An endpoint that the firewall lets traffic reach while everything else is blocked.
#[derive(Debug, Clone, Copy, PartialEq, Eq, Structural)]
pub struct FirewallException {
    pub host: IpAddress,
    pub port: u16,
    pub protocol: FirewallExceptionProtocol,
}

impl FirewallException {
    /// An exception for `host`, `port` and `protocol`.
    pub fn new(host: IpAddress, port: u16, protocol: FirewallExceptionProtocol) -> (r: FirewallException)
        ensures
            r == (FirewallException { host, port, protocol }),
    {
        FirewallException { host, port, protocol }
    }

    pub fn get_host(&self) -> (r: IpAddress)
        ensures
            r == self.host,
    {
        self.host
    }

    pub fn get_port(&self) -> (r: u16)
        ensures
            r == self.port,
    {
        self.port
    }

    pub fn get_protocol(&self) -> (r: FirewallExceptionProtocol)
        ensures
            r == self.protocol,
    {
        self.protocol
    }
}

/// The name that tells a firewall backend apart from all others.
#[derive(Debug)]
pub struct FirewallIdentifier {
    identifier: &'static str,
}

impl FirewallIdentifier {
    /// The identifier's name.
    pub closed spec fn view(&self) -> Seq<char> {
        self.identifier@
    }

    /// An identifier with the name `identifier`.
    pub fn new(identifier: &'static str) -> (r: FirewallIdentifier)
        ensures
            r@ == identifier@,
    {
        FirewallIdentifier { identifier }
    }

    /// The name of the identifier.
    pub fn as_str(&self) -> (r: &'static str)
        ensures
            r@ == self@,
    {
        self.identifier
    }
}

impl PartialEq for FirewallIdentifier {
    fn eq(&self, other: &FirewallIdentifier) -> (r: bool) {
        text_eq(self.identifier, other.identifier)
    }
}

impl vstd::std_specs::cmp::PartialEqSpecImpl for FirewallIdentifier {
    open spec fn obeys_eq_spec() -> bool {
        true
    }

    open spec fn eq_spec(&self, other: &FirewallIdentifier) -> bool {
        self@ == other@
    }
}

impl<'a> PartialEq<&'a str> for FirewallIdentifier {
    /// Whether the identifier's name is the given text.
    fn eq(&self, other: &&'a str) -> (r: bool) {
        text_eq(self.identifier, *other)
    }
}

impl<'a> vstd::std_specs::cmp::PartialEqSpecImpl<&'a str> for FirewallIdentifier {
    open spec fn obeys_eq_spec() -> bool {
        true
    }

    open spec fn eq_spec(&self, other: &&'a str) -> bool {
        self@ == (*other)@
    }
}

impl<'a> PartialEq<FirewallIdentifier> for &'a str {
    /// Whether the text is the identifier's name.
    fn eq(&self, other: &FirewallIdentifier) -> (r: bool) {
        text_eq(*self, other.identifier)
    }
}

impl<'a> vstd::std_specs::cmp::PartialEqSpecImpl<FirewallIdentifier> for &'a str {
    open spec fn obeys_eq_spec() -> bool {
        true
    }

    open spec fn eq_spec(&self, other: &FirewallIdentifier) -> bool {
        (*self)@ == other@
    }
}


/// What the application found out about the host: its operating system, named as
/// `std::env::consts::OS` names it, and the names of the tools it found on the search path.
pub struct HostFacts {
    pub os: String,
    pub tools_on_path: Vec<String>,
}

/// `name` is among the tools found on the search path.
pub open spec fn tool_found(host: HostFacts, name: Seq<char>) -> bool {
    exists|i: int| 0 <= i < host.tools_on_path@.len() && (#[trigger] host.tools_on_path@[i])@ == name
}

impl HostFacts {
    /// Whether `name` is among the tools found on the search path.
    pub fn has_tool(&self, name: &str) -> (r: bool)
        ensures
            r == tool_found(*self, name@),
    {
        let mut i: usize = 0;
        while i < self.tools_on_path.len()
            invariant
                i <= self.tools_on_path@.len(),
                forall|j: int| 0 <= j < i ==> (#[trigger] self.tools_on_path@[j])@ != name@,
            decreases self.tools_on_path@.len() - i,
        {
            if text_eq(self.tools_on_path[i].as_str(), name) {
                return true;
            }
            i = i + 1;
        }
        false
    }
}

/// Gives access to the executors of a backend: one for IPv4 rules, one for IPv6 rules.
pub trait FirewallExecutors<T: Executor, U: Executor> {
    /// The executor for IPv4 rules.
    fn get_executor_v4(&self) -> &T;
    /// The executor for IPv6 rules.
    fn get_executor_v6(&self) -> &U;
}

/// The operations of a firewall backend along a connection's lifecycle. What each one
/// issues is stated by the implementing backend.
pub trait FirewallBackend {
    /// The name of the backend, unique among all backends.
    fn get_identifier(&self) -> FirewallIdentifier;
    /// Whether the backend can be used on a host with the given facts.
    fn is_available(&self, host: &HostFacts) -> FirewallResult<bool>;
    /// Before connecting: block all traffic but that to the given exceptions.
    fn on_pre_connect(&mut self, exceptions: &[FirewallException]) -> FirewallResult<()>;
    /// After connecting: allow all outgoing traffic on the tunnel interface.
    fn on_post_connect(&mut self, interface_identifier: &str) -> FirewallResult<()>;
    /// After the connection ends: open the firewall again.
    fn on_disconnect(&mut self) -> FirewallResult<()>;
}

} // verus!
