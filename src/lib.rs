//! A VPN connection manager's core: the kill-switch firewall programs, the leak
//! detection logic and the connection lifecycle decisions.

pub mod address;
pub mod cli;
pub mod directives;
pub mod error;
pub mod executor;
pub mod firewall;
pub mod iptables;
pub mod leaks;
pub mod request;
pub mod lifecycle;
pub mod store;
pub mod text;

pub use address::{AddressFamily, IpAddress};
pub use cli::{get_config_dir, CommandIpInfo};
pub use directives::{exceptions_from_directives, DirectiveError, VpnDirective};
pub use error::{FirewallError, FirewallResult};
pub use executor::{Executor, IptablesBaseCommand, IptablesCommandExecutor};
pub use firewall::{
    FirewallBackend, FirewallException, FirewallExceptionProtocol, FirewallExceptionProtocolError,
    FirewallExecutors, FirewallIdentifier, HostFacts,
};
pub use iptables::{get_backends, IpTablesFirewall, RuleCommand};
pub use leaks::{
    check_leaks, dns_probe_url, dns_servers_from_samples, generate_dns_leak_prefix,
    get_dns_leak_test_config, sorted_unique, DnsTestConfig, LeakCheckResult, LeakSnapshot,
};
pub use lifecycle::{
    find_interface, ConnectionAction, ConnectionEvent, ConnectionState, FailureReason,
    LifecycleController,
};
pub use request::{InternetRequester, RequestError, Requester};
pub use store::{AuthenticationResult, Store};
