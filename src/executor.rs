//! Executors run one invocation of the firewall tool each.

use vstd::prelude::*;
use crate::error::FirewallResult;

verus! {

/// Runs the firewall tool with the given arguments. Whether a run succeeds is decided by
/// the host, so the trait promises nothing about the result.
pub trait Executor {
    /// Runs the firewall tool once with `args`.
    fn execute(&self, args: Vec<String>) -> FirewallResult<()>;
}

/// The tool an iptables executor runs: `iptables` for IPv4 rules, `ip6tables` for IPv6.
#[derive(Debug, Clone, Copy, PartialEq, Eq, Structural)]
pub enum IptablesBaseCommand {
    Iptables,
    Ip6tables,
}

impl IptablesBaseCommand {
    /// The name of the tool.
    pub open spec fn command(self) -> Seq<char> {
        match self {
            IptablesBaseCommand::Iptables => "iptables"@,
            IptablesBaseCommand::Ip6tables => "ip6tables"@,
        }
    }

    /// The name of the tool, `iptables` or `ip6tables`.
    pub fn get_command(&self) -> (r: String)
        ensures
            r@ == self.command(),
    {
        match self {
            IptablesBaseCommand::Iptables => String::from_str("iptables"),
            IptablesBaseCommand::Ip6tables => String::from_str("ip6tables"),
        }
    }
}

/// An executor that runs `iptables` or `ip6tables` as a process.
#[derive(Debug, Clone, Copy, PartialEq, Eq, Structural)]
pub struct IptablesCommandExecutor(pub IptablesBaseCommand);

impl IptablesCommandExecutor {
    /// An executor that runs `base_command`.
    pub fn new(base_command: IptablesBaseCommand) -> (r: IptablesCommandExecutor)
        ensures
            r.0 == base_command,
    {
        IptablesCommandExecutor(base_command)
    }

    /// The tool this executor runs.
    pub fn get_base_command(&self) -> (r: IptablesBaseCommand)
        ensures
            r == self.0,
    {
        self.0
    }
}

} // verus!
