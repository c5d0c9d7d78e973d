//! The iptables firewall backend: the rule programs of the connection lifecycle, and a
//! runner that hands them to the IPv4 and IPv6 executors in order.

use vstd::prelude::*;
use crate::address::{AddressFamily, IpAddress};
use crate::error::{FirewallError, FirewallResult};
use crate::executor::Executor;
use crate::firewall::{
    FirewallBackend, FirewallException, FirewallExceptionProtocol, FirewallExecutors,
    FirewallIdentifier, HostFacts, tool_found,
};
use crate::text::{dec_string, dec_text, text_eq};

verus! {

/// One invocation of the firewall tool as issued: the family whose executor received it,
/// and its arguments.
pub type Issued = (AddressFamily, Seq<Seq<char>>);

/// One invocation of the firewall tool: the family whose executor runs it, and its
/// arguments.
pub struct RuleCommand {
    pub family: AddressFamily,
    pub args: Vec<String>,
}

impl RuleCommand {
    pub open spec fn view(&self) -> Issued {
        (self.family, self.args.deep_view())
    }
}

/// The view of a rule program.
pub open spec fn program_view(p: Seq<RuleCommand>) -> Seq<Issued> {
    p.map_values(|c: RuleCommand| c@)
}

/// A command run by both executors, the IPv4 one first.
pub open spec fn on_both(args: Seq<Seq<char>>) -> Seq<Issued> {
    seq![(AddressFamily::V4, args), (AddressFamily::V6, args)]
}

/// Sets the default policy of INPUT, OUTPUT and FORWARD to `target`.
pub open spec fn policy_program(target: Seq<char>) -> Seq<Issued> {
    on_both(seq!["-P"@, "INPUT"@, target])
        + on_both(seq!["-P"@, "OUTPUT"@, target])
        + on_both(seq!["-P"@, "FORWARD"@, target])
}

/// Accepts related and established traffic on `chain`, and drops invalid packets there.
pub open spec fn state_program(chain: Seq<char>) -> Seq<Issued> {
    on_both(seq!["-A"@, chain, "-m"@, "state"@, "--state"@, "RELATED,ESTABLISHED"@, "-j"@, "ACCEPT"@])
        + on_both(seq!["-A"@, chain, "-m"@, "state"@, "--state"@, "INVALID"@, "-j"@, "DROP"@])
}

/// Creates the chain `name` and sends new and untracked traffic of `chain` to it.
pub open spec fn accept_chain_program(chain: Seq<char>, name: Seq<char>) -> Seq<Issued> {
    on_both(seq!["-N"@, name])
        + on_both(seq!["-A"@, chain, "-m"@, "state"@, "--state"@, "NEW,UNTRACKED"@, "-j"@, name])
}

/// The part of the pre-connect program that does not depend on the exceptions: default
/// deny, related/established and invalid handling, loopback, and the two accept chains.
pub open spec fn pre_connect_base_program() -> Seq<Issued> {
    policy_program("DROP"@)
        + state_program("INPUT"@)
        + state_program("OUTPUT"@)
        + on_both(seq!["-A"@, "INPUT"@, "-i"@, "lo"@, "-j"@, "ACCEPT"@])
        + on_both(seq!["-A"@, "OUTPUT"@, "-o"@, "lo"@, "-j"@, "ACCEPT"@])
        + accept_chain_program("INPUT"@, "in_accept"@)
        + accept_chain_program("OUTPUT"@, "out_accept"@)
}

/// The protocol's name as the firewall tool takes it.
pub open spec fn protocol_token(p: FirewallExceptionProtocol) -> Seq<char> {
    match p {
        FirewallExceptionProtocol::TCP => "tcp"@,
        FirewallExceptionProtocol::UDP => "udp"@,
    }
}

/// The host of an exception as a single-address network.
pub open spec fn host_network(host: IpAddress) -> Seq<char> {
    match host {
        IpAddress::V4(_) => host.text() + "/32"@,
        IpAddress::V6(_) => host.text() + "/128"@,
    }
}

/// The allow-rule of one exception, for the executor of the exception's address family.
pub open spec fn exception_rule(e: FirewallException) -> Issued {
    (
        e.host.family(),
        seq![
            "-A"@, "out_accept"@, "-d"@, host_network(e.host), "-p"@, protocol_token(e.protocol),
            "-m"@, protocol_token(e.protocol), "--dport"@, dec_text(e.port as nat), "-j"@, "ACCEPT"@,
        ],
    )
}

/// The pre-connect program: the base program, then one allow-rule per exception, in the
/// order of the exceptions.
pub open spec fn pre_connect_program(exceptions: Seq<FirewallException>) -> Seq<Issued> {
    pre_connect_base_program() + exceptions.map_values(|e: FirewallException| exception_rule(e))
}

/// The post-connect program: allow all outgoing traffic on the tunnel interface.
pub open spec fn post_connect_program(interface: Seq<char>) -> Seq<Issued> {
    on_both(seq!["-A"@, "out_accept"@, "-o"@, interface, "-j"@, "ACCEPT"@])
}

/// The disconnect program: default accept, flush all rules, delete the two accept chains.
pub open spec fn disconnect_program() -> Seq<Issued> {
    policy_program("ACCEPT"@)
        + on_both(seq!["-F"@])
        + on_both(seq!["-X"@, "in_accept"@])
        + on_both(seq!["-X"@, "out_accept"@])
}

/// One command handed to an executor, with the executor's answer.
pub type Logged = (Issued, Result<(), FirewallError>);

/// The commands of a log, without the answers.
pub open spec fn commands_of(log: Seq<Logged>) -> Seq<Issued> {
    log.map_values(|e: Logged| e.0)
}

/// What a run of `program` after the log `before` leaves as log `after`, returning `r`:
/// - the commands handed over are the first ones of the program, in order, one at a time;
/// - every one of them but the last was answered with success;
/// - the run succeeds exactly when it handed over the whole program and every answer was a
///   success;
/// - when it fails, the last command handed over was answered with that very failure, and
///   nothing after it was handed over.
pub open spec fn ran(
    before: Seq<Logged>,
    program: Seq<Issued>,
    after: Seq<Logged>,
    r: Result<(), FirewallError>,
) -> bool {
    let n = after.len() - before.len();
    let new = after.subrange(before.len() as int, after.len() as int);
    &&& before.len() <= after.len() <= before.len() + program.len()
    &&& after.subrange(0, before.len() as int) == before
    &&& commands_of(new) == program.take(n)
    &&& forall|k: int| 0 <= k < n - 1 ==> (#[trigger] new[k]).1 is Ok
    &&& (r is Ok <==> (n == program.len() && forall|k: int| 0 <= k < n ==> (#[trigger] new[k]).1 is Ok))
    &&& (r is Err ==> n > 0 && new[n - 1].1 == r)
}

/// When every executor answers with success, a run hands over the whole program and
/// succeeds.
pub proof fn lemma_run_completes_on_success(
    before: Seq<Logged>,
    program: Seq<Issued>,
    after: Seq<Logged>,
    r: Result<(), FirewallError>,
)
    requires
        ran(before, program, after, r),
        forall|k: int| before.len() <= k < after.len() ==> (#[trigger] after[k]).1 is Ok,
    ensures
        r is Ok,
        commands_of(after.subrange(before.len() as int, after.len() as int)) == program,
        after.len() == before.len() + program.len(),
{
    let n = after.len() - before.len();
    let new = after.subrange(before.len() as int, after.len() as int);
    if r is Err {
        assert(new[n - 1] == after[before.len() + n - 1]);
    }
    assert forall|k: int| 0 <= k < n implies (#[trigger] new[k]).1 is Ok by {
        assert(new[k] == after[before.len() + k]);
    }
    assert(program.take(program.len() as int) =~= program);
}

/// Makes the owned arguments of a command from text tokens.
fn tokens(parts: &[&str]) -> (r: Vec<String>)
    ensures
        r.deep_view() == parts@.map_values(|p: &str| p@),
{
    let mut r: Vec<String> = Vec::new();
    let mut i: usize = 0;
    while i < parts.len()
        invariant
            i <= parts@.len(),
            r@.len() == i,
            forall|j: int| 0 <= j < i ==> #[trigger] r@[j]@ == parts@[j]@,
        decreases parts@.len() - i,
    {
        r.push(String::from_str(parts[i]));
        i = i + 1;
    }
    assert(r.deep_view() =~= parts@.map_values(|p: &str| p@));
    r
}

/// Copies the arguments of a command.
fn copy_args(args: &Vec<String>) -> (r: Vec<String>)
    ensures
        r.deep_view() == args.deep_view(),
{
    let mut r: Vec<String> = Vec::new();
    let mut i: usize = 0;
    while i < args.len()
        invariant
            i <= args@.len(),
            r@.len() == i,
            forall|j: int| 0 <= j < i ==> #[trigger] r@[j]@ == args@[j]@,
        decreases args@.len() - i,
    {
        r.push(args[i].clone());
        i = i + 1;
    }
    assert(r.deep_view() =~= args.deep_view());
    r
}

/// Appends `args` for both executors, the IPv4 one first.
fn push_both(program: &mut Vec<RuleCommand>, parts: &[&str])
    ensures
        program_view(final(program)@) == program_view(old(program)@)
            + on_both(parts@.map_values(|p: &str| p@)),
{
    program.push(RuleCommand { family: AddressFamily::V4, args: tokens(parts) });
    program.push(RuleCommand { family: AddressFamily::V6, args: tokens(parts) });
    assert(program_view(program@) =~= program_view(old(program)@)
        + on_both(parts@.map_values(|p: &str| p@)));
}

/// Appends the commands that set the default policy of the three chains to `target`.
fn push_policy(program: &mut Vec<RuleCommand>, target: &str)
    ensures
        program_view(final(program)@) == program_view(old(program)@) + policy_program(target@),
{
    push_both(program, &["-P", "INPUT", target]);
    push_both(program, &["-P", "OUTPUT", target]);
    push_both(program, &["-P", "FORWARD", target]);
    assert(program_view(program@) =~~= program_view(old(program)@) + policy_program(target@));
}

/// Appends the related/established and invalid handling of `chain`.
fn push_state(program: &mut Vec<RuleCommand>, chain: &str)
    ensures
        program_view(final(program)@) == program_view(old(program)@) + state_program(chain@),
{
    push_both(program, &["-A", chain, "-m", "state", "--state", "RELATED,ESTABLISHED", "-j", "ACCEPT"]);
    push_both(program, &["-A", chain, "-m", "state", "--state", "INVALID", "-j", "DROP"]);
    assert(program_view(program@) =~~= program_view(old(program)@) + state_program(chain@));
}

/// Appends the creation of the chain `name` and its hook into `chain`.
fn push_accept_chain(program: &mut Vec<RuleCommand>, chain: &str, name: &str)
    ensures
        program_view(final(program)@) == program_view(old(program)@) + accept_chain_program(chain@, name@),
{
    push_both(program, &["-N", name]);
    push_both(program, &["-A", chain, "-m", "state", "--state", "NEW,UNTRACKED", "-j", name]);
    assert(program_view(program@) =~~= program_view(old(program)@) + accept_chain_program(chain@, name@));
}

/// The pre-connect program without the exceptions.
fn pre_connect_base() -> (r: Vec<RuleCommand>)
    ensures
        program_view(r@) == pre_connect_base_program(),
{
    let mut p: Vec<RuleCommand> = Vec::new();
    push_policy(&mut p, "DROP");
    push_state(&mut p, "INPUT");
    push_state(&mut p, "OUTPUT");
    push_both(&mut p, &["-A", "INPUT", "-i", "lo", "-j", "ACCEPT"]);
    push_both(&mut p, &["-A", "OUTPUT", "-o", "lo", "-j", "ACCEPT"]);
    push_accept_chain(&mut p, "INPUT", "in_accept");
    push_accept_chain(&mut p, "OUTPUT", "out_accept");
    assert(program_view(p@) =~~= pre_connect_base_program());
    p
}

/// The allow-rule of one exception.
fn exception_command(e: &FirewallException) -> (r: RuleCommand)
    ensures
        r@ == exception_rule(*e),
{
    let proto = match e.protocol {
        FirewallExceptionProtocol::TCP => "tcp",
        FirewallExceptionProtocol::UDP => "udp",
    };
    let mut host = e.host.to_text();
    let family = e.host.get_family();
    match e.host {
        IpAddress::V4(_) => host.append("/32"),
        IpAddress::V6(_) => host.append("/128"),
    }
    let mut args = tokens(&["-A", "out_accept", "-d"]);
    assert(args.deep_view() =~~= seq!["-A"@, "out_accept"@, "-d"@]);
    args.push(host);
    args.push(String::from_str("-p"));
    args.push(String::from_str(proto));
    args.push(String::from_str("-m"));
    args.push(String::from_str(proto));
    args.push(String::from_str("--dport"));
    args.push(dec_string(e.port as u32));
    args.push(String::from_str("-j"));
    args.push(String::from_str("ACCEPT"));
    assert(host@ == host_network(e.host));
    assert(proto@ == protocol_token(e.protocol));
    let r = RuleCommand { family, args };
    assert(r@.1 =~~= exception_rule(*e).1);
    assert(r@ =~~= exception_rule(*e));
    r
}

/// The pre-connect program for `exceptions`.
pub fn pre_connect_commands(exceptions: &[FirewallException]) -> (r: Vec<RuleCommand>)
    ensures
        program_view(r@) == pre_connect_program(exceptions@),
{
    let mut p = pre_connect_base();
    let mut i: usize = 0;
    while i < exceptions.len()
        invariant
            i <= exceptions@.len(),
            program_view(p@) == pre_connect_base_program()
                + exceptions@.take(i as int).map_values(|e: FirewallException| exception_rule(e)),
        decreases exceptions@.len() - i,
    {
        let c = exception_command(&exceptions[i]);
        let ghost before = p@;
        let ghost cv = c@;
        assert(cv == exception_rule(exceptions@[i as int]));
        p.push(c);
        assert(program_view(p@) =~= program_view(before).push(cv));
        assert(exceptions@.take(i + 1) =~= exceptions@.take(i as int).push(exceptions@[i as int]));
        assert(exceptions@.take(i + 1).map_values(|e: FirewallException| exception_rule(e)) =~=
            exceptions@.take(i as int).map_values(|e: FirewallException| exception_rule(e)).push(exception_rule(exceptions@[i as int])));
        assert(program_view(p@) =~= pre_connect_base_program()
            + exceptions@.take(i + 1).map_values(|e: FirewallException| exception_rule(e)));
        i = i + 1;
    }
    assert(exceptions@.take(i as int) =~= exceptions@);
    p
}

/// The post-connect program for the tunnel interface `interface_identifier`.
pub fn post_connect_commands(interface_identifier: &str) -> (r: Vec<RuleCommand>)
    ensures
        program_view(r@) == post_connect_program(interface_identifier@),
{
    let mut p: Vec<RuleCommand> = Vec::new();
    push_both(&mut p, &["-A", "out_accept", "-o", interface_identifier, "-j", "ACCEPT"]);
    assert(program_view(p@) =~~= post_connect_program(interface_identifier@));
    p
}

/// The disconnect program.
pub fn disconnect_commands() -> (r: Vec<RuleCommand>)
    ensures
        program_view(r@) == disconnect_program(),
{
    let mut p: Vec<RuleCommand> = Vec::new();
    push_policy(&mut p, "ACCEPT");
    push_both(&mut p, &["-F"]);
    push_both(&mut p, &["-X", "in_accept"]);
    push_both(&mut p, &["-X", "out_accept"]);
    assert(program_view(p@) =~~= disconnect_program());
    p
}

/// The iptables backend: IPv4 rules go to `executor_v4`, IPv6 rules to `executor_v6`.
/// It keeps, as a ghost log, every command it has handed to an executor, in order.
pub struct IpTablesFirewall<T: Executor, U: Executor> {
    executor_v4: T,
    executor_v6: U,
    issued: Ghost<Seq<Logged>>,
}

impl<T: Executor, U: Executor> IpTablesFirewall<T, U> {
    /// Every command handed to an executor so far, with the family of that executor and
    /// the executor's answer.
    pub closed spec fn issued(&self) -> Seq<Logged> {
        self.issued@
    }

    /// The executor of IPv4 rules.
    pub closed spec fn v4(&self) -> T {
        self.executor_v4
    }

    /// The executor of IPv6 rules.
    pub closed spec fn v6(&self) -> U {
        self.executor_v6
    }

    /// A backend with the given executors that has issued nothing yet.
    pub fn new(executor_v4: T, executor_v6: U) -> (r: IpTablesFirewall<T, U>)
        ensures
            r.v4() == executor_v4,
            r.v6() == executor_v6,
            r.issued() == Seq::<Logged>::empty(),
    {
        IpTablesFirewall { executor_v4, executor_v6, issued: Ghost(Seq::empty()) }
    }

    /// Hands the commands of `program` to the executor of their family, in order, and
    /// stops at the first one that fails, returning its failure.
    pub fn run(&mut self, program: &Vec<RuleCommand>) -> (r: FirewallResult<()>)
        ensures
            ran(old(self).issued(), program_view(program@), final(self).issued(), r),
            final(self).v4() == old(self).v4(),
            final(self).v6() == old(self).v6(),
    {
        let ghost pv = program_view(program@);
        let ghost start = self.issued();
        let ghost mut done: Seq<Logged> = Seq::empty();
        let mut i: usize = 0;
        while i < program.len()
            invariant
                i <= program@.len(),
                pv == program_view(program@),
                start == old(self).issued(),
                self.issued() == start + done,
                done.len() == i,
                commands_of(done) == pv.take(i as int),
                forall|k: int| 0 <= k < i ==> (#[trigger] done[k]).1 is Ok,
                self.v4() == old(self).v4(),
                self.v6() == old(self).v6(),
            decreases program@.len() - i,
        {
            let family = program[i].family;
            let args = copy_args(&program[i].args);
            let ghost entry: Issued = (family, args.deep_view());
            let result = match family {
                AddressFamily::V4 => self.executor_v4.execute(args),
                AddressFamily::V6 => self.executor_v6.execute(args),
            };
            let ghost logged: Logged = (entry, result);
            self.issued = Ghost(self.issued@.push(logged));
            proof {
                assert(pv.take(i + 1) =~= pv.take(i as int).push(entry));
                assert(commands_of(done.push(logged)) =~= commands_of(done).push(entry));
                assert(self.issued() =~= start + done.push(logged));
            }
            match result {
                Ok(()) => {
                    proof {
                        done = done.push(logged);
                    }
                },
                Err(e) => {
                    proof {
                        let d2 = done.push(logged);
                        assert(self.issued().subrange(start.len() as int, self.issued().len() as int) =~= d2);
                        assert(self.issued().subrange(0, start.len() as int) =~= start);
                        assert(d2[i as int] == logged);
                    }
                    return Err(e);
                },
            }
            i = i + 1;
        }
        proof {
            assert(pv.take(i as int) =~= pv);
            assert(self.issued().subrange(start.len() as int, self.issued().len() as int) =~= done);
            assert(self.issued().subrange(0, start.len() as int) =~= start);
        }
        Ok(())
    }
}

impl<T: Executor, U: Executor> FirewallExecutors<T, U> for IpTablesFirewall<T, U> {
    fn get_executor_v4(&self) -> (r: &T)
        ensures
            *r == self.v4(),
    {
        &self.executor_v4
    }

    fn get_executor_v6(&self) -> (r: &U)
        ensures
            *r == self.v6(),
    {
        &self.executor_v6
    }
}

impl<T: Executor, U: Executor> FirewallBackend for IpTablesFirewall<T, U> {
    fn get_identifier(&self) -> (r: FirewallIdentifier)
        ensures
            r@ == "iptables"@,
    {
        FirewallIdentifier::new("iptables")
    }

    /// The iptables backend works on Linux, and only when `iptables` is on the search path.
    fn is_available(&self, host: &HostFacts) -> (r: FirewallResult<bool>)
        ensures
            r is Ok,
            r->Ok_0 == (host.os@ == "linux"@ && tool_found(*host, "iptables"@)),
    {
        let linux = text_eq(host.os.as_str(), "linux");
        let found = host.has_tool("iptables");
        Ok(linux && found)
    }

    /// Issues the pre-connect program: default deny on INPUT, OUTPUT and FORWARD,
    /// related/established and invalid handling, loopback, the two accept chains, then
    /// one allow-rule per exception to the executor of its address family. Stops at the
    /// first command that fails.
    fn on_pre_connect(&mut self, exceptions: &[FirewallException]) -> (r: FirewallResult<()>)
        ensures
            ran(old(self).issued(), pre_connect_program(exceptions@), final(self).issued(), r),
            final(self).v4() == old(self).v4(),
            final(self).v6() == old(self).v6(),
    {
        let program = pre_connect_commands(exceptions);
        self.run(&program)
    }

    /// Issues one rule to both executors that accepts all outgoing traffic on the tunnel
    /// interface.
    fn on_post_connect(&mut self, interface_identifier: &str) -> (r: FirewallResult<()>)
        ensures
            ran(old(self).issued(), post_connect_program(interface_identifier@), final(self).issued(), r),
            final(self).v4() == old(self).v4(),
            final(self).v6() == old(self).v6(),
    {
        let program = post_connect_commands(interface_identifier);
        self.run(&program)
    }

    /// Issues the disconnect program: default accept, flush, delete the accept chains. It
    /// does not depend on anything done before.
    fn on_disconnect(&mut self) -> (r: FirewallResult<()>)
        ensures
            ran(old(self).issued(), disconnect_program(), final(self).issued(), r),
            final(self).v4() == old(self).v4(),
            final(self).v6() == old(self).v6(),
    {
        let program = disconnect_commands();
        self.run(&program)
    }
}

/// All firewall backends, built on the given executors. There is one: iptables.
pub fn get_backends<T: Executor, U: Executor>(executor_v4: T, executor_v6: U) -> (r: Vec<IpTablesFirewall<T, U>>)
    ensures
        r@.len() == 1,
        r@[0].v4() == executor_v4,
        r@[0].v6() == executor_v6,
        r@[0].issued() == Seq::<Logged>::empty(),
{
    let mut v: Vec<IpTablesFirewall<T, U>> = Vec::new();
    v.push(IpTablesFirewall::new(executor_v4, executor_v6));
    v
}

/// A command that sets a default policy to deny.
pub open spec fn is_default_deny(args: Seq<Seq<char>>) -> bool {
    &&& args.len() == 3
    &&& args[0] == "-P"@
    &&& args[2] == "DROP"@
}

/// A command that allows outgoing traffic to one address.
pub open spec fn is_address_allow(args: Seq<Seq<char>>) -> bool {
    &&& args.len() >= 4
    &&& args[0] == "-A"@
    &&& args[1] == "out_accept"@
    &&& args[2] == "-d"@
}

/// A command that neither sets a default deny nor allows traffic to an address.
pub open spec fn is_neutral(c: Issued) -> bool {
    !is_default_deny(c.1) && !is_address_allow(c.1)
}

proof fn lemma_on_both_neutral(args: Seq<Seq<char>>)
    requires
        !is_default_deny(args),
        !is_address_allow(args),
    ensures
        forall|i: int| 0 <= i < on_both(args).len() ==> is_neutral(#[trigger] on_both(args)[i]),
{
}

proof fn lemma_neutral_concat(a: Seq<Issued>, b: Seq<Issued>)
    requires
        forall|i: int| 0 <= i < a.len() ==> is_neutral(#[trigger] a[i]),
        forall|i: int| 0 <= i < b.len() ==> is_neutral(#[trigger] b[i]),
    ensures
        forall|i: int| 0 <= i < (a + b).len() ==> is_neutral(#[trigger] (a + b)[i]),
{
    assert forall|i: int| 0 <= i < (a + b).len() implies is_neutral(#[trigger] (a + b)[i]) by {
        if i < a.len() {
            assert((a + b)[i] == a[i]);
        } else {
            assert((a + b)[i] == b[i - a.len()]);
        }
    }
}

/// All of the base program but its first six commands (the default deny) is neutral.
proof fn lemma_base_rest_neutral()
    ensures
        pre_connect_base_program().len() == 26,
        forall|i: int| 6 <= i < 26 ==> is_neutral(#[trigger] pre_connect_base_program()[i]),
{
    reveal_strlit("-P");
    reveal_strlit("-A");
    reveal_strlit("-N");
    reveal_strlit("out_accept");
    reveal_strlit("INPUT");
    reveal_strlit("OUTPUT");
    assert("INPUT"@.len() != "out_accept"@.len());
    assert("OUTPUT"@.len() != "out_accept"@.len());
    assert("-A"@[1] != "-P"@[1]);
    assert("-N"@[1] != "-P"@[1]);
    assert("-N"@[1] != "-A"@[1]);
    let s_in1 = seq!["-A"@, "INPUT"@, "-m"@, "state"@, "--state"@, "RELATED,ESTABLISHED"@, "-j"@, "ACCEPT"@];
    let s_in2 = seq!["-A"@, "INPUT"@, "-m"@, "state"@, "--state"@, "INVALID"@, "-j"@, "DROP"@];
    let s_out1 = seq!["-A"@, "OUTPUT"@, "-m"@, "state"@, "--state"@, "RELATED,ESTABLISHED"@, "-j"@, "ACCEPT"@];
    let s_out2 = seq!["-A"@, "OUTPUT"@, "-m"@, "state"@, "--state"@, "INVALID"@, "-j"@, "DROP"@];
    let lo_in = seq!["-A"@, "INPUT"@, "-i"@, "lo"@, "-j"@, "ACCEPT"@];
    let lo_out = seq!["-A"@, "OUTPUT"@, "-o"@, "lo"@, "-j"@, "ACCEPT"@];
    let n_in = seq!["-N"@, "in_accept"@];
    let h_in = seq!["-A"@, "INPUT"@, "-m"@, "state"@, "--state"@, "NEW,UNTRACKED"@, "-j"@, "in_accept"@];
    let n_out = seq!["-N"@, "out_accept"@];
    let h_out = seq!["-A"@, "OUTPUT"@, "-m"@, "state"@, "--state"@, "NEW,UNTRACKED"@, "-j"@, "out_accept"@];
    lemma_on_both_neutral(s_in1);
    lemma_on_both_neutral(s_in2);
    lemma_on_both_neutral(s_out1);
    lemma_on_both_neutral(s_out2);
    lemma_on_both_neutral(lo_in);
    lemma_on_both_neutral(lo_out);
    lemma_on_both_neutral(n_in);
    lemma_on_both_neutral(h_in);
    lemma_on_both_neutral(n_out);
    lemma_on_both_neutral(h_out);
    lemma_neutral_concat(on_both(s_in1), on_both(s_in2));
    lemma_neutral_concat(on_both(s_out1), on_both(s_out2));
    lemma_neutral_concat(on_both(n_in), on_both(h_in));
    lemma_neutral_concat(on_both(n_out), on_both(h_out));
    let rest = state_program("INPUT"@) + state_program("OUTPUT"@) + on_both(lo_in) + on_both(lo_out)
        + accept_chain_program("INPUT"@, "in_accept"@) + accept_chain_program("OUTPUT"@, "out_accept"@);
    lemma_neutral_concat(state_program("INPUT"@), state_program("OUTPUT"@));
    lemma_neutral_concat(state_program("INPUT"@) + state_program("OUTPUT"@), on_both(lo_in));
    lemma_neutral_concat(state_program("INPUT"@) + state_program("OUTPUT"@) + on_both(lo_in), on_both(lo_out));
    lemma_neutral_concat(
        state_program("INPUT"@) + state_program("OUTPUT"@) + on_both(lo_in) + on_both(lo_out),
        accept_chain_program("INPUT"@, "in_accept"@),
    );
    lemma_neutral_concat(
        state_program("INPUT"@) + state_program("OUTPUT"@) + on_both(lo_in) + on_both(lo_out)
            + accept_chain_program("INPUT"@, "in_accept"@),
        accept_chain_program("OUTPUT"@, "out_accept"@),
    );
    let b = pre_connect_base_program();
    assert(b =~= policy_program("DROP"@) + rest);
    assert forall|i: int| 6 <= i < 26 implies is_neutral(#[trigger] b[i]) by {
        assert(b[i] == rest[i - 6]);
    }
}

/// In the pre-connect program, default deny on INPUT, OUTPUT and FORWARD comes first, for
/// both families, and every command that issues a default deny comes before every command
/// that allows traffic to an exception's address.
pub proof fn lemma_default_deny_first(exceptions: Seq<FirewallException>)
    ensures
        pre_connect_program(exceptions).take(6) == policy_program("DROP"@),
        forall|i: int, j: int|
            0 <= i < pre_connect_program(exceptions).len() && 0 <= j < pre_connect_program(exceptions).len()
                && is_default_deny(#[trigger] pre_connect_program(exceptions)[i].1)
                && is_address_allow(#[trigger] pre_connect_program(exceptions)[j].1) ==> i < j,
{
    reveal_strlit("-P");
    reveal_strlit("-A");
    reveal_strlit("DROP");
    reveal_strlit("out_accept");
    let p = pre_connect_program(exceptions);
    let b = pre_connect_base_program();
    lemma_base_rest_neutral();
    assert(p.take(6) =~= policy_program("DROP"@));
    assert forall|i: int| 0 <= i < 6 implies !is_address_allow(#[trigger] b[i].1) by {
        assert(b[i] == policy_program("DROP"@)[i]);
    }
    assert forall|k: int| 0 <= k < exceptions.len() implies !is_default_deny(#[trigger] p[26 + k].1)
        && is_address_allow(p[26 + k].1) by {
        assert(p[26 + k] == exception_rule(exceptions[k]));
    }
    assert forall|i: int, j: int|
        0 <= i < p.len() && 0 <= j < p.len() && is_default_deny(#[trigger] p[i].1)
            && is_address_allow(#[trigger] p[j].1) implies i < j by {
        if i >= 26 {
            assert(!is_default_deny(p[26 + (i - 26)].1));
        } else if i >= 6 {
            assert(p[i] == b[i]);
            assert(is_neutral(b[i]));
        }
        if j < 26 {
            assert(p[j] == b[j]);
            if j >= 6 {
                assert(is_neutral(b[j]));
            }
        }
    }
}

/// Every allow-rule of an exception goes to the executor of the exception's address
/// family: after the base program, the pre-connect program holds exactly one rule per
/// exception, in order, each for the family of the exception's host.
pub proof fn lemma_exceptions_routed_by_family(exceptions: Seq<FirewallException>)
    ensures
        pre_connect_program(exceptions).len() == pre_connect_base_program().len() + exceptions.len(),
        forall|k: int| 0 <= k < exceptions.len() ==> {
            let c = #[trigger] pre_connect_program(exceptions)[pre_connect_base_program().len() + k];
            &&& c == exception_rule(exceptions[k])
            &&& c.0 == exceptions[k].host.family()
        },
        forall|j: int| 0 <= j < pre_connect_base_program().len()
            ==> !is_address_allow(#[trigger] pre_connect_program(exceptions)[j].1),
{
    reveal_strlit("-P");
    reveal_strlit("-A");
    let p = pre_connect_program(exceptions);
    let b = pre_connect_base_program();
    lemma_base_rest_neutral();
    assert forall|j: int| 0 <= j < 26 implies !is_address_allow(#[trigger] p[j].1) by {
        assert(p[j] == b[j]);
        if j < 6 {
            assert(b[j] == policy_program("DROP"@)[j]);
        } else {
            assert(is_neutral(b[j]));
        }
    }
}

/// Teardown does not depend on what was logged before. Take two teardowns after any two
/// logs (one after a full or partial pre-connect, one on a backend where pre-connect never
/// ran, or one right after another teardown): when the executors give the same answers to
/// the same commands, both hand over the same commands with the same answers, stop at the
/// same place and return the same result. So a second teardown, or one without a
/// pre-connect, fails only where a normal teardown would fail.
pub proof fn lemma_disconnect_independent_of_history(
    h1: Seq<Logged>,
    a1: Seq<Logged>,
    r1: Result<(), FirewallError>,
    h2: Seq<Logged>,
    a2: Seq<Logged>,
    r2: Result<(), FirewallError>,
)
    requires
        ran(h1, disconnect_program(), a1, r1),
        ran(h2, disconnect_program(), a2, r2),
        forall|k: int| 0 <= k < a1.len() - h1.len() && 0 <= k < a2.len() - h2.len()
            ==> (#[trigger] a1[h1.len() + k]).1 == a2[h2.len() + k].1,
    ensures
        a1.subrange(h1.len() as int, a1.len() as int) == a2.subrange(h2.len() as int, a2.len() as int),
        r1 == r2,
{
    let d = disconnect_program();
    let n1 = a1.len() - h1.len();
    let n2 = a2.len() - h2.len();
    let new1 = a1.subrange(h1.len() as int, a1.len() as int);
    let new2 = a2.subrange(h2.len() as int, a2.len() as int);
    assert forall|k: int| 0 <= k < n1 && 0 <= k < n2 implies (#[trigger] new1[k]).1 == new2[k].1 by {
        assert(new1[k] == a1[h1.len() + k]);
        assert(new2[k] == a2[h2.len() + k]);
    }
    if n1 < n2 {
        assert(new1[n1 - 1].1 == new2[n1 - 1].1);
        assert(false);
    }
    if n2 < n1 {
        assert(new1[n2 - 1].1 == new2[n2 - 1].1);
        assert(false);
    }
    assert forall|k: int| 0 <= k < n1 implies (#[trigger] new1[k]) == new2[k] by {
        assert(commands_of(new1)[k] == new1[k].0);
        assert(commands_of(new2)[k] == new2[k].0);
    }
    assert(new1 =~= new2);
    if r1 is Ok {
        assert(forall|k: int| 0 <= k < n2 ==> (#[trigger] new2[k]).1 is Ok);
        assert(r2 is Ok);
        assert(r1->Ok_0 == r2->Ok_0);
        assert(r1 == r2);
    } else {
        if r2 is Ok {
            assert(forall|k: int| 0 <= k < n1 ==> (#[trigger] new1[k]).1 is Ok);
            assert(false);
        }
        assert(new1[n1 - 1].1 == new2[n2 - 1].1);
    }
}

/// A model of one family's filter table: the default policy of each chain, the chains
/// that were created, and the appended rules.
pub struct FilterTable {
    pub policies: Map<Seq<char>, Seq<char>>,
    pub chains: Set<Seq<char>>,
    pub rules: Seq<Seq<Seq<char>>>,
}

/// What one command does to a filter table: `-P` sets a policy, `-F` flushes all rules,
/// `-N` creates a chain, `-X` deletes one, `-A` appends a rule.
pub open spec fn apply_command(t: FilterTable, args: Seq<Seq<char>>) -> FilterTable {
    if args.len() == 3 && args[0] == "-P"@ {
        FilterTable { policies: t.policies.insert(args[1], args[2]), chains: t.chains, rules: t.rules }
    } else if args.len() == 1 && args[0] == "-F"@ {
        FilterTable { policies: t.policies, chains: t.chains, rules: Seq::empty() }
    } else if args.len() == 2 && args[0] == "-N"@ {
        FilterTable { policies: t.policies, chains: t.chains.insert(args[1]), rules: t.rules }
    } else if args.len() == 2 && args[0] == "-X"@ {
        FilterTable { policies: t.policies, chains: t.chains.remove(args[1]), rules: t.rules }
    } else if args.len() >= 2 && args[0] == "-A"@ {
        FilterTable { policies: t.policies, chains: t.chains, rules: t.rules.push(args) }
    } else {
        t
    }
}

/// The table of `family` after the commands of `p` that go to that family's executor.
pub open spec fn apply_program(t: FilterTable, family: AddressFamily, p: Seq<Issued>) -> FilterTable
    decreases p.len(),
{
    if p.len() == 0 {
        t
    } else {
        let before = apply_program(t, family, p.drop_last());
        if p.last().0 == family {
            apply_command(before, p.last().1)
        } else {
            before
        }
    }
}

/// The open table: default accept on INPUT, OUTPUT and FORWARD, no rules, and neither of
/// the two accept chains.
pub open spec fn opened(t: FilterTable) -> FilterTable {
    FilterTable {
        policies: t.policies.insert("INPUT"@, "ACCEPT"@).insert("OUTPUT"@, "ACCEPT"@).insert("FORWARD"@, "ACCEPT"@),
        chains: t.chains.remove("in_accept"@).remove("out_accept"@),
        rules: Seq::empty(),
    }
}

/// Teardown is idempotent: on either family's table, whatever state it starts from (also
/// one that pre-connect never touched, or touched in part), the disconnect program leaves
/// the open table, and running it again changes nothing.
pub proof fn lemma_disconnect_idempotent(t: FilterTable, family: AddressFamily)
    ensures
        apply_program(t, family, disconnect_program()) == opened(t),
        apply_program(apply_program(t, family, disconnect_program()), family, disconnect_program())
            == apply_program(t, family, disconnect_program()),
{
    lemma_disconnect_opens(t, family);
    lemma_disconnect_opens(opened(t), family);
    let o = opened(t);
    assert(opened(o).policies =~= o.policies);
    assert(opened(o).chains =~= o.chains);
    assert(opened(o).rules =~= o.rules);
}

/// One more command of a program acts on the table only when it goes to that family.
proof fn lemma_apply_step(t: FilterTable, family: AddressFamily, p: Seq<Issued>, n: int)
    requires
        0 <= n < p.len(),
    ensures
        apply_program(t, family, p.take(n + 1)) == if p[n].0 == family {
            apply_command(apply_program(t, family, p.take(n)), p[n].1)
        } else {
            apply_program(t, family, p.take(n))
        },
{
    assert(p.take(n + 1).drop_last() =~= p.take(n));
    assert(p.take(n + 1).last() == p[n]);
}

proof fn lemma_disconnect_opens(t: FilterTable, family: AddressFamily)
    ensures
        apply_program(t, family, disconnect_program()) == opened(t),
{
    reveal_strlit("-P");
    reveal_strlit("-F");
    reveal_strlit("-X");
    reveal_strlit("-N");
    assert("-X"@[1] != "-N"@[1]);
    let d = disconnect_program();
    let s0 = seq!["-P"@, "INPUT"@, "ACCEPT"@];
    let s1 = seq!["-P"@, "OUTPUT"@, "ACCEPT"@];
    let s2 = seq!["-P"@, "FORWARD"@, "ACCEPT"@];
    let s3 = seq!["-F"@];
    let s4 = seq!["-X"@, "in_accept"@];
    let s5 = seq!["-X"@, "out_accept"@];
    assert(d =~= seq![
        (AddressFamily::V4, s0), (AddressFamily::V6, s0), (AddressFamily::V4, s1), (AddressFamily::V6, s1),
        (AddressFamily::V4, s2), (AddressFamily::V6, s2), (AddressFamily::V4, s3), (AddressFamily::V6, s3),
        (AddressFamily::V4, s4), (AddressFamily::V6, s4), (AddressFamily::V4, s5), (AddressFamily::V6, s5),
    ]);
    let t1 = apply_command(t, s0);
    let t2 = apply_command(t1, s1);
    let t3 = apply_command(t2, s2);
    let t4 = apply_command(t3, s3);
    let t5 = apply_command(t4, s4);
    let t6 = apply_command(t5, s5);
    assert(d.take(0) =~= Seq::<Issued>::empty());
    lemma_apply_step(t, family, d, 0);
    lemma_apply_step(t, family, d, 1);
    assert(apply_program(t, family, d.take(2)) == t1);
    lemma_apply_step(t, family, d, 2);
    lemma_apply_step(t, family, d, 3);
    assert(apply_program(t, family, d.take(4)) == t2);
    lemma_apply_step(t, family, d, 4);
    lemma_apply_step(t, family, d, 5);
    assert(apply_program(t, family, d.take(6)) == t3);
    lemma_apply_step(t, family, d, 6);
    lemma_apply_step(t, family, d, 7);
    assert(apply_program(t, family, d.take(8)) == t4);
    lemma_apply_step(t, family, d, 8);
    lemma_apply_step(t, family, d, 9);
    assert(apply_program(t, family, d.take(10)) == t5);
    lemma_apply_step(t, family, d, 10);
    lemma_apply_step(t, family, d, 11);
    assert(apply_program(t, family, d.take(12)) == t6);
    assert(d.take(12) =~= d);
    assert(t6.policies =~= opened(t).policies);
    assert(t6.chains =~= opened(t).chains);
}

} // verus!
