use std::cell::RefCell;
use std::rc::Rc;
use std::str::FromStr;

use linkage::{
    get_backends, FirewallBackend, FirewallError, FirewallException, FirewallExceptionProtocol,
    FirewallExceptionProtocolError, FirewallExecutors, FirewallIdentifier, FirewallResult,
    HostFacts, IpAddress, IpTablesFirewall, IptablesBaseCommand, IptablesCommandExecutor, Executor,
};

/// An executor that records every command it is handed and fails on one chosen command.
#[derive(Clone, Default)]
struct Recorder {
    log: Rc<RefCell<Vec<Vec<String>>>>,
    fail_on: Option<Vec<String>>,
}

impl Recorder {
    fn failing_on(args: &[&str]) -> Recorder {
        Recorder { log: Rc::default(), fail_on: Some(strings(args)) }
    }

    fn commands(&self) -> Vec<Vec<String>> {
        self.log.borrow().clone()
    }
}

impl Executor for Recorder {
    fn execute(&self, args: Vec<String>) -> FirewallResult<()> {
        self.log.borrow_mut().push(args.clone());
        if self.fail_on.as_ref() == Some(&args) {
            Err(FirewallError::IptablesError(None))
        } else {
            Ok(())
        }
    }
}

fn strings(args: &[&str]) -> Vec<String> {
    args.iter().map(|a| a.to_string()).collect()
}

fn base_pre_connect() -> Vec<Vec<String>> {
    vec![
        strings(&["-P", "INPUT", "DROP"]),
        strings(&["-P", "OUTPUT", "DROP"]),
        strings(&["-P", "FORWARD", "DROP"]),
        strings(&["-A", "INPUT", "-m", "state", "--state", "RELATED,ESTABLISHED", "-j", "ACCEPT"]),
        strings(&["-A", "INPUT", "-m", "state", "--state", "INVALID", "-j", "DROP"]),
        strings(&["-A", "OUTPUT", "-m", "state", "--state", "RELATED,ESTABLISHED", "-j", "ACCEPT"]),
        strings(&["-A", "OUTPUT", "-m", "state", "--state", "INVALID", "-j", "DROP"]),
        strings(&["-A", "INPUT", "-i", "lo", "-j", "ACCEPT"]),
        strings(&["-A", "OUTPUT", "-o", "lo", "-j", "ACCEPT"]),
        strings(&["-N", "in_accept"]),
        strings(&["-A", "INPUT", "-m", "state", "--state", "NEW,UNTRACKED", "-j", "in_accept"]),
        strings(&["-N", "out_accept"]),
        strings(&["-A", "OUTPUT", "-m", "state", "--state", "NEW,UNTRACKED", "-j", "out_accept"]),
    ]
}

fn disconnect_commands() -> Vec<Vec<String>> {
    vec![
        strings(&["-P", "INPUT", "ACCEPT"]),
        strings(&["-P", "OUTPUT", "ACCEPT"]),
        strings(&["-P", "FORWARD", "ACCEPT"]),
        strings(&["-F"]),
        strings(&["-X", "in_accept"]),
        strings(&["-X", "out_accept"]),
    ]
}

fn allow(network: &str, proto: &str, port: &str) -> Vec<String> {
    strings(&["-A", "out_accept", "-d", network, "-p", proto, "-m", proto, "--dport", port, "-j", "ACCEPT"])
}

#[test]
fn test_iptables_base_command_new() {
    assert_eq!(
        IptablesCommandExecutor(IptablesBaseCommand::Iptables),
        IptablesCommandExecutor::new(IptablesBaseCommand::Iptables)
    );
    assert_eq!(String::from("ip6tables"), IptablesBaseCommand::Ip6tables.get_command());
}

#[test]
fn test_iptables_base_command_get_command() {
    assert_eq!(String::from("iptables"), IptablesBaseCommand::Iptables.get_command());
    assert_eq!(String::from("ip6tables"), IptablesBaseCommand::Ip6tables.get_command());
}

#[test]
fn test_get_identifier() {
    let f = IpTablesFirewall::new(Recorder::default(), Recorder::default());
    assert_eq!(FirewallIdentifier::new("iptables"), f.get_identifier());
}

fn host(os: &str, tools: &[&str]) -> HostFacts {
    HostFacts { os: os.to_string(), tools_on_path: strings(tools) }
}

#[test]
fn test_is_available() -> FirewallResult<()> {
    let f = IpTablesFirewall::new(Recorder::default(), Recorder::default());
    assert!(f.is_available(&host("linux", &["ip6tables", "iptables"]))?);
    Ok(())
}

#[test]
fn unavailable_without_linux_or_tool() {
    let v4 = Recorder::default();
    let f = IpTablesFirewall::new(v4.clone(), Recorder::default());
    assert!(!f.is_available(&host("windows", &["iptables"])).unwrap());
    assert!(!f.is_available(&host("linux", &["ip6tables"])).unwrap());
    assert!(!f.is_available(&host("linux", &[])).unwrap());
    assert!(v4.commands().is_empty());
}

#[test]
fn test_on_pre_connect() {
    let v4 = Recorder::default();
    let v6 = Recorder::default();
    let mut f = IpTablesFirewall::new(v4.clone(), v6.clone());
    f.on_pre_connect(&[
        FirewallException::new(IpAddress::V4(0x0101_0101), 1337, FirewallExceptionProtocol::TCP),
        FirewallException::new(IpAddress::V4(0x7f00_0001), 4200, FirewallExceptionProtocol::UDP),
        FirewallException::new(
            IpAddress::V6(0x2001_0db8_85a3_0000_0000_8a2e_0370_7334),
            2020,
            FirewallExceptionProtocol::UDP,
        ),
    ])
    .unwrap();
    let mut expected_v4 = base_pre_connect();
    expected_v4.push(allow("1.1.1.1/32", "tcp", "1337"));
    expected_v4.push(allow("127.0.0.1/32", "udp", "4200"));
    let mut expected_v6 = base_pre_connect();
    expected_v6.push(allow("2001:db8:85a3::8a2e:370:7334/128", "udp", "2020"));
    assert_eq!(expected_v4, v4.commands());
    assert_eq!(expected_v6, v6.commands());
}

#[test]
fn pre_connect_routes_exceptions_by_family() {
    let v4 = Recorder::default();
    let v6 = Recorder::default();
    let mut f = IpTablesFirewall::new(v4.clone(), v6.clone());
    f.on_pre_connect(&[
        FirewallException::new(IpAddress::V4(0x0101_0101), 1337, FirewallExceptionProtocol::TCP),
        FirewallException::new(IpAddress::V4(0x7f00_0001), 4200, FirewallExceptionProtocol::UDP),
        FirewallException::new(
            IpAddress::V6(0x2001_0db8_0000_0000_0000_0000_0000_0001),
            2020,
            FirewallExceptionProtocol::UDP,
        ),
    ])
    .unwrap();
    let v4_rules: Vec<Vec<String>> = v4.commands().into_iter().filter(|c| c.len() > 2 && c[2] == "-d").collect();
    let v6_rules: Vec<Vec<String>> = v6.commands().into_iter().filter(|c| c.len() > 2 && c[2] == "-d").collect();
    assert_eq!(
        v4_rules,
        vec![allow("1.1.1.1/32", "tcp", "1337"), allow("127.0.0.1/32", "udp", "4200")]
    );
    assert_eq!(v6_rules, vec![allow("2001:db8::1/128", "udp", "2020")]);
}

#[test]
fn pre_connect_denies_before_allowing() {
    let v4 = Recorder::default();
    let v6 = Recorder::default();
    let mut f = IpTablesFirewall::new(v4.clone(), v6.clone());
    f.on_pre_connect(&[FirewallException::new(IpAddress::V4(0x0a00_0001), 443, FirewallExceptionProtocol::TCP)])
        .unwrap();
    let cmds = v4.commands();
    let last_deny = cmds.iter().rposition(|c| c[0] == "-P" && c[2] == "DROP").unwrap();
    let first_allow = cmds.iter().position(|c| c.len() > 2 && c[2] == "-d").unwrap();
    assert!(last_deny < first_allow);
    assert_eq!(allow("10.0.0.1/32", "tcp", "443"), cmds[first_allow]);
}

#[test]
fn pre_connect_stops_at_first_failure() {
    let v4 = Recorder::default();
    let v6 = Recorder::failing_on(&["-P", "OUTPUT", "DROP"]);
    let mut f = IpTablesFirewall::new(v4.clone(), v6.clone());
    let r = f.on_pre_connect(&[FirewallException::new(IpAddress::V4(1), 1, FirewallExceptionProtocol::TCP)]);
    assert!(matches!(r, Err(FirewallError::IptablesError(None))));
    assert_eq!(v4.commands(), vec![strings(&["-P", "INPUT", "DROP"]), strings(&["-P", "OUTPUT", "DROP"])]);
    assert_eq!(v6.commands(), vec![strings(&["-P", "INPUT", "DROP"]), strings(&["-P", "OUTPUT", "DROP"])]);
}

#[test]
fn test_on_post_connect() {
    let v4 = Recorder::default();
    let v6 = Recorder::default();
    let mut f = IpTablesFirewall::new(v4.clone(), v6.clone());
    f.on_post_connect("tun1").unwrap();
    let expected = vec![strings(&["-A", "out_accept", "-o", "tun1", "-j", "ACCEPT"])];
    assert_eq!(expected, v4.commands());
    assert_eq!(expected, v6.commands());
}

#[test]
fn post_connect_skips_ipv6_when_ipv4_fails() {
    let v4 = Recorder::failing_on(&["-A", "out_accept", "-o", "tun1", "-j", "ACCEPT"]);
    let v6 = Recorder::default();
    let mut f = IpTablesFirewall::new(v4.clone(), v6.clone());
    assert!(matches!(f.on_post_connect("tun1"), Err(FirewallError::IptablesError(None))));
    assert_eq!(1, v4.commands().len());
    assert!(v6.commands().is_empty());
}

#[test]
fn test_on_disconnect() {
    let v4 = Recorder::default();
    let v6 = Recorder::default();
    let mut f = IpTablesFirewall::new(v4.clone(), v6.clone());
    f.on_disconnect().unwrap();
    assert_eq!(disconnect_commands(), v4.commands());
    assert_eq!(disconnect_commands(), v6.commands());
}

#[test]
fn disconnect_twice_repeats_the_same_teardown() {
    let v4 = Recorder::default();
    let v6 = Recorder::default();
    let mut f = IpTablesFirewall::new(v4.clone(), v6.clone());
    f.on_disconnect().unwrap();
    f.on_disconnect().unwrap();
    let mut twice = disconnect_commands();
    twice.extend(disconnect_commands());
    assert_eq!(twice, v4.commands());
    assert_eq!(twice, v6.commands());
}

#[test]
fn test_executor_execute_for() {
    let v4 = Recorder::default();
    let v6 = Recorder::failing_on(&["-X", "in_accept"]);
    let mut f = IpTablesFirewall::new(v4.clone(), v6.clone());
    assert!(f.on_disconnect().is_err());
    assert_eq!(v4.commands(), disconnect_commands()[..5].to_vec());
    assert_eq!(v6.commands(), disconnect_commands()[..5].to_vec());
}

#[test]
fn test_firewall_identifier_partialeq_pointer_str() {
    assert!(FirewallIdentifier::new("imagine") == "imagine");
    assert_eq!(FirewallIdentifier::new("imagine"), "imagine");
    assert!(FirewallIdentifier::new("lol") != "imagine");
    assert_ne!(FirewallIdentifier::new("lol"), "imagine");
}

#[test]
fn test_pointer_str_partialeq_firewall_identifier() {
    assert_eq!("imagine", FirewallIdentifier::new("imagine"));
    assert_eq!("imagine", FirewallIdentifier::new("imagine"));
    assert_ne!("imagine", FirewallIdentifier::new("lol"));
}

#[test]
fn test_firewall_exception_new() {
    assert_eq!(
        FirewallException { host: IpAddress::V4(0x7f00_0001), port: 1337, protocol: FirewallExceptionProtocol::TCP },
        FirewallException::new(IpAddress::V4(0x7f00_0001), 1337, FirewallExceptionProtocol::TCP)
    );
}

#[test]
fn firewall_exception_getters() {
    let e = FirewallException::new(IpAddress::V6(1), 53, FirewallExceptionProtocol::UDP);
    assert_eq!(IpAddress::V6(1), e.get_host());
    assert_eq!(53, e.get_port());
    assert_eq!(FirewallExceptionProtocol::UDP, e.get_protocol());
}

#[test]
fn test_firewall_exception_protocol_error_format() {
    assert_eq!("The protocol is invalid", FirewallExceptionProtocolError.to_string())
}

#[test]
fn protocol_names() {
    assert_eq!("TCP", FirewallExceptionProtocol::TCP.to_string());
    assert_eq!("UDP", FirewallExceptionProtocol::UDP.to_string());
}

#[test]
fn test_firewall_exception_protocol_error_from_str() {
    assert_eq!(FirewallExceptionProtocol::UDP, FirewallExceptionProtocol::from_str("udp").unwrap());
    assert_eq!(FirewallExceptionProtocol::UDP, FirewallExceptionProtocol::from_str("UDP").unwrap());
    assert_eq!(FirewallExceptionProtocol::TCP, FirewallExceptionProtocol::from_str("tcp").unwrap());
    assert_eq!(FirewallExceptionProtocol::TCP, FirewallExceptionProtocol::from_str("TCP").unwrap());

    assert_eq!(FirewallExceptionProtocolError, FirewallExceptionProtocol::from_str("Udp").err().unwrap());
    assert_eq!(FirewallExceptionProtocolError, FirewallExceptionProtocol::from_str("uDp").err().unwrap());
    assert_eq!(FirewallExceptionProtocolError, FirewallExceptionProtocol::from_str("udP").err().unwrap());

    assert_eq!(FirewallExceptionProtocolError, FirewallExceptionProtocol::from_str("Tcp").err().unwrap());
    assert_eq!(FirewallExceptionProtocolError, FirewallExceptionProtocol::from_str("tCp").err().unwrap());
    assert_eq!(FirewallExceptionProtocolError, FirewallExceptionProtocol::from_str("tcP").err().unwrap());
}

#[test]
fn test_all_backends() {
    let backends = get_backends(Recorder::default(), Recorder::default());
    assert_eq!(backends.len(), 1);
    assert_eq!(backends.get(0).unwrap().get_identifier(), "iptables");
    assert!(backends.get(1).is_none());
}

#[test]
fn backend_exposes_its_executors() {
    let mut f = IpTablesFirewall::new(Recorder::default(), Recorder::default());
    f.on_post_connect("tun7").unwrap();
    let expected = vec![strings(&["-A", "out_accept", "-o", "tun7", "-j", "ACCEPT"])];
    assert_eq!(expected, f.get_executor_v4().commands());
    assert_eq!(expected, f.get_executor_v6().commands());
}

#[test]
fn iptables_executor_keeps_its_tool() {
    let e = IptablesCommandExecutor::new(IptablesBaseCommand::Ip6tables);
    assert_eq!(IptablesBaseCommand::Ip6tables, e.get_base_command());
}
