//! The firewall exceptions that a VPN configuration asks for: one per `remote` directive,
//! with the protocol of the directive or, failing that, of the last `proto` directive.

use vstd::prelude::*;
use crate::address::IpAddress;
use crate::firewall::{protocol_of_text, FirewallException, FirewallExceptionProtocol};

verus! {

/// A directive of a VPN configuration file, as far as the firewall needs it.
pub enum VpnDirective {
    /// A server to connect to, with its port and protocol if given.
    Remote { host: IpAddress, port: Option<u16>, proto: Option<String> },
    /// The protocol of the servers that name none.
    Proto { p: String },
    /// Any other directive.
    Other,
}

/// Why a configuration gave no exceptions.
#[derive(Debug, Clone, Copy, PartialEq, Eq, Structural)]
pub enum DirectiveError {
    /// A `remote` directive names no port.
    MissingPort,
    /// A `remote` directive names no protocol, and no `proto` directive gives one.
    MissingProtocol,
    /// A protocol is neither TCP nor UDP.
    InvalidProtocol,
}

/// The protocol of the last `proto` directive, if any.
pub open spec fn default_protocol(ds: Seq<VpnDirective>) -> Option<Seq<char>>
    decreases ds.len(),
{
    if ds.len() == 0 {
        None
    } else {
        match ds.last() {
            VpnDirective::Proto { p } => Some(p@),
            _ => default_protocol(ds.drop_last()),
        }
    }
}

/// The exception of one server, given the default protocol.
pub open spec fn remote_exception(
    host: IpAddress,
    port: Option<u16>,
    proto: Option<Seq<char>>,
    default: Option<Seq<char>>,
) -> Result<FirewallException, DirectiveError> {
    let text = if proto is Some { proto } else { default };
    if port is None {
        Err(DirectiveError::MissingPort)
    } else if text is None {
        Err(DirectiveError::MissingProtocol)
    } else if protocol_of_text(text->Some_0) is None {
        Err(DirectiveError::InvalidProtocol)
    } else {
        Ok(FirewallException {
            host,
            port: port->Some_0,
            protocol: protocol_of_text(text->Some_0)->Some_0,
        })
    }
}

/// The exceptions of the servers in `ds`, in order, or the error of the first server that
/// gives none.
pub open spec fn directive_exceptions(ds: Seq<VpnDirective>, default: Option<Seq<char>>) -> Result<
    Seq<FirewallException>,
    DirectiveError,
>
    decreases ds.len(),
{
    if ds.len() == 0 {
        Ok(Seq::empty())
    } else {
        match directive_exceptions(ds.drop_last(), default) {
            Err(e) => Err(e),
            Ok(s) => match ds.last() {
                VpnDirective::Remote { host, port, proto } => {
                    let p = match proto {
                        Some(t) => Some(t@),
                        None => None,
                    };
                    match remote_exception(host, port, p, default) {
                        Ok(e) => Ok(s.push(e)),
                        Err(e) => Err(e),
                    }
                },
                _ => Ok(s),
            },
        }
    }
}

/// The protocol of the last `proto` directive.
fn find_default_protocol(ds: &Vec<VpnDirective>) -> (r: Option<&String>)
    ensures
        match r {
            Some(s) => default_protocol(ds@) == Some(s@),
            None => default_protocol(ds@) is None,
        },
{
    let mut found: Option<&String> = None;
    let mut i: usize = 0;
    while i < ds.len()
        invariant
            i <= ds@.len(),
            match found {
                Some(s) => default_protocol(ds@.take(i as int)) == Some(s@),
                None => default_protocol(ds@.take(i as int)) is None,
            },
        decreases ds@.len() - i,
    {
        assert(ds@.take(i + 1).drop_last() =~= ds@.take(i as int));
        match &ds[i] {
            VpnDirective::Proto { p } => {
                found = Some(p);
            },
            _ => {},
        }
        i = i + 1;
    }
    assert(ds@.take(i as int) =~= ds@);
    found
}

/// A prefix whose servers fail to give an exception decides the whole result.
proof fn lemma_error_persists(ds: Seq<VpnDirective>, k: int, default: Option<Seq<char>>)
    requires
        0 <= k <= ds.len(),
        directive_exceptions(ds.take(k), default) is Err,
    ensures
        directive_exceptions(ds, default) == directive_exceptions(ds.take(k), default),
    decreases ds.len() - k,
{
    if k < ds.len() {
        assert(ds.take(k + 1).drop_last() =~= ds.take(k));
        lemma_error_persists(ds, k + 1, default);
    } else {
        assert(ds.take(k) =~= ds);
    }
}

/// The exception of one server.
fn remote_to_exception(host: IpAddress, port: Option<u16>, proto: Option<&String>, default: Option<&String>) -> (r: Result<FirewallException, DirectiveError>)
    ensures
        r == remote_exception(
            host,
            port,
            match proto { Some(t) => Some(t@), None => None },
            match default { Some(t) => Some(t@), None => None },
        ),
{
    let port_value = match port {
        Some(n) => n,
        None => {
            return Err(DirectiveError::MissingPort);
        },
    };
    let text: &String = match proto {
        Some(t) => t,
        None => match default {
            Some(t) => t,
            None => {
                return Err(DirectiveError::MissingProtocol);
            },
        },
    };
    match FirewallExceptionProtocol::parse(text.as_str()) {
        Ok(protocol) => Ok(FirewallException { host, port: port_value, protocol }),
        Err(_) => Err(DirectiveError::InvalidProtocol),
    }
}

/// The firewall exceptions that the directives ask for: one per `remote` directive, in
/// order, with the directive's protocol or else that of the last `proto` directive.
pub fn exceptions_from_directives(ds: &Vec<VpnDirective>) -> (r: Result<Vec<FirewallException>, DirectiveError>)
    ensures
        match r {
            Ok(v) => directive_exceptions(ds@, default_protocol(ds@)) == Ok::<Seq<FirewallException>, DirectiveError>(v@),
            Err(e) => directive_exceptions(ds@, default_protocol(ds@)) == Err::<Seq<FirewallException>, DirectiveError>(e),
        },
{
    let default = find_default_protocol(ds);
    let ghost dflt = default_protocol(ds@);
    let mut out: Vec<FirewallException> = Vec::new();
    let mut i: usize = 0;
    while i < ds.len()
        invariant
            i <= ds@.len(),
            dflt == default_protocol(ds@),
            match default {
                Some(s) => dflt == Some(s@),
                None => dflt is None,
            },
            directive_exceptions(ds@.take(i as int), dflt) == Ok::<Seq<FirewallException>, DirectiveError>(out@),
        decreases ds@.len() - i,
    {
        assert(ds@.take(i + 1).drop_last() =~= ds@.take(i as int));
        assert(ds@.take(i + 1).last() == ds@[i as int]);
        match &ds[i] {
            VpnDirective::Remote { host, port, proto } => {
                let proto_ref: Option<&String> = match proto {
                    Some(t) => Some(t),
                    None => None,
                };
                match remote_to_exception(*host, *port, proto_ref, default) {
                    Ok(e) => {
                        out.push(e);
                    },
                    Err(e) => {
                        proof {
                            lemma_error_persists(ds@, i + 1, dflt);
                        }
                        return Err(e);
                    },
                }
            },
            _ => {},
        }
        i = i + 1;
    }
    assert(ds@.take(i as int) =~= ds@);
    Ok(out)
}

} // verus!
