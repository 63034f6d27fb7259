//! The command line: port specs, the positional shorthand, and the arguments of
//! `forward`.

use vstd::prelude::*;
use vstd::string::*;
use crate::ssh::{host_spec_of, parse_host_spec};
use crate::text::{
    all_ascii_digits, all_digits, parse_u16, spec_parse_u16, split_once, split_once_str,
    starts_with_char, str_equal,
};

verus! {

/// A command line that is refused before any work is done.
#[derive(Debug, Clone, Copy, PartialEq, Eq, Structural)]
pub enum CliError {
    /// The positional shorthand takes one or two arguments.
    TooManyArguments,
    /// The port spec of `forward` is neither `<remote>` nor `<remote>:<local>`.
    InvalidPortSpec,
}

/// What `parse_port_spec` yields for the text `s`: `<remote>` or `<remote>:<local>`,
/// split at the first `:`, both sides parsed as `u16`.
pub open spec fn port_spec_of(s: Seq<char>) -> Option<(u16, Option<u16>)> {
    match split_once(s, ':') {
        Some((a, b)) => match (spec_parse_u16(a), spec_parse_u16(b)) {
            (Some(remote), Some(local)) => Some((remote, Some(local))),
            _ => None,
        },
        None => match spec_parse_u16(s) {
            Some(remote) => Some((remote, None)),
            None => None,
        },
    }
}

/// Parses `<remote-port>` or `<remote-port>:<local-port>`.
pub fn parse_port_spec(spec: &str) -> (r: Option<(u16, Option<u16>)>)
    ensures
        r == port_spec_of(spec@),
{
    match split_once_str(spec, ':') {
        Some((a, b)) => {
            let remote = parse_u16(a);
            let local = parse_u16(b);
            match (remote, local) {
                (Some(x), Some(y)) => Some((x, Some(y))),
                _ => None,
            }
        },
        None => match parse_u16(spec) {
            Some(x) => Some((x, None)),
            None => None,
        },
    }
}

/// The subcommand that a single positional argument stands for: `forward` for a
/// port (all digits) or a port spec whose part before the first `:` is all
/// digits, `connect` otherwise.
pub open spec fn positional_command(a: Seq<char>) -> Seq<char> {
    if all_digits(a) {
        "forward"@
    } else {
        match split_once(a, ':') {
            Some((l, _)) => if all_digits(l) {
                "forward"@
            } else {
                "connect"@
            },
            None => "connect"@,
        }
    }
}

/// The full command line that the positional shorthand `args` stands for:
/// `<host-or-port>` alone, or `<host> <port-spec>`, which stands for
/// `forward <port-spec> <host>`.
pub open spec fn positional_line(args: Seq<Seq<char>>) -> Option<Seq<Seq<char>>> {
    if args.len() == 1 {
        Some(seq!["zport"@, positional_command(args[0]), args[0]])
    } else if args.len() == 2 {
        Some(seq!["zport"@, "forward"@, args[1], args[0]])
    } else {
        None
    }
}

/// The views of a sequence of strings.
pub open spec fn texts(v: Seq<String>) -> Seq<Seq<char>> {
    v.map_values(|s: String| s@)
}

/// Maps positional shorthand to subcommand arguments: `zport 8080` becomes
/// `zport forward 8080`, `zport myhost` becomes `zport connect myhost`,
/// `zport myhost 8080` becomes `zport forward 8080 myhost`.
pub fn map_positional(args: &[String]) -> (r: Result<Vec<String>, CliError>)
    ensures
        match r {
            Ok(v) => positional_line(texts(args@)) == Some(texts(v@)),
            Err(e) => positional_line(texts(args@)) is None && e == CliError::TooManyArguments,
        },
{
    let mut out: Vec<String> = Vec::new();
    out.push(String::from_str("zport"));
    if args.len() == 1 {
        let a = &args[0];
        if all_ascii_digits(a.as_str()) {
            out.push(String::from_str("forward"));
        } else {
            match split_once_str(a.as_str(), ':') {
                Some((l, _)) => {
                    if all_ascii_digits(l) {
                        out.push(String::from_str("forward"));
                    } else {
                        out.push(String::from_str("connect"));
                    }
                },
                None => {
                    out.push(String::from_str("connect"));
                },
            }
        }
        out.push(a.clone());
        assert(texts(out@) =~= positional_line(texts(args@)).unwrap());
        Ok(out)
    } else if args.len() == 2 {
        out.push(String::from_str("forward"));
        out.push(args[1].clone());
        out.push(args[0].clone());
        assert(texts(out@) =~= positional_line(texts(args@)).unwrap());
        Ok(out)
    } else {
        Err(CliError::TooManyArguments)
    }
}

/// The subcommand names that the command line takes as they are.
pub open spec fn is_subcommand(a: Seq<char>) -> bool {
    a == "connect"@ || a == "forward"@ || a == "ls"@ || a == "close"@ || a == "disconnect"@
        || a == "help"@
}

/// The arguments `raw` (program name first) use the positional shorthand: there is
/// a first argument, it is no subcommand name and it does not start with `-`.
pub open spec fn uses_shorthand(raw: Seq<Seq<char>>) -> bool {
    raw.len() > 1 && !is_subcommand(raw[1]) && !(raw[1].len() > 0 && raw[1][0] == '-')
}

/// The command line that the parser of subcommands is given for the process
/// arguments `raw`.
pub open spec fn command_line_of(raw: Seq<Seq<char>>) -> Option<Seq<Seq<char>>> {
    if uses_shorthand(raw) {
        positional_line(raw.subrange(1, raw.len() as int))
    } else {
        Some(raw)
    }
}

/// Whether `a` names a subcommand.
pub fn is_subcommand_name(a: &str) -> (r: bool)
    ensures
        r == is_subcommand(a@),
{
    str_equal(a, "connect") || str_equal(a, "forward") || str_equal(a, "ls") || str_equal(
        a,
        "close",
    ) || str_equal(a, "disconnect") || str_equal(a, "help")
}

/// A copy of each string of `v`.
fn copy_strings(v: &[String]) -> (r: Vec<String>)
    ensures
        r@ == v@,
{
    let mut r: Vec<String> = Vec::new();
    let mut i: usize = 0;
    while i < v.len()
        invariant
            i <= v@.len(),
            r@ =~= v@.subrange(0, i as int),
        decreases v@.len() - i,
    {
        r.push(v[i].clone());
        i = i + 1;
    }
    assert(v@.subrange(0, v@.len() as int) =~= v@);
    r
}

/// The arguments to hand to the parser of subcommands, given the process
/// arguments `raw` (program name first): the positional shorthand is rewritten
/// to its subcommand, anything else is passed on unchanged.
pub fn command_line(raw: &[String]) -> (r: Result<Vec<String>, CliError>)
    ensures
        match r {
            Ok(v) => command_line_of(texts(raw@)) == Some(texts(v@)),
            Err(e) => command_line_of(texts(raw@)) is None && e == CliError::TooManyArguments,
        },
{
    let n = raw.len();
    if n > 1 && !is_subcommand_name(raw[1].as_str()) && !starts_with_char(raw[1].as_str(), '-') {
        let rest = &raw[1..n];
        assert(texts(rest@) =~= texts(raw@).subrange(1, n as int));
        map_positional(rest)
    } else {
        let v = copy_strings(raw);
        Ok(v)
    }
}

/// The arguments of `forward` once the command line is read: the host and SSH
/// port (when a host spec was given), the remote port, and the local port.
pub struct ForwardRequest {
    pub host: Option<String>,
    pub ssh_port: Option<u16>,
    pub remote: u16,
    pub local: Option<u16>,
}

/// The remote and local ports that the port spec `s` of `forward` names: the
/// port spec, or else `s` as a bare port; `None` when neither reads.
pub open spec fn forward_ports_of(s: Seq<char>) -> Option<(u16, Option<u16>)> {
    match port_spec_of(s) {
        Some(ports) => Some(ports),
        None => match spec_parse_u16(s) {
            Some(remote) => Some((remote, None)),
            None => None,
        },
    }
}

/// Reads the arguments of `forward`: `port_spec` is `<remote>` or
/// `<remote>:<local>`, `host_spec` an optional `[user@]host[:ssh-port]`.
pub fn forward_request(port_spec: &str, host_spec: Option<&str>) -> (r: Result<
    ForwardRequest,
    CliError,
>)
    ensures
        match r {
            Ok(req) => {
                &&& forward_ports_of(port_spec@) == Some((req.remote, req.local))
                &&& match host_spec {
                    Some(h) => {
                        &&& req.host matches Some(host) && host@ == host_spec_of(h@).0
                        &&& req.ssh_port == Some(host_spec_of(h@).1)
                    },
                    None => req.host is None && req.ssh_port is None,
                }
            },
            Err(e) => forward_ports_of(port_spec@) is None && e == CliError::InvalidPortSpec,
        },
{
    let (host, ssh_port) = match host_spec {
        Some(h) => {
            let (name, port) = parse_host_spec(h);
            (Some(String::from_str(name)), Some(port))
        },
        None => (None, None),
    };
    match parse_port_spec(port_spec) {
        Some((remote, local)) => Ok(ForwardRequest { host, ssh_port, remote, local }),
        None => match parse_u16(port_spec) {
            Some(remote) => Ok(ForwardRequest { host, ssh_port, remote, local: None }),
            None => Err(CliError::InvalidPortSpec),
        },
    }
}

} // verus!
