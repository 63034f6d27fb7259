//! The `ssh` invocations, and the decisions taken between them: which local port
//! to use, how long to wait for a connection, which process listens on a port.

use vstd::prelude::*;
use vstd::string::*;
use crate::cli::texts;
use crate::text::{
    contains_text, contains_str, decimal, decimal_string, ends_with_char, parse_u16, rsplit_once,
    rsplit_once_str, spec_parse_u16,
};

verus! {

/// The SSH port used when a host spec names none.
pub const DEFAULT_SSH_PORT: u16 = 22;

/// What `parse_host_spec` yields for `[user@]host[:port]`: a spec that ends in `]`
/// (a bare bracketed IPv6 address) is all host; otherwise the text after the last
/// `:` is the port when it parses as `u16`; else the whole spec is the host and the
/// port is 22.
pub open spec fn host_spec_of(s: Seq<char>) -> (Seq<char>, u16) {
    if s.len() > 0 && s.last() == ']' {
        (s, DEFAULT_SSH_PORT)
    } else {
        match rsplit_once(s, ':') {
            Some((host, port)) => match spec_parse_u16(port) {
                Some(p) => (host, p),
                None => (s, DEFAULT_SSH_PORT),
            },
            None => (s, DEFAULT_SSH_PORT),
        }
    }
}

/// Parses `[user@]host[:port]`, with IPv6 addresses in brackets like `[::1]` or `[::1]:2235`.
pub fn parse_host_spec<'a>(spec: &'a str) -> (r: (&'a str, u16))
    ensures
        (r.0@, r.1) == host_spec_of(spec@),
{
    if ends_with_char(spec, ']') {
        return (spec, DEFAULT_SSH_PORT);
    }
    match rsplit_once_str(spec, ':') {
        Some((host, port_str)) => match parse_u16(port_str) {
            Some(port) => (host, port),
            None => (spec, DEFAULT_SSH_PORT),
        },
        None => (spec, DEFAULT_SSH_PORT),
    }
}

/// Whether connections are multiplexed through a ControlMaster: on every platform
/// but Windows, whose OpenSSH ControlMaster is broken (there each forward gets its
/// own `ssh -L` process). `windows` says whether the program is built for Windows
/// (`cfg!(windows)`), which the library's code cannot ask.
pub fn cm_available(windows: bool) -> (r: bool)
    ensures
        r == !windows,
{
    !windows
}

/// Options given to every `ssh` invocation.
pub open spec fn common_opts() -> Seq<Seq<char>> {
    seq!["-o"@, "StrictHostKeyChecking=accept-new"@]
}

/// The arguments of every `ssh` invocation for SSH port `port`: the common
/// options, and `-p <port>` unless the port is 22. Whether the invocation may ask
/// for a password is left to the caller.
pub open spec fn ssh_base_args(port: u16) -> Seq<Seq<char>> {
    if port != DEFAULT_SSH_PORT {
        common_opts() + seq!["-p"@, decimal(port as nat)]
    } else {
        common_opts()
    }
}

/// The arguments of an `ssh` invocation that goes through the ControlMaster
/// socket `sock` of `host`; the master is already authenticated, so no password
/// is asked for.
pub open spec fn ssh_cm_args(host: Seq<char>, port: u16, sock: Seq<char>) -> Seq<Seq<char>> {
    ssh_base_args(port) + seq!["-o"@, "BatchMode=yes"@, "-S"@, sock, host]
}

/// The arguments that start the ControlMaster of `host` on the socket `sock`.
pub open spec fn master_args(host: Seq<char>, port: u16, sock: Seq<char>) -> Seq<Seq<char>> {
    ssh_base_args(port) + seq!["-o"@, "BatchMode=yes"@, "-N"@, "-M"@, "-S"@, sock, host]
}

/// `<local>:localhost:<remote>`, the argument of `-L`.
pub open spec fn forward_spec_text(local: Seq<char>, remote: u16) -> Seq<char> {
    local + ":localhost:"@ + decimal(remote as nat)
}

/// The arguments of a standalone `ssh -L` process for the forward from `local` to
/// `remote`; `background` adds `-f` (Windows, where the process backgrounds itself
/// after authenticating).
pub open spec fn spawn_forward_args(
    host: Seq<char>,
    port: u16,
    local: u16,
    remote: u16,
    background: bool,
) -> Seq<Seq<char>> {
    ssh_base_args(port) + (if background {
        seq!["-f"@]
    } else {
        Seq::<Seq<char>>::empty()
    }) + seq!["-L"@, forward_spec_text(decimal(local as nat), remote), "-N"@, host]
}

/// Adds `s` to the end of `v`.
fn push_str(v: &mut Vec<String>, s: &str)
    ensures
        texts(final(v)@) == texts(old(v)@).push(s@),
{
    v.push(String::from_str(s));
    assert(texts(v@) =~= texts(old(v)@).push(s@));
}

/// The common options and, unless the port is 22, `-p <port>`.
pub fn ssh_base(port: u16) -> (r: Vec<String>)
    ensures
        texts(r@) == ssh_base_args(port),
{
    let mut r: Vec<String> = Vec::new();
    push_str(&mut r, "-o");
    push_str(&mut r, "StrictHostKeyChecking=accept-new");
    assert(texts(r@) =~= common_opts());
    if port != DEFAULT_SSH_PORT {
        push_str(&mut r, "-p");
        let p = decimal_string(port as u32);
        push_str(&mut r, p.as_str());
        assert(texts(r@) =~= ssh_base_args(port));
    }
    r
}

/// The arguments of an invocation through the ControlMaster socket `sock` of `host`.
pub fn ssh_cm(host: &str, port: u16, sock: &str) -> (r: Vec<String>)
    ensures
        texts(r@) == ssh_cm_args(host@, port, sock@),
{
    let mut r = ssh_base(port);
    push_str(&mut r, "-o");
    push_str(&mut r, "BatchMode=yes");
    push_str(&mut r, "-S");
    push_str(&mut r, sock);
    push_str(&mut r, host);
    assert(texts(r@) =~= ssh_cm_args(host@, port, sock@));
    r
}

/// The arguments that start the ControlMaster of `host` on the socket `sock`.
pub fn ssh_master(host: &str, port: u16, sock: &str) -> (r: Vec<String>)
    ensures
        texts(r@) == master_args(host@, port, sock@),
{
    let mut r = ssh_base(port);
    push_str(&mut r, "-o");
    push_str(&mut r, "BatchMode=yes");
    push_str(&mut r, "-N");
    push_str(&mut r, "-M");
    push_str(&mut r, "-S");
    push_str(&mut r, sock);
    push_str(&mut r, host);
    assert(texts(r@) =~= master_args(host@, port, sock@));
    r
}

/// `<local>:localhost:<remote>`.
pub fn forward_spec(local: &str, remote: u16) -> (r: String)
    ensures
        r@ == forward_spec_text(local@, remote),
{
    let digits = decimal_string(remote as u32);
    String::from_str(local).concat(":localhost:").concat(digits.as_str())
}

/// The control command that adds the forward from `local` to `remote` to a
/// running ControlMaster: `-O forward -L <local>:localhost:<remote>`.
pub fn forward_control(local: u16, remote: u16) -> (r: Vec<String>)
    ensures
        texts(r@) == seq![
            "-O"@,
            "forward"@,
            "-L"@,
            forward_spec_text(decimal(local as nat), remote),
        ],
{
    let l = decimal_string(local as u32);
    let spec = forward_spec(l.as_str(), remote);
    let mut r: Vec<String> = Vec::new();
    push_str(&mut r, "-O");
    push_str(&mut r, "forward");
    push_str(&mut r, "-L");
    push_str(&mut r, spec.as_str());
    assert(texts(r@) =~= seq!["-O"@, "forward"@, "-L"@, forward_spec_text(decimal(local as nat), remote)]);
    r
}

/// The control command that removes the forward recorded under the local port
/// `local` (as stored) to `remote`: `-O cancel -L <local>:localhost:<remote>`.
pub fn cancel_control(local: &str, remote: u16) -> (r: Vec<String>)
    ensures
        texts(r@) == seq!["-O"@, "cancel"@, "-L"@, forward_spec_text(local@, remote)],
{
    let spec = forward_spec(local, remote);
    let mut r: Vec<String> = Vec::new();
    push_str(&mut r, "-O");
    push_str(&mut r, "cancel");
    push_str(&mut r, "-L");
    push_str(&mut r, spec.as_str());
    assert(texts(r@) =~= seq!["-O"@, "cancel"@, "-L"@, forward_spec_text(local@, remote)]);
    r
}

/// The control command that asks whether the ControlMaster is running: `-O check`.
pub fn check_control() -> (r: Vec<String>)
    ensures
        texts(r@) == seq!["-O"@, "check"@],
{
    let mut r: Vec<String> = Vec::new();
    push_str(&mut r, "-O");
    push_str(&mut r, "check");
    assert(texts(r@) =~= seq!["-O"@, "check"@]);
    r
}

/// The control command that shuts the ControlMaster down: `-O exit`.
pub fn exit_control() -> (r: Vec<String>)
    ensures
        texts(r@) == seq!["-O"@, "exit"@],
{
    let mut r: Vec<String> = Vec::new();
    push_str(&mut r, "-O");
    push_str(&mut r, "exit");
    assert(texts(r@) =~= seq!["-O"@, "exit"@]);
    r
}

/// The arguments of a standalone `ssh -L` process for the forward from `local` to
/// `remote` on `host`.
pub fn spawn_forward(host: &str, port: u16, local: u16, remote: u16, background: bool) -> (r: Vec<
    String,
>)
    ensures
        texts(r@) == spawn_forward_args(host@, port, local, remote, background),
{
    let mut r = ssh_base(port);
    let ghost base = texts(r@);
    if background {
        push_str(&mut r, "-f");
    }
    assert(texts(r@) =~= base + (if background {
        seq!["-f"@]
    } else {
        Seq::<Seq<char>>::empty()
    }));
    let l = decimal_string(local as u32);
    let spec = forward_spec(l.as_str(), remote);
    push_str(&mut r, "-L");
    push_str(&mut r, spec.as_str());
    push_str(&mut r, "-N");
    push_str(&mut r, host);
    assert(texts(r@) =~= spawn_forward_args(host@, port, local, remote, background));
    r
}

/// What to do after probing whether a local port is free.
#[derive(Debug, Clone, Copy, PartialEq, Eq, Structural)]
pub enum PortProbe {
    /// Forward from this local port.
    Use(u16),
    /// The local port that was asked for is in use.
    InUse(u16),
    /// Probe this port next.
    Probe(u16),
    /// Every port from the remote port up is in use.
    Exhausted,
}

/// The first local port to probe: the one asked for, else the remote port.
pub fn first_probe(remote: u16, local: Option<u16>) -> (r: u16)
    ensures
        r == match local {
            Some(l) => l,
            None => remote,
        },
{
    match local {
        Some(l) => l,
        None => remote,
    }
}

/// What `next_probe` decides.
pub open spec fn next_probe_of(local: Option<u16>, probed: u16, free: bool) -> PortProbe {
    match local {
        Some(l) => if free {
            PortProbe::Use(l)
        } else {
            PortProbe::InUse(l)
        },
        None => if free {
            PortProbe::Use(probed)
        } else if probed == 65535 {
            PortProbe::Exhausted
        } else {
            PortProbe::Probe((probed + 1) as u16)
        },
    }
}

/// Decides, once port `probed` was found free or in use, what comes next: a port
/// that was asked for is used if free and refused if not; otherwise the ports from
/// the remote port up are tried in turn until one is free.
pub fn next_probe(local: Option<u16>, probed: u16, free: bool) -> (r: PortProbe)
    ensures
        r == next_probe_of(local, probed, free),
{
    match local {
        Some(l) => if free {
            PortProbe::Use(l)
        } else {
            PortProbe::InUse(l)
        },
        None => if free {
            PortProbe::Use(probed)
        } else if probed == 65535 {
            PortProbe::Exhausted
        } else {
            PortProbe::Probe(probed + 1)
        },
    }
}

/// The outcome of probing from port `from` up, when `free` says which ports are free.
pub open spec fn probe_run(local: Option<u16>, from: u16, free: spec_fn(u16) -> bool) -> PortProbe
    decreases 65536 - from,
{
    match next_probe_of(local, from, free(from)) {
        PortProbe::Probe(q) => if q > from {
            probe_run(local, q, free)
        } else {
            PortProbe::Exhausted
        },
        other => other,
    }
}

/// Probing from the remote port up settles on the lowest free port at or above it,
/// and gives up only when every such port is in use.
pub proof fn lemma_probe_run_finds_lowest_free(from: u16, free: spec_fn(u16) -> bool)
    ensures
        match probe_run(None, from, free) {
            PortProbe::Use(p) => from <= p && free(p) && forall|q: u16| from <= q < p ==> !#[trigger] free(q),
            PortProbe::Exhausted => forall|q: u16| from <= q ==> !#[trigger] free(q),
            _ => false,
        },
    decreases 65536 - from,
{
    if !free(from) && from < 65535 {
        lemma_probe_run_finds_lowest_free((from + 1) as u16, free);
        assert forall|q: u16| from <= q && q < from + 1 implies !#[trigger] free(q) by {
            assert(q == from);
        }
    } else if !free(from) {
        assert forall|q: u16| from <= q implies !#[trigger] free(q) by {
            assert(q == from);
        }
    }
}

/// A port that was asked for is used exactly when it is free.
pub proof fn lemma_probe_run_requested(l: u16, free: spec_fn(u16) -> bool)
    ensures
        probe_run(Some(l), l, free) == if free(l) {
            PortProbe::Use(l)
        } else {
            PortProbe::InUse(l)
        },
{
}

/// What to do after one more look at whether a connection is up.
#[derive(Debug, Clone, Copy, PartialEq, Eq, Structural)]
pub enum PollStep {
    /// The connection is up.
    Ready,
    /// Wait and look again.
    Wait,
    /// The connection did not come up in time.
    GiveUp,
}

/// How often `ensure_master` looks whether a new ControlMaster is up.
pub const MASTER_START_POLLS: u32 = 50;

/// How long `ensure_master` waits before each look, in milliseconds.
pub const MASTER_POLL_INTERVAL_MS: u64 = 100;

/// How often a backgrounded `ssh -L` is looked for among the listening sockets.
pub const FORWARD_START_POLLS: u32 = 60;

/// How long to wait before each such look, in milliseconds.
pub const FORWARD_POLL_INTERVAL_MS: u64 = 500;

/// How long a standalone `ssh -L` process is given before it is checked, in
/// milliseconds.
pub const SPAWN_SETTLE_MS: u64 = 500;

/// What `poll_step` decides.
pub open spec fn poll_step_of(looks: u32, limit: u32, up: bool) -> PollStep {
    if up {
        PollStep::Ready
    } else if looks >= limit {
        PollStep::GiveUp
    } else {
        PollStep::Wait
    }
}

/// Decides after the `looks`-th look (counting from 1), which found the
/// connection `up` or not, out of at most `limit` looks.
pub fn poll_step(looks: u32, limit: u32, up: bool) -> (r: PollStep)
    ensures
        r == poll_step_of(looks, limit, up),
{
    if up {
        PollStep::Ready
    } else if looks >= limit {
        PollStep::GiveUp
    } else {
        PollStep::Wait
    }
}

/// The outcome of looking from the `looks`-th look on, when `up(k)` says whether
/// the `k`-th look finds the connection up.
pub open spec fn poll_run(looks: u32, limit: u32, up: spec_fn(u32) -> bool) -> PollStep
    decreases limit - looks,
{
    match poll_step_of(looks, limit, up(looks)) {
        PollStep::Wait => if looks < limit {
            poll_run((looks + 1) as u32, limit, up)
        } else {
            PollStep::GiveUp
        },
        other => other,
    }
}

/// Looking from the first look on gives up exactly when none of the `limit` looks
/// (at least one) finds the connection up.
pub proof fn lemma_poll_run(looks: u32, limit: u32, up: spec_fn(u32) -> bool)
    requires
        1 <= looks <= limit,
    ensures
        (poll_run(looks, limit, up) == PollStep::GiveUp) <==> (forall|k: u32|
            looks <= k <= limit ==> !#[trigger] up(k)),
        poll_run(looks, limit, up) != PollStep::Wait,
    decreases limit - looks,
{
    if looks < limit && !up(looks) {
        lemma_poll_run((looks + 1) as u32, limit, up);
        assert((forall|k: u32| looks + 1 <= k <= limit ==> !#[trigger] up(k)) ==> (forall|k: u32|
            looks <= k <= limit ==> !#[trigger] up(k))) by {
            if forall|k: u32| looks + 1 <= k <= limit ==> !#[trigger] up(k) {
                assert forall|k: u32| looks <= k <= limit implies !#[trigger] up(k) by {
                    if k == looks {
                    } else {
                        assert(looks + 1 <= k);
                    }
                }
            }
        }
    } else if looks == limit && !up(looks) {
        assert forall|k: u32| looks <= k <= limit implies !#[trigger] up(k) by {
            assert(k == looks);
        }
    }
}

/// A program and its arguments.
pub struct ProgramCall {
    pub program: String,
    pub args: Vec<String>,
}

/// How to ask whether process `pid` is alive: `kill -0 <pid>`, or on Windows
/// `tasklist /FI "PID eq <pid>"` (whose output then has to mention the pid).
pub fn pid_alive_call(pid: u32, windows: bool) -> (r: ProgramCall)
    ensures
        windows ==> r.program@ == "tasklist"@ && texts(r.args@) == seq![
            "/FI"@,
            "PID eq "@ + decimal(pid as nat),
        ],
        !windows ==> r.program@ == "kill"@ && texts(r.args@) == seq!["-0"@, decimal(pid as nat)],
{
    let digits = decimal_string(pid);
    let mut args: Vec<String> = Vec::new();
    if windows {
        push_str(&mut args, "/FI");
        let filter = String::from_str("PID eq ").concat(digits.as_str());
        push_str(&mut args, filter.as_str());
        assert(texts(args@) =~= seq!["/FI"@, "PID eq "@ + decimal(pid as nat)]);
        ProgramCall { program: String::from_str("tasklist"), args }
    } else {
        push_str(&mut args, "-0");
        push_str(&mut args, digits.as_str());
        assert(texts(args@) =~= seq!["-0"@, decimal(pid as nat)]);
        ProgramCall { program: String::from_str("kill"), args }
    }
}

/// Whether the output of `tasklist` mentions the process `pid`.
pub fn tasklist_mentions(output: &str, pid: u32) -> (r: bool)
    ensures
        r == contains_text(output@, decimal(pid as nat)),
{
    let digits = decimal_string(pid);
    contains_str(output, digits.as_str())
}

/// How to stop process `pid`: `kill <pid>`, or on Windows `taskkill /F /PID <pid>`.
pub fn kill_call(pid: u32, windows: bool) -> (r: ProgramCall)
    ensures
        windows ==> r.program@ == "taskkill"@ && texts(r.args@) == seq![
            "/F"@,
            "/PID"@,
            decimal(pid as nat),
        ],
        !windows ==> r.program@ == "kill"@ && texts(r.args@) == seq![decimal(pid as nat)],
{
    let digits = decimal_string(pid);
    let mut args: Vec<String> = Vec::new();
    if windows {
        push_str(&mut args, "/F");
        push_str(&mut args, "/PID");
        push_str(&mut args, digits.as_str());
        assert(texts(args@) =~= seq!["/F"@, "/PID"@, decimal(pid as nat)]);
        ProgramCall { program: String::from_str("taskkill"), args }
    } else {
        push_str(&mut args, digits.as_str());
        assert(texts(args@) =~= seq![decimal(pid as nat)]);
        ProgramCall { program: String::from_str("kill"), args }
    }
}

} // verus!
