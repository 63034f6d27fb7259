//! What holds of the library as a whole: how the commands and parsers fit together.

use vstd::prelude::*;
use vstd::string::*;
use crate::cli::{port_spec_of, positional_command};
use crate::ssh::{host_spec_of, DEFAULT_SSH_PORT};
use crate::cmd::{
    chosen_host, close_of, connect_state, disconnect_of, forward_state, forward_target_of,
    forwards_of, ports_with, ssh_port_of, CmdError,
};
use crate::state::{Entry, StateView};
use crate::text::{
    all_digits, decimal, is_digit, is_first, is_last, lemma_decimal_digits,

    lemma_u16_decimal_roundtrip, rsplit_once, spec_parse_u16, split_once,
};

verus! {

/// A decimal numeral holds no `:`.
proof fn lemma_decimal_has_no_colon(n: nat)
    ensures
        forall|i: int| 0 <= i < decimal(n).len() ==> decimal(n)[i] != ':',
        decimal(n).len() > 0,
        is_digit(decimal(n).last()),
{
    lemma_decimal_digits(n);
    assert forall|i: int| 0 <= i < decimal(n).len() implies decimal(n)[i] != ':' by {
        assert(is_digit(decimal(n)[i]));
    }
    assert(is_digit(decimal(n)[decimal(n).len() - 1]));
}

/// A port written in decimal is read back as a port spec with no local port, and
/// `<remote>:<local>` written in decimal is read back as both ports.
pub proof fn law_port_spec_reads_back(remote: u16, local: u16)
    ensures
        port_spec_of(decimal(remote as nat)) == Some((remote, None::<u16>)),
        port_spec_of(decimal(remote as nat) + ":"@ + decimal(local as nat)) == Some(
            (remote, Some(local)),
        ),
{
    let r = decimal(remote as nat);
    let l = decimal(local as nat);
    lemma_decimal_has_no_colon(remote as nat);
    lemma_decimal_has_no_colon(local as nat);
    lemma_u16_decimal_roundtrip(remote);
    lemma_u16_decimal_roundtrip(local);
    assert(!exists|i: int| is_first(r, ':', i));
    reveal_strlit(":");
    let s = r + ":"@ + l;
    assert(s[r.len() as int] == ':');
    assert(is_first(s, ':', r.len() as int));
    let i = choose|i: int| is_first(s, ':', i);
    assert(i == r.len()) by {
        if i < r.len() {
            assert(s[i] == r[i]);
        }
    }
    assert(s.subrange(0, r.len() as int) =~= r);
    assert(s.subrange(r.len() as int + 1, s.len() as int) =~= l);
}

/// `host:port` with the port written in decimal reads back as that host and port,
/// whatever the host's text (brackets and colons in it included).
pub proof fn law_host_spec_reads_back(host: Seq<char>, port: u16)
    ensures
        host_spec_of(host + ":"@ + decimal(port as nat)) == (host, port),
{
    let d = decimal(port as nat);
    lemma_decimal_has_no_colon(port as nat);
    lemma_u16_decimal_roundtrip(port);
    reveal_strlit(":");
    let s = host + ":"@ + d;
    assert(s.last() == d.last());
    assert(s[host.len() as int] == ':');
    assert(is_last(s, ':', host.len() as int)) by {
        assert forall|j: int| host.len() < j < s.len() implies s[j] != ':' by {
            assert(s[j] == d[j - host.len() - 1]);
        }
    }
    let i = choose|i: int| is_last(s, ':', i);
    assert(i == host.len()) by {
        if i > host.len() {
            assert(s[i] == d[i - host.len() - 1]);
        }
    }
    assert(s.subrange(0, host.len() as int) =~= host);
    assert(s.subrange(host.len() as int + 1, s.len() as int) =~= d);
}

/// After `connect host:port`, `forward` with neither a host nor a port works on
/// that host, through that port (or, for port 22, the port recorded before).
pub proof fn law_connect_sets_forward_target(s: StateView, host: Seq<char>, port: u16)
    ensures
        forward_target_of(connect_state(s, host, port), None, None) == Ok::<
            (Seq<char>, u16),
            CmdError,
        >((host, if port != DEFAULT_SSH_PORT {
            port
        } else {
            ssh_port_of(s, host)
        })),
{
}

/// A forward just recorded is the host's entry for its local port, written in
/// decimal; the host's other forwards stay, other hosts are untouched, and the host
/// becomes the default host.
pub proof fn law_forward_records(
    s: StateView,
    host: Seq<char>,
    port: u16,
    local: u16,
    entry: Entry,
)
    ensures
        ({
            let t = forward_state(s, host, port, local, entry);
            &&& t.default_host == Some(host)
            &&& t.hosts.contains_key(host)
            &&& t.hosts[host].contains_key(decimal(local as nat))
            &&& t.hosts[host][decimal(local as nat)] == entry
            &&& forall|k: Seq<char>|
                k != decimal(local as nat) && forwards_of(s, host).contains_key(k) ==> (
                #[trigger] t.hosts[host].contains_key(k) && t.hosts[host][k] == forwards_of(
                    s,
                    host,
                )[k])
            &&& forall|h: Seq<char>|
                h != host ==> (#[trigger] t.hosts.contains_key(h) == s.hosts.contains_key(h)
                    && (s.hosts.contains_key(h) ==> t.hosts[h] == s.hosts[h]))
        }),
{
}

/// Closing a forward just recorded on a port that had none gives back its entry
/// and leaves the forwards as they were before it (a host that had no forwards is
/// dropped again).
pub proof fn law_close_undoes_forward(
    s: StateView,
    host: Seq<char>,
    port: u16,
    local: u16,
    entry: Entry,
)
    requires
        !forwards_of(s, host).contains_key(decimal(local as nat)),
        s.hosts.contains_key(host) ==> s.hosts[host].dom() != Set::<Seq<char>>::empty(),
    ensures
        ({
            let t = forward_state(s, host, port, local, entry);
            close_of(t, Some(host), local) == Ok::<
                (Seq<char>, u16, Entry, StateView),
                CmdError,
            >(
                (
                    host,
                    ssh_port_of(t, host),
                    entry,
                    StateView { default_host: Some(host), hosts: s.hosts, ports: t.ports },
                ),
            )
        }),
{
    let t = forward_state(s, host, port, local, entry);
    let key = decimal(local as nat);
    let f = forwards_of(s, host);
    assert(t.hosts[host].remove(key) =~= f);
    if s.hosts.contains_key(host) {
        assert(t.hosts.insert(host, f) =~= s.hosts);
    } else {
        assert(f.dom() =~= Set::<Seq<char>>::empty());
        assert(t.hosts.remove(host) =~= s.hosts);
    }
}

/// Closing a forward on a local port that the host has no forward on fails and
/// changes nothing; so does closing with no host named when there is no default host.
pub proof fn law_close_refuses_unknown(s: StateView, host: Option<Seq<char>>, local: u16)
    requires
        match chosen_host(s, host) {
            Some(h) => !forwards_of(s, h).contains_key(decimal(local as nat)),
            None => true,
        },
    ensures
        close_of(s, host, local) is Err,
{
}

/// After `disconnect` the host has no forwards and is not the default host; the
/// other hosts and the recorded ports are as before; and closing any forward on it
/// fails.
pub proof fn law_disconnect_forgets_host(s: StateView, host: Seq<char>, local: u16)
    ensures
        ({
            let r = disconnect_of(s, Some(host));
            &&& r is Ok
            &&& r->Ok_0.0 == host
            &&& r->Ok_0.2 == forwards_of(s, host)
            &&& !r->Ok_0.3.hosts.contains_key(host)
            &&& r->Ok_0.3.default_host != Some(host)
            &&& r->Ok_0.3.ports == s.ports
            &&& forall|h: Seq<char>|
                h != host ==> (#[trigger] r->Ok_0.3.hosts.contains_key(h)
                    == s.hosts.contains_key(h) && (s.hosts.contains_key(h)
                    ==> r->Ok_0.3.hosts[h] == s.hosts[h]))
            &&& close_of(r->Ok_0.3, Some(host), local) == Err::<
                (Seq<char>, u16, Entry, StateView),
                CmdError,
            >(CmdError::ForwardNotFound)
        }),
{
}

/// Connecting records a port other than 22 for the host, and the recorded port is
/// what later commands use for it.
pub proof fn law_connect_records_port(s: StateView, host: Seq<char>, port: u16)
    ensures
        port != DEFAULT_SSH_PORT ==> ssh_port_of(connect_state(s, host, port), host) == port,
        port == DEFAULT_SSH_PORT ==> connect_state(s, host, port).ports == s.ports,
{
}

/// A host named on the command line is the host `forward` works on, whatever the
/// default host; a port named with it is the port used.
pub proof fn law_named_host_is_forward_target(s: StateView, host: Seq<char>, port: Option<u16>)
    ensures
        forward_target_of(s, Some(host), port) is Ok,
        forward_target_of(s, Some(host), port)->Ok_0.0 == host,
        port matches Some(p) ==> forward_target_of(s, Some(host), port)->Ok_0.1 == p,
{
}

/// `disconnect` with no host named disconnects the default host, and succeeds when
/// there is one; with a host named it always succeeds, on that host.
pub proof fn law_disconnect_defaults_to_default_host(s: StateView, host: Seq<char>)
    ensures
        s.default_host matches Some(d) ==> disconnect_of(s, None) == disconnect_of(s, Some(d))
            && disconnect_of(s, None) is Ok,
        s.default_host is None ==> disconnect_of(s, None) == Err::<
            (Seq<char>, u16, Map<Seq<char>, Entry>, StateView),
            CmdError,
        >(CmdError::NoHost),
        disconnect_of(s, Some(host)) is Ok,
        disconnect_of(s, Some(host))->Ok_0.0 == host,
{
}

/// A host spec without a `:` names no port: all of it is the host, on port 22.
pub proof fn law_host_spec_without_colon(s: Seq<char>)
    requires
        forall|i: int| 0 <= i < s.len() ==> s[i] != ':',
    ensures
        host_spec_of(s) == (s, DEFAULT_SSH_PORT),
{
    assert(!exists|i: int| is_last(s, ':', i));
    assert(rsplit_once(s, ':') is None);
}

/// A single positional argument stands for `connect` when it holds no `:` and is
/// not all digits, and for `forward` when it is all digits.
pub proof fn law_single_argument_command(a: Seq<char>)
    ensures
        !all_digits(a) && (forall|i: int| 0 <= i < a.len() ==> a[i] != ':')
            ==> positional_command(a) == "connect"@,
        all_digits(a) ==> positional_command(a) == "forward"@,
{
    if forall|i: int| 0 <= i < a.len() ==> a[i] != ':' {
        assert(!exists|i: int| is_first(a, ':', i));
        assert(split_once(a, ':') is None);
    }
}

/// Closing a forward that the named host has succeeds, whatever the default host:
/// it gives back that forward's entry and the host's SSH port, removes exactly that
/// forward from the host, and leaves the default host and the ports as they were.
pub proof fn law_close_named_host(s: StateView, host: Seq<char>, local: u16)
    requires
        forwards_of(s, host).contains_key(decimal(local as nat)),
    ensures
        close_of(s, Some(host), local) is Ok,
        ({
            let (h, port, entry, t) = close_of(s, Some(host), local)->Ok_0;
            &&& h == host
            &&& port == ssh_port_of(s, host)
            &&& entry == forwards_of(s, host)[decimal(local as nat)]
            &&& forwards_of(t, host) == forwards_of(s, host).remove(decimal(local as nat))
            &&& t.default_host == s.default_host
            &&& t.ports == s.ports
            &&& forall|h2: Seq<char>|
                h2 != host ==> (#[trigger] t.hosts.contains_key(h2) == s.hosts.contains_key(h2)
                    && (s.hosts.contains_key(h2) ==> t.hosts[h2] == s.hosts[h2]))
        }),
{
    let key = decimal(local as nat);
    let t = close_of(s, Some(host), local)->Ok_0.3;
    let rest = s.hosts[host].remove(key);
    if rest.dom() == Set::<Seq<char>>::empty() {
        assert(rest =~= Map::<Seq<char>, Entry>::empty());
        assert(forwards_of(t, host) =~= rest);
    }
}

} // verus!
