//! What each command decides and how it changes the state. Talking to `ssh`,
//! reading and writing the state file and printing are left to the caller.

use vstd::prelude::*;
use vstd::string::*;
use crate::ssh::DEFAULT_SSH_PORT;
use crate::state::{Entry, State, StateView, opt_text};
use crate::cli::texts;
use crate::ssh::{cancel_control, forward_spec_text};
use crate::strmap::{StrMap, keys_unique, pairs_to_map, has_key, lemma_pairs_insert, lemma_pairs_take_next};
use crate::text::{decimal, decimal_string, parse_u16, spec_parse_u16};

verus! {

/// Why a command cannot go on with the state it was given.
#[derive(Debug, Clone, Copy, PartialEq, Eq, Structural)]
pub enum CmdError {
    /// No host was named and no default host is recorded.
    NoHost,
    /// The host has no forward on the given local port.
    ForwardNotFound,
}

/// The SSH port recorded for `host`, or 22.
pub open spec fn ssh_port_of(s: StateView, host: Seq<char>) -> u16 {
    if s.ports.contains_key(host) {
        s.ports[host]
    } else {
        DEFAULT_SSH_PORT
    }
}

/// The named host, or else the default host.
pub open spec fn chosen_host(s: StateView, host: Option<Seq<char>>) -> Option<Seq<char>> {
    match host {
        Some(h) => Some(h),
        None => s.default_host,
    }
}

/// The ports map after using `port` for `host`: only ports other than 22 are kept.
pub open spec fn ports_with(s: StateView, host: Seq<char>, port: u16) -> Map<Seq<char>, u16> {
    if port != DEFAULT_SSH_PORT {
        s.ports.insert(host, port)
    } else {
        s.ports
    }
}

/// The state after `connect host:port`: the host becomes the default host, and a
/// port other than 22 is recorded for it.
pub open spec fn connect_state(s: StateView, host: Seq<char>, ssh_port: u16) -> StateView {
    StateView { default_host: Some(host), hosts: s.hosts, ports: ports_with(s, host, ssh_port) }
}

/// The host and SSH port that `forward` works on: the host named, else the default
/// host; the port given, else the one recorded for the host, else 22.
pub open spec fn forward_target_of(
    s: StateView,
    host: Option<Seq<char>>,
    ssh_port: Option<u16>,
) -> Result<(Seq<char>, u16), CmdError> {
    match chosen_host(s, host) {
        None => Err(CmdError::NoHost),
        Some(h) => Ok(
            (
                h,
                match ssh_port {
                    Some(p) => p,
                    None => ssh_port_of(s, h),
                },
            ),
        ),
    }
}

/// The forwards recorded for `host` (none when it has no entry).
pub open spec fn forwards_of(s: StateView, host: Seq<char>) -> Map<Seq<char>, Entry> {
    if s.hosts.contains_key(host) {
        s.hosts[host]
    } else {
        Map::empty()
    }
}

/// The state after a forward from local port `local` was set up on `host` through
/// SSH port `port`: the forward is recorded under the decimal text of `local`, the
/// port is recorded when it is not 22, and the host becomes the default host.
pub open spec fn forward_state(
    s: StateView,
    host: Seq<char>,
    port: u16,
    local: u16,
    entry: Entry,
) -> StateView {
    StateView {
        default_host: Some(host),
        hosts: s.hosts.insert(host, forwards_of(s, host).insert(decimal(local as nat), entry)),
        ports: ports_with(s, host, port),
    }
}

/// What `close` does: on the named or default host, removes the forward on local
/// port `local` and drops the host once it has no forward left. Gives the host, its
/// SSH port, the removed forward and the new state.
pub open spec fn close_of(s: StateView, host: Option<Seq<char>>, local: u16) -> Result<
    (Seq<char>, u16, Entry, StateView),
    CmdError,
> {
    match chosen_host(s, host) {
        None => Err(CmdError::NoHost),
        Some(h) => {
            let key = decimal(local as nat);
            if s.hosts.contains_key(h) && s.hosts[h].contains_key(key) {
                let rest = s.hosts[h].remove(key);
                let hosts = if rest.dom() == Set::<Seq<char>>::empty() {
                    s.hosts.remove(h)
                } else {
                    s.hosts.insert(h, rest)
                };
                Ok(
                    (
                        h,
                        ssh_port_of(s, h),
                        s.hosts[h][key],
                        StateView { default_host: s.default_host, hosts, ports: s.ports },
                    ),
                )
            } else {
                Err(CmdError::ForwardNotFound)
            }
        },
    }
}

/// What `disconnect` does: forgets every forward of the named or default host, and
/// the default host when it is that host. Gives the host, its SSH port, the
/// forwards it had and the new state.
pub open spec fn disconnect_of(s: StateView, host: Option<Seq<char>>) -> Result<
    (Seq<char>, u16, Map<Seq<char>, Entry>, StateView),
    CmdError,
> {
    match chosen_host(s, host) {
        None => Err(CmdError::NoHost),
        Some(h) => Ok(
            (
                h,
                ssh_port_of(s, h),
                forwards_of(s, h),
                StateView {
                    default_host: if s.default_host == Some(h) {
                        None
                    } else {
                        s.default_host
                    },
                    hosts: s.hosts.remove(h),
                    ports: s.ports,
                },
            ),
        ),
    }
}

/// The optional text of an optional `&str`.
pub open spec fn opt_str(o: Option<&str>) -> Option<Seq<char>> {
    match o {
        Some(s) => Some(s@),
        None => None,
    }
}

/// The SSH port recorded for `host`, or 22.
pub fn ssh_port(state: &State, host: &str) -> (r: u16)
    requires
        state.wf(),
    ensures
        r == ssh_port_of(state@, host@),
{
    match state.ports.get(host) {
        Some(p) => *p,
        None => DEFAULT_SSH_PORT,
    }
}

/// `connect host:port` records the host as the default host, and its port when it
/// is not 22.
pub fn connect(state: &mut State, host: &str, ssh_port: u16)
    requires
        old(state).wf(),
    ensures
        final(state).wf(),
        final(state)@ == connect_state(old(state)@, host@, ssh_port),
{
    state.default_host = Some(String::from_str(host));
    if ssh_port != DEFAULT_SSH_PORT {
        state.ports.insert(String::from_str(host), ssh_port);
    }
    assert(state@.hosts =~= old(state)@.hosts);
}

/// The host and SSH port that `forward` works on.
pub fn forward_target(state: &State, host: Option<&str>, ssh_port: Option<u16>) -> (r: Result<
    (String, u16),
    CmdError,
>)
    requires
        state.wf(),
    ensures
        match r {
            Ok((h, p)) => forward_target_of(state@, opt_str(host), ssh_port) == Ok::<
                (Seq<char>, u16),
                CmdError,
            >((h@, p)),
            Err(e) => forward_target_of(state@, opt_str(host), ssh_port) == Err::<
                (Seq<char>, u16),
                CmdError,
            >(e),
        },
{
    let h = match host {
        Some(h) => String::from_str(h),
        None => match &state.default_host {
            Some(d) => d.clone(),
            None => {
                return Err(CmdError::NoHost);
            },
        },
    };
    let port = match ssh_port {
        Some(p) => p,
        None => self::ssh_port(state, h.as_str()),
    };
    Ok((h, port))
}

/// Records a forward from local port `local` that was set up on `host` through SSH
/// port `port`, and makes `host` the default host.
pub fn forward(state: &mut State, host: &str, port: u16, local: u16, entry: Entry)
    requires
        old(state).wf(),
    ensures
        final(state).wf(),
        final(state)@ == forward_state(old(state)@, host@, port, local, entry),
{
    let ghost s = old(state)@;
    let mut fwds = match state.hosts.remove(host) {
        Some(f) => f,
        None => StrMap::new(),
    };
    assert(fwds@ == forwards_of(s, host@));
    fwds.insert(decimal_string(local as u32), entry);
    state.hosts.insert(String::from_str(host), fwds);
    if port != DEFAULT_SSH_PORT {
        state.ports.insert(String::from_str(host), port);
    }
    state.default_host = Some(String::from_str(host));
    assert(state@.hosts =~= forward_state(s, host@, port, local, entry).hosts);
}

/// What `close` hands to the caller: the host, its SSH port and the removed forward.
pub struct Closed {
    pub host: String,
    pub port: u16,
    pub entry: Entry,
}

/// Removes the forward on local port `local_port` of the named or default host.
/// The state is left as it was when it fails.
pub fn close(state: &mut State, host: Option<&str>, local_port: u16) -> (r: Result<
    Closed,
    CmdError,
>)
    requires
        old(state).wf(),
    ensures
        final(state).wf(),
        match r {
            Ok(c) => close_of(old(state)@, opt_str(host), local_port) == Ok::<
                (Seq<char>, u16, Entry, StateView),
                CmdError,
            >((c.host@, c.port, c.entry, final(state)@)),
            Err(e) => close_of(old(state)@, opt_str(host), local_port) == Err::<
                (Seq<char>, u16, Entry, StateView),
                CmdError,
            >(e) && final(state)@ == old(state)@,
        },
{
    let ghost s = old(state)@;
    let h = match host {
        Some(h) => String::from_str(h),
        None => match &state.default_host {
            Some(d) => d.clone(),
            None => {
                return Err(CmdError::NoHost);
            },
        },
    };
    let key = decimal_string(local_port as u32);
    let mut fwds = match state.hosts.remove(h.as_str()) {
        Some(f) => f,
        None => {
            assert(state@.hosts =~= s.hosts);
            return Err(CmdError::ForwardNotFound);
        },
    };
    let entry = match fwds.remove(key.as_str()) {
        Some(e) => e,
        None => {
            assert(fwds@ =~= s.hosts[h@]);
            state.hosts.insert(h.clone(), fwds);
            assert(state@.hosts =~= s.hosts);
            return Err(CmdError::ForwardNotFound);
        },
    };
    if !fwds.is_empty() {
        state.hosts.insert(h.clone(), fwds);
    }
    let port = self::ssh_port(state, h.as_str());
    assert(state@.hosts =~= close_of(s, opt_str(host), local_port).unwrap().3.hosts);
    Ok(Closed { host: h, port, entry })
}

/// What `disconnect` hands to the caller: the host, its SSH port and the forwards
/// it had.
pub struct Disconnected {
    pub host: String,
    pub port: u16,
    pub forwards: StrMap<Entry>,
}

/// Forgets every forward of the named or default host, and the default host when
/// it is that host.
pub fn disconnect(state: &mut State, host: Option<&str>) -> (r: Result<Disconnected, CmdError>)
    requires
        old(state).wf(),
    ensures
        final(state).wf(),
        match r {
            Ok(d) => d.forwards.wf() && disconnect_of(old(state)@, opt_str(host)) == Ok::<
                (Seq<char>, u16, Map<Seq<char>, Entry>, StateView),
                CmdError,
            >((d.host@, d.port, d.forwards@, final(state)@)),
            Err(e) => disconnect_of(old(state)@, opt_str(host)) == Err::<
                (Seq<char>, u16, Map<Seq<char>, Entry>, StateView),
                CmdError,
            >(e) && final(state)@ == old(state)@,
        },
{
    let ghost s = old(state)@;
    let h = match host {
        Some(h) => String::from_str(h),
        None => match &state.default_host {
            Some(d) => d.clone(),
            None => {
                return Err(CmdError::NoHost);
            },
        },
    };
    let forwards = match state.hosts.remove(h.as_str()) {
        Some(f) => f,
        None => StrMap::new(),
    };
    let port = self::ssh_port(state, h.as_str());
    let is_default = match &state.default_host {
        Some(d) => *d == h,
        None => false,
    };
    if is_default {
        state.default_host = None;
    }
    assert(state@.hosts =~= disconnect_of(s, opt_str(host)).unwrap().3.hosts);
    Ok(Disconnected { host: h, port, forwards })
}

/// The port by which `list` orders forwards: the local port, or 0 for a key that
/// does not read as one.
pub open spec fn sort_key(local: Seq<char>) -> u16 {
    match spec_parse_u16(local) {
        Some(p) => p,
        None => 0,
    }
}

/// How `list` names a host: its name, followed by `:<port>` when its SSH port is
/// not 22.
pub open spec fn label_of(host: Seq<char>, port: u16) -> Seq<char> {
    if port == DEFAULT_SSH_PORT {
        host
    } else {
        host + ":"@ + decimal(port as nat)
    }
}

/// One forward as `list` shows it.
pub struct ListedForward {
    pub local: String,
    pub entry: Entry,
}

/// One host as `list` shows it: its label and its forwards ordered by local port.
pub struct HostListing {
    pub host: String,
    pub port: u16,
    pub label: String,
    pub forwards: Vec<ListedForward>,
}

/// The forwards of a listing as key and entry.
pub open spec fn listed_pairs(v: Seq<ListedForward>) -> Seq<(Seq<char>, Entry)> {
    v.map_values(|f: ListedForward| (f.local@, f.entry))
}

/// Ordered by local port.
pub open spec fn sorted_by_port(p: Seq<(Seq<char>, Entry)>) -> bool {
    forall|i: int, j: int| 0 <= i < j < p.len() ==> sort_key(p[i].0) <= sort_key(p[j].0)
}

/// The port by which a forward's key is ordered.
fn sort_key_of(local: &str) -> (r: u16)
    ensures
        r == sort_key(local@),
{
    match parse_u16(local) {
        Some(p) => p,
        None => 0,
    }
}

/// How `list` names a host.
pub fn host_label(host: &str, port: u16) -> (r: String)
    ensures
        r@ == label_of(host@, port),
{
    if port == DEFAULT_SSH_PORT {
        String::from_str(host)
    } else {
        let digits = decimal_string(port as u32);
        String::from_str(host).concat(":").concat(digits.as_str())
    }
}

/// The forwards of a host ordered by local port (the key's value as a port, 0 when
/// it reads as none).
pub fn sorted_forwards(fwds: &StrMap<Entry>) -> (r: Vec<ListedForward>)
    requires
        fwds.wf(),
    ensures
        keys_unique(listed_pairs(r@)),
        pairs_to_map(listed_pairs(r@)) == fwds@,
        sorted_by_port(listed_pairs(r@)),
{
    let n = fwds.len();
    let mut out: Vec<ListedForward> = Vec::new();
    let mut keys: Vec<u16> = Vec::new();
    let ghost p = fwds.pairs();
    assert(listed_pairs(out@) =~= Seq::<(Seq<char>, Entry)>::empty());
    assert(pairs_to_map(listed_pairs(out@)) =~= pairs_to_map(p.take(0)));
    let mut i: usize = 0;
    while i < n
        invariant
            i <= n,
            n == p.len(),
            p == fwds.pairs(),
            fwds.wf(),
            keys@.len() == out@.len(),
            forall|j: int| 0 <= j < keys@.len() ==> keys@[j] == sort_key(#[trigger] out@[j].local@),
            forall|a: int, b: int| 0 <= a < b < keys@.len() ==> keys@[a] <= keys@[b],
            keys_unique(listed_pairs(out@)),
            pairs_to_map(listed_pairs(out@)) == pairs_to_map(p.take(i as int)),
        decreases n - i,
    {
        let local = fwds.key_at(i).clone();
        let entry = *fwds.value_at(i);
        let k = sort_key_of(local.as_str());
        let mut pos: usize = 0;
        while pos < keys.len() && keys[pos] <= k
            invariant
                pos <= keys@.len(),
                forall|j: int| 0 <= j < pos ==> keys@[j] <= k,
            decreases keys@.len() - pos,
        {
            pos = pos + 1;
        }
        proof {
            lemma_pairs_take_next(p, i as int);
            let lp = listed_pairs(out@);
            if has_key(lp, local@) {
                let a = choose|a: int| 0 <= a < lp.len() && #[trigger] lp[a].0 == local@;
                assert(pairs_to_map(lp).contains_key(local@));
            }
            lemma_pairs_insert(lp, pos as int, local@, entry);
        }
        let ghost old_out = out@;
        let ghost old_keys = keys@;
        out.insert(pos, ListedForward { local, entry });
        keys.insert(pos, k);
        assert(listed_pairs(out@) =~= listed_pairs(old_out).insert(pos as int, (p[i as int].0, entry)));
        assert forall|j: int| 0 <= j < keys@.len() implies keys@[j] == sort_key(
            #[trigger] out@[j].local@,
        ) by {
            if j < pos {
                assert(out@[j] == old_out[j]);
            } else if j > pos {
                assert(out@[j] == old_out[j - 1]);
            }
        }
        assert forall|a: int, b: int| 0 <= a < b < keys@.len() implies keys@[a] <= keys@[b] by {
            if b < pos {
            } else if a > pos {
                assert(keys@[a] == old_keys[a - 1] && keys@[b] == old_keys[b - 1]);
            } else if a == pos {
                assert(keys@[b] == old_keys[b - 1]);
                assert(old_keys[pos as int] > k);
            } else if b == pos {
            } else {
                assert(keys@[b] == old_keys[b - 1]);
            }
        }
        i = i + 1;
    }
    proof {
        fwds.lemma_all_pairs();
        assert forall|a: int, b: int| 0 <= a < b < listed_pairs(out@).len() implies sort_key(
            listed_pairs(out@)[a].0,
        ) <= sort_key(listed_pairs(out@)[b].0) by {
            assert(keys@[a] == sort_key(out@[a].local@));
            assert(keys@[b] == sort_key(out@[b].local@));
        }
    }
    out
}

/// What `list` shows: every host once, with its SSH port, its label and its
/// forwards ordered by local port.
pub fn list(state: &State) -> (r: Vec<HostListing>)
    requires
        state.wf(),
    ensures
        forall|h: Seq<char>|
            state@.hosts.contains_key(h) <==> exists|i: int|
                0 <= i < r@.len() && #[trigger] r@[i].host@ == h,
        forall|i: int, j: int|
            0 <= i < r@.len() && 0 <= j < r@.len() && i != j ==> #[trigger] r@[i].host@
                != #[trigger] r@[j].host@,
        forall|i: int|
            0 <= i < r@.len() ==> {
                let h = #[trigger] r@[i].host@;
                &&& r@[i].port == ssh_port_of(state@, h)
                &&& r@[i].label@ == label_of(h, r@[i].port)
                &&& keys_unique(listed_pairs(r@[i].forwards@))
                &&& pairs_to_map(listed_pairs(r@[i].forwards@)) == state@.hosts[h]
                &&& sorted_by_port(listed_pairs(r@[i].forwards@))
            },
{
    let n = state.hosts.len();
    let ghost p = state.hosts.pairs();
    proof {
        state.hosts.lemma_pairs_are_entries();
    }
    let mut r: Vec<HostListing> = Vec::new();
    let mut i: usize = 0;
    while i < n
        invariant
            i <= n,
            n == p.len(),
            p == state.hosts.pairs(),
            state.wf(),
            r@.len() == i,
            forall|j: int| 0 <= j < i ==> #[trigger] r@[j].host@ == p[j].0,
            forall|j: int|
                0 <= j < i ==> {
                    let h = #[trigger] r@[j].host@;
                    &&& r@[j].port == ssh_port_of(state@, h)
                    &&& r@[j].label@ == label_of(h, r@[j].port)
                    &&& keys_unique(listed_pairs(r@[j].forwards@))
                    &&& pairs_to_map(listed_pairs(r@[j].forwards@)) == state@.hosts[h]
                    &&& sorted_by_port(listed_pairs(r@[j].forwards@))
                },
        decreases n - i,
    {
        let host = state.hosts.key_at(i);
        let fwds = state.hosts.value_at(i);
        proof {
            state.hosts.lemma_pairs_are_entries();
            assert(state.hosts@.contains_key(p[i as int].0));
        }
        let port = ssh_port(state, host.as_str());
        let label = host_label(host.as_str(), port);
        let forwards = sorted_forwards(fwds);
        r.push(HostListing { host: host.clone(), port, label, forwards });
        i = i + 1;
    }
    proof {
        assert forall|h: Seq<char>| state@.hosts.contains_key(h) implies exists|i: int|
            0 <= i < r@.len() && #[trigger] r@[i].host@ == h by {
            let k = choose|k: int| 0 <= k < p.len() && #[trigger] p[k].0 == h;
            assert(r@[k].host@ == h);
        }
        assert forall|i: int, j: int|
            0 <= i < r@.len() && 0 <= j < r@.len() && i != j implies #[trigger] r@[i].host@
            != #[trigger] r@[j].host@ by {
            assert(r@[i].host@ == p[i].0 && r@[j].host@ == p[j].0);
        }
    }
    r
}

/// Whether `list` shows a host as connected: with a ControlMaster, whether it
/// answers; without one, whether any of the host's forward processes is alive
/// (`pids_alive` holds the answer for each forward that has a process).
pub fn shown_connected(multiplexed: bool, master_up: bool, pids_alive: &[bool]) -> (r: bool)
    ensures
        r == if multiplexed {
            master_up
        } else {
            exists|i: int| 0 <= i < pids_alive@.len() && #[trigger] pids_alive@[i]
        },
{
    if multiplexed {
        return master_up;
    }
    let mut i: usize = 0;
    while i < pids_alive.len()
        invariant
            i <= pids_alive@.len(),
            !multiplexed,
            forall|j: int| 0 <= j < i ==> !#[trigger] pids_alive@[j],
        decreases pids_alive@.len() - i,
    {
        if pids_alive[i] {
            assert(pids_alive@[i as int]);
            return true;
        }
        i = i + 1;
    }
    false
}

/// The processes of the forwards `p`, in order (forwards through a ControlMaster
/// have none).
pub open spec fn pids_in(p: Seq<(Seq<char>, Entry)>) -> Seq<u32>
    decreases p.len(),
{
    if p.len() == 0 {
        Seq::empty()
    } else {
        let rest = pids_in(p.drop_last());
        match p.last().1 {
            Entry::Proc { pid, .. } => rest.push(pid),
            Entry::Cm { .. } => rest,
        }
    }
}

/// The `ssh` control command that cancels the forward `(local, entry)`.
pub open spec fn cancel_args(local: Seq<char>, entry: Entry) -> Seq<Seq<char>> {
    let remote = match entry {
        Entry::Cm { remote } => remote,
        Entry::Proc { remote, .. } => remote,
    };
    seq!["-O"@, "cancel"@, "-L"@, forward_spec_text(local, remote)]
}

/// What has to be undone outside the state once a forward is closed.
pub enum Cleanup {
    /// Run this control command through the host's ControlMaster.
    Cancel(Vec<String>),
    /// Stop this process.
    Kill(u32),
    /// Nothing: the forward has no process of its own.
    Nothing,
}

/// What `close` has to undo for the forward `entry` on local port `local_port`:
/// with a ControlMaster, cancel the forward there; without one, stop its process.
pub fn close_cleanup(multiplexed: bool, local_port: u16, entry: Entry) -> (r: Cleanup)
    ensures
        multiplexed ==> (r matches Cleanup::Cancel(args) && texts(args@) == cancel_args(
            decimal(local_port as nat),
            entry,
        )),
        !multiplexed ==> match entry {
            Entry::Proc { pid, .. } => (r matches Cleanup::Kill(p) && p == pid),
            Entry::Cm { .. } => r is Nothing,
        },
{
    if multiplexed {
        let key = decimal_string(local_port as u32);
        Cleanup::Cancel(cancel_control(key.as_str(), entry.remote()))
    } else {
        match entry {
            Entry::Proc { pid, .. } => Cleanup::Kill(pid),
            Entry::Cm { .. } => Cleanup::Nothing,
        }
    }
}

/// What `disconnect` has to do outside the state.
pub struct DisconnectPlan {
    /// Control commands to run through the ControlMaster, one per forward.
    pub cancels: Vec<Vec<String>>,
    /// Whether to shut the ControlMaster down (and remove its socket) afterwards.
    pub exit_master: bool,
    /// Processes to stop.
    pub kills: Vec<u32>,
}

/// What `disconnect` has to undo for the forwards it removed: with a ControlMaster,
/// cancel each forward, then shut the master down; without one, stop each forward's
/// process.
pub fn disconnect_plan(multiplexed: bool, forwards: &StrMap<Entry>) -> (r: DisconnectPlan)
    ensures
        multiplexed ==> {
            &&& r.exit_master
            &&& r.kills@.len() == 0
            &&& r.cancels@.len() == forwards.pairs().len()
            &&& forall|i: int|
                0 <= i < forwards.pairs().len() ==> texts(#[trigger] r.cancels@[i]@)
                    == cancel_args(forwards.pairs()[i].0, forwards.pairs()[i].1)
        },
        !multiplexed ==> {
            &&& !r.exit_master
            &&& r.cancels@.len() == 0
            &&& r.kills@ == pids_in(forwards.pairs())
        },
{
    let n = forwards.len();
    let ghost p = forwards.pairs();
    let mut cancels: Vec<Vec<String>> = Vec::new();
    let mut kills: Vec<u32> = Vec::new();
    let mut i: usize = 0;
    assert(p.take(0) =~= Seq::<(Seq<char>, Entry)>::empty());
    while i < n
        invariant
            i <= n,
            n == p.len(),
            p == forwards.pairs(),
            multiplexed ==> kills@.len() == 0 && cancels@.len() == i && forall|j: int|
                0 <= j < i ==> texts(#[trigger] cancels@[j]@) == cancel_args(p[j].0, p[j].1),
            !multiplexed ==> cancels@.len() == 0 && kills@ == pids_in(p.take(i as int)),
        decreases n - i,
    {
        let local = forwards.key_at(i);
        let entry = *forwards.value_at(i);
        assert(p.take(i + 1).drop_last() =~= p.take(i as int));
        if multiplexed {
            cancels.push(cancel_control(local.as_str(), entry.remote()));
        } else {
            match entry {
                Entry::Proc { pid, .. } => kills.push(pid),
                Entry::Cm { .. } => {},
            }
        }
        i = i + 1;
    }
    assert(p.take(n as int) =~= p);
    DisconnectPlan { cancels, exit_master: multiplexed, kills }
}

} // verus!
