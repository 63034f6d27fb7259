//! The persistent state: the default host, the active forwards of each host, and
//! the SSH port of each host; and where it and the multiplexing sockets live.

use vstd::prelude::*;
use vstd::string::*;
use crate::strmap::StrMap;

verus! {

/// One active forward, keyed in the state by its local port.
#[derive(Debug, Clone, Copy, PartialEq, Eq, Structural)]
pub enum Entry {
    /// A forward added to the host's ControlMaster connection.
    Cm { remote: u16 },
    /// A forward kept open by its own `ssh -L` process.
    Proc { remote: u16, pid: u32 },
}

impl Entry {
    /// The remote port of the forward.
    pub fn remote(&self) -> (r: u16)
        ensures
            r == match *self {
                Entry::Cm { remote } => remote,
                Entry::Proc { remote, .. } => remote,
            },
    {
        match self {
            Entry::Cm { remote } => *remote,
            Entry::Proc { remote, .. } => *remote,
        }
    }

    /// The process that keeps the forward open, if it has one of its own.
    pub fn pid(&self) -> (r: Option<u32>)
        ensures
            r == match *self {
                Entry::Proc { pid, .. } => Some(pid),
                Entry::Cm { .. } => None,
            },
    {
        match self {
            Entry::Proc { pid, .. } => Some(*pid),
            _ => None,
        }
    }
}

/// The state as mathematical values: hosts, local ports and hosts' names are
/// taken by their text.
pub struct StateView {
    pub default_host: Option<Seq<char>>,
    pub hosts: Map<Seq<char>, Map<Seq<char>, Entry>>,
    pub ports: Map<Seq<char>, u16>,
}

/// The text of an optional string.
pub open spec fn opt_text(o: Option<String>) -> Option<Seq<char>> {
    match o {
        Some(s) => Some(s@),
        None => None,
    }
}

/// What is stored in the state file: the default host, the forwards of each
/// host by local port, and the SSH port of each host that does not use 22.
pub struct State {
    pub default_host: Option<String>,
    pub hosts: StrMap<StrMap<Entry>>,
    pub ports: StrMap<u16>,
}

impl View for State {
    type V = StateView;

    open spec fn view(&self) -> StateView {
        StateView {
            default_host: opt_text(self.default_host),
            hosts: self.hosts@.map_values(|m: StrMap<Entry>| m@),
            ports: self.ports@,
        }
    }
}

impl State {
    /// No key occurs twice in any of the maps.
    pub open spec fn wf(&self) -> bool {
        &&& self.hosts.wf()
        &&& self.ports.wf()
        &&& forall|h: Seq<char>| #[trigger] self.hosts@.contains_key(h) ==> self.hosts@[h].wf()
    }

    /// The state before anything was recorded.
    pub fn new() -> (r: State)
        ensures
            r.wf(),
            r@.default_host is None,
            r@.hosts == Map::<Seq<char>, Map<Seq<char>, Entry>>::empty(),
            r@.ports == Map::<Seq<char>, u16>::empty(),
    {
        let r = State { default_host: None, hosts: StrMap::new(), ports: StrMap::new() };
        assert(r@.hosts =~= Map::<Seq<char>, Map<Seq<char>, Entry>>::empty());
        r
    }
}

impl Default for State {
    /// The state used when there is no state file, or it cannot be read.
    fn default() -> (r: State)
        ensures
            r.wf(),
            r@.default_host is None,
            r@.hosts == Map::<Seq<char>, Map<Seq<char>, Entry>>::empty(),
            r@.ports == Map::<Seq<char>, u16>::empty(),
    {
        State::new()
    }
}

/// The byte of the separator `sep` that a join puts between components.
pub open spec fn sep_byte(sep: char) -> u8 {
    if sep == '/' {
        47
    } else {
        92
    }
}

/// The byte `b` separates path components on a platform whose main separator is
/// `sep`: `/` everywhere, and `\` too on Windows.
pub open spec fn is_sep_byte(b: u8, sep: char) -> bool {
    b == 47 || b == sep_byte(sep)
}

/// On Windows, `base` is a bare drive prefix such as `C:` (an ASCII letter and a
/// colon, nothing after them).
pub open spec fn is_bare_drive(base: Seq<u8>, sep: char) -> bool {
    &&& sep == '\\'
    &&& base.len() == 2
    &&& base[1] == 58
    &&& ((65 <= base[0] && base[0] <= 90) || (97 <= base[0] && base[0] <= 122))
}

/// `Path::join` of a relative component `part` (one that starts with neither a
/// separator nor a drive prefix) onto `base`, paths taken by their encoded bytes: a
/// separator goes between them unless `base` is empty, already ends in one, or is a
/// bare drive prefix on Windows. (On Windows a verbatim `\\?\` base is rebuilt by
/// `join` from its components; these bytes are what it rebuilds to when the base is
/// already in that form: no `.` or `..` components, no repeated or trailing `/`.)
pub open spec fn path_join(base: Seq<u8>, part: Seq<u8>, sep: char) -> Seq<u8> {
    if base.len() == 0 || is_sep_byte(base.last(), sep) || is_bare_drive(base, sep) {
        base + part
    } else {
        base + seq![sep_byte(sep)] + part
    }
}

/// The encoded bytes of an optional home directory; none gives the empty path.
pub open spec fn home_bytes(home: Option<Seq<u8>>) -> Seq<u8> {
    match home {
        Some(h) => h,
        None => Seq::<u8>::empty(),
    }
}

/// `~/.zport`, for the home directory `home` (the empty path when there is none).
pub open spec fn zport_dir_of(home: Option<Seq<u8>>, sep: char) -> Seq<u8> {
    path_join(home_bytes(home), utf8_of(".zport"@), sep)
}

/// `~/.zport/state.json`.
pub open spec fn state_path_of(home: Option<Seq<u8>>, sep: char) -> Seq<u8> {
    path_join(zport_dir_of(home, sep), utf8_of("state.json"@), sep)
}

/// `~/.zport/mux-<host>`, the ControlMaster socket of `host`.
pub open spec fn sock_path_of(home: Option<Seq<u8>>, sep: char, host: Seq<char>) -> Seq<u8> {
    path_join(zport_dir_of(home, sep), utf8_of("mux-"@) + utf8_of(host), sep)
}

/// The UTF-8 bytes of the text `t`.
pub open spec fn utf8_of(t: Seq<char>) -> Seq<u8> {
    vstd::utf8::encode_utf8(t)
}

/// Appends the bytes `b` to `v`.
fn push_bytes(v: &mut Vec<u8>, b: &[u8])
    ensures
        final(v)@ == old(v)@ + b@,
{
    let mut i: usize = 0;
    while i < b.len()
        invariant
            i <= b@.len(),
            v@ == old(v)@ + b@.subrange(0, i as int),
        decreases b@.len() - i,
    {
        v.push(b[i]);
        i = i + 1;
        assert(v@ =~= old(v)@ + b@.subrange(0, i as int));
    }
    assert(b@.subrange(0, b@.len() as int) =~= b@);
}

/// Joins the relative component `part` onto `base`.
fn join_path(base: &[u8], part: &[u8], sep: char) -> (r: Vec<u8>)
    requires
        sep == '/' || sep == '\\',
    ensures
        r@ == path_join(base@, part@, sep),
{
    let n = base.len();
    let mut r: Vec<u8> = Vec::new();
    push_bytes(&mut r, base);
    assert(r@ =~= base@);
    let bare_drive = sep == '\\' && n == 2 && base[1] == 58 && ((65 <= base[0] && base[0] <= 90)
        || (97 <= base[0] && base[0] <= 122));
    if n > 0 && !(base[n - 1] == 47 || base[n - 1] == (if sep == '/' {
        47u8
    } else {
        92u8
    })) && !bare_drive {
        r.push(if sep == '/' {
            47u8
        } else {
            92u8
        });
    }
    push_bytes(&mut r, part);
    r
}

/// The directory that holds the state file and the sockets, below the home
/// directory whose encoded bytes `home` holds.
pub fn zport_dir_in(home: Option<&[u8]>, sep: char) -> (r: Vec<u8>)
    requires
        sep == '/' || sep == '\\',
    ensures
        r@ == zport_dir_of(
            match home {
                Some(h) => Some(h@),
                None => None,
            },
            sep,
        ),
{
    let empty: Vec<u8> = Vec::new();
    let base = match home {
        Some(h) => h,
        None => empty.as_slice(),
    };
    join_path(base, ".zport".as_bytes(), sep)
}

/// `home::home_dir()`, as the encoded bytes of the path
/// (`OsString::into_encoded_bytes`, which loses nothing). It reads the environment
/// and the user database, so nothing is stated of what it returns.
#[verifier::external_body]
fn home_dir_bytes() -> Option<Vec<u8>> {
    home::home_dir().map(|p| p.into_os_string().into_encoded_bytes())
}

/// `std::path::MAIN_SEPARATOR`, the path separator of the platform: `/` on Unix-like
/// targets, `\` on Windows and on the few other targets that use it (such as UEFI).
#[verifier::external_body]
fn main_separator() -> (c: char)
    ensures
        c == '/' || c == '\\',
{
    std::path::MAIN_SEPARATOR
}

/// `~/.zport`, where the home directory is the one the `home` crate reports; the
/// result is the encoded bytes of the path (`OsString::from_encoded_bytes_unchecked`
/// takes them back).
pub fn zport_dir() -> (r: Vec<u8>)
    ensures
        exists|home: Option<Seq<u8>>, sep: char|
            (sep == '/' || sep == '\\') && r@ == zport_dir_of(home, sep),
{
    let home = home_dir_bytes();
    let sep = main_separator();
    match &home {
        Some(h) => zport_dir_in(Some(h.as_slice()), sep),
        None => zport_dir_in(None, sep),
    }
}

/// `~/.zport/state.json`, below the home directory whose encoded bytes `home` holds.
pub fn state_path_in(home: Option<&[u8]>, sep: char) -> (r: Vec<u8>)
    requires
        sep == '/' || sep == '\\',
    ensures
        r@ == state_path_of(
            match home {
                Some(h) => Some(h@),
                None => None,
            },
            sep,
        ),
{
    let dir = zport_dir_in(home, sep);
    join_path(dir.as_slice(), "state.json".as_bytes(), sep)
}

/// `~/.zport/mux-<host>`, below the home directory whose encoded bytes `home` holds.
pub fn sock_path_in(home: Option<&[u8]>, sep: char, host: &str) -> (r: Vec<u8>)
    requires
        sep == '/' || sep == '\\',
    ensures
        r@ == sock_path_of(
            match home {
                Some(h) => Some(h@),
                None => None,
            },
            sep,
            host@,
        ),
{
    let dir = zport_dir_in(home, sep);
    let mut name: Vec<u8> = Vec::new();
    push_bytes(&mut name, "mux-".as_bytes());
    push_bytes(&mut name, host.as_bytes());
    join_path(dir.as_slice(), name.as_slice(), sep)
}

/// `~/.zport/state.json` for the current user, as the encoded bytes of the path.
pub fn state_path() -> (r: Vec<u8>)
    ensures
        exists|home: Option<Seq<u8>>, sep: char|
            (sep == '/' || sep == '\\') && r@ == state_path_of(home, sep),
{
    let home = home_dir_bytes();
    let sep = main_separator();
    match &home {
        Some(h) => state_path_in(Some(h.as_slice()), sep),
        None => state_path_in(None, sep),
    }
}

/// `~/.zport/mux-<host>` for the current user, as the encoded bytes of the path.
pub fn sock_path(host: &str) -> (r: Vec<u8>)
    ensures
        exists|home: Option<Seq<u8>>, sep: char|
            (sep == '/' || sep == '\\') && r@ == sock_path_of(home, sep, host@),
{
    let home = home_dir_bytes();
    let sep = main_separator();
    match &home {
        Some(h) => sock_path_in(Some(h.as_slice()), sep, host),
        None => sock_path_in(None, sep, host),
    }
}

} // verus!
