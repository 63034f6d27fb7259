use zport::cmd::{
    close_cleanup, disconnect_plan, shown_connected, Cleanup,
    close, connect, disconnect, forward, forward_target, host_label, list, ssh_port, CmdError,
};
use zport::state::{sock_path_in, state_path_in, zport_dir_in, Entry, State};
use zport::strmap::StrMap;
use std::path::PathBuf;

fn forwards_of(state: &State, host: &str) -> Vec<(String, Entry)> {
    match state.hosts.get(host) {
        Some(m) => (0..m.len()).map(|i| (m.key_at(i).clone(), *m.value_at(i))).collect(),
        None => Vec::new(),
    }
}

#[test]
fn entry_accessors() {
    assert_eq!(Entry::Cm { remote: 8080 }.remote(), 8080);
    assert_eq!(Entry::Cm { remote: 8080 }.pid(), None);
    assert_eq!(Entry::Proc { remote: 5432, pid: 77 }.remote(), 5432);
    assert_eq!(Entry::Proc { remote: 5432, pid: 77 }.pid(), Some(77));
}

#[test]
fn strmap_insert_get_remove() {
    let mut m: StrMap<u16> = StrMap::new();
    assert!(m.is_empty());
    m.insert("a".to_string(), 1);
    m.insert("b".to_string(), 2);
    m.insert("a".to_string(), 3);
    assert_eq!(m.len(), 2);
    assert_eq!(m.get("a"), Some(&3));
    assert!(m.contains_key("b"));
    assert_eq!(m.remove("b"), Some(2));
    assert_eq!(m.remove("b"), None);
    assert_eq!(m.get("b"), None);
    assert!(!m.is_empty());
}

#[test]
fn connect_sets_default_and_port() {
    let mut s = State::new();
    connect(&mut s, "myhost", 2235);
    assert_eq!(s.default_host.as_deref(), Some("myhost"));
    assert_eq!(ssh_port(&s, "myhost"), 2235);
    let (h, p) = forward_target(&s, None, None).ok().unwrap();
    assert_eq!(h, "myhost");
    assert_eq!(p, 2235);
}

#[test]
fn connect_default_port_not_recorded() {
    let mut s = State::new();
    connect(&mut s, "plain", 22);
    assert!(s.ports.is_empty());
    assert_eq!(ssh_port(&s, "plain"), 22);
}

#[test]
fn forward_target_without_host_fails() {
    let s = State::new();
    assert!(matches!(forward_target(&s, None, None), Err(CmdError::NoHost)));
    let (h, p) = forward_target(&s, Some("x"), Some(2200)).ok().unwrap();
    assert_eq!((h.as_str(), p), ("x", 2200));
}

#[test]
fn forward_records_entry_and_default() {
    let mut s = State::new();
    forward(&mut s, "myhost", 2235, 8081, Entry::Cm { remote: 8080 });
    assert_eq!(s.default_host.as_deref(), Some("myhost"));
    assert_eq!(forwards_of(&s, "myhost"), vec![("8081".to_string(), Entry::Cm { remote: 8080 })]);
    assert_eq!(ssh_port(&s, "myhost"), 2235);
}

#[test]
fn close_undoes_forward() {
    let mut s = State::new();
    forward(&mut s, "h", 22, 9000, Entry::Proc { remote: 9000, pid: 42 });
    let c = close(&mut s, Some("h"), 9000).ok().unwrap();
    assert_eq!(c.host, "h");
    assert_eq!(c.port, 22);
    assert_eq!(c.entry, Entry::Proc { remote: 9000, pid: 42 });
    assert!(s.hosts.is_empty());
}

#[test]
fn close_keeps_other_forwards() {
    let mut s = State::new();
    forward(&mut s, "h", 22, 1, Entry::Cm { remote: 1 });
    forward(&mut s, "h", 22, 2, Entry::Cm { remote: 2 });
    let c = close(&mut s, None, 1).ok().unwrap();
    assert_eq!(c.entry, Entry::Cm { remote: 1 });
    assert_eq!(forwards_of(&s, "h"), vec![("2".to_string(), Entry::Cm { remote: 2 })]);
}

#[test]
fn close_errors_leave_state() {
    let mut s = State::new();
    assert!(matches!(close(&mut s, None, 80), Err(CmdError::NoHost)));
    forward(&mut s, "h", 22, 1, Entry::Cm { remote: 1 });
    assert!(matches!(close(&mut s, Some("h"), 2), Err(CmdError::ForwardNotFound)));
    assert!(matches!(close(&mut s, Some("other"), 1), Err(CmdError::ForwardNotFound)));
    assert_eq!(forwards_of(&s, "h"), vec![("1".to_string(), Entry::Cm { remote: 1 })]);
}

#[test]
fn disconnect_forgets_host() {
    let mut s = State::new();
    forward(&mut s, "a", 2200, 1, Entry::Cm { remote: 1 });
    forward(&mut s, "b", 22, 2, Entry::Cm { remote: 2 });
    let d = disconnect(&mut s, Some("b")).ok().unwrap();
    assert_eq!(d.host, "b");
    assert_eq!(d.port, 22);
    assert_eq!(d.forwards.len(), 1);
    assert_eq!(s.default_host, None);
    assert!(s.hosts.get("b").is_none());
    assert_eq!(forwards_of(&s, "a").len(), 1);
    let d = disconnect(&mut s, Some("a")).ok().unwrap();
    assert_eq!(d.port, 2200);
    assert_eq!(ssh_port(&s, "a"), 2200);
    assert!(matches!(disconnect(&mut s, None), Err(CmdError::NoHost)));
}

#[test]
fn disconnect_unknown_host_has_no_forwards() {
    let mut s = State::new();
    connect(&mut s, "x", 22);
    let d = disconnect(&mut s, Some("y")).ok().unwrap();
    assert!(d.forwards.is_empty());
    assert_eq!(s.default_host.as_deref(), Some("x"));
}

#[test]
fn list_sorts_by_local_port() {
    let mut s = State::new();
    forward(&mut s, "h", 2235, 9000, Entry::Cm { remote: 9000 });
    forward(&mut s, "h", 2235, 80, Entry::Cm { remote: 8080 });
    forward(&mut s, "h", 2235, 443, Entry::Cm { remote: 443 });
    let mut fw = s.hosts.remove("h").unwrap();
    fw.insert("abc".to_string(), Entry::Cm { remote: 1 });
    s.hosts.insert("h".to_string(), fw);
    let l = list(&s);
    assert_eq!(l.len(), 1);
    assert_eq!(l[0].label, "h:2235");
    let locals: Vec<&str> = l[0].forwards.iter().map(|f| f.local.as_str()).collect();
    assert_eq!(locals, vec!["abc", "80", "443", "9000"]);
}

#[test]
fn list_empty_state() {
    assert!(list(&State::new()).is_empty());
}

#[test]
fn labels() {
    assert_eq!(host_label("h", 22), "h");
    assert_eq!(host_label("h", 2235), "h:2235");
}

#[test]
fn paths() {
    assert_eq!(zport_dir_in(Some(b"/home/u"), '/'), b"/home/u/.zport".to_vec());
    assert_eq!(zport_dir_in(Some(b"/home/u/"), '/'), b"/home/u/.zport".to_vec());
    assert_eq!(zport_dir_in(Some(b""), '/'), b".zport".to_vec());
    assert_eq!(zport_dir_in(None, '/'), b".zport".to_vec());
    assert_eq!(zport_dir_in(Some(b"C:\\Users\\u"), '\\'), b"C:\\Users\\u\\.zport".to_vec());
    assert_eq!(zport_dir_in(Some(b"C:\\Users\\u/"), '\\'), b"C:\\Users\\u/.zport".to_vec());
    assert_eq!(state_path_in(Some(b"/home/u"), '/'), b"/home/u/.zport/state.json".to_vec());
    assert_eq!(sock_path_in(Some(b"/home/u"), '/', "myhost"), b"/home/u/.zport/mux-myhost".to_vec());
}

#[test]
fn paths_bare_drive() {
    assert_eq!(zport_dir_in(Some(b"C:"), '\\'), b"C:.zport".to_vec());
    assert_eq!(zport_dir_in(Some(b"d:"), '\\'), b"d:.zport".to_vec());
    assert_eq!(zport_dir_in(Some(b"1:"), '\\'), b"1:\\.zport".to_vec());
    assert_eq!(zport_dir_in(Some(b"C:x"), '\\'), b"C:x\\.zport".to_vec());
    assert_eq!(zport_dir_in(Some(b"C:"), '/'), b"C:/.zport".to_vec());
}

#[test]
fn paths_keep_non_utf8_home() {
    let home: &[u8] = b"/home/\xff\xfeu";
    assert_eq!(state_path_in(Some(home), '/'), b"/home/\xff\xfeu/.zport/state.json".to_vec());
    let mut expected = b"/home/\xff\xfeu/.zport/mux-h".to_vec();
    expected.extend_from_slice("\u{e9}".as_bytes());
    assert_eq!(sock_path_in(Some(home), '/', "h\u{e9}"), expected);
}

#[test]
fn paths_match_std_join() {
    let home = "/home/u";
    let sep = std::path::MAIN_SEPARATOR;
    let expected = PathBuf::from(home).join(".zport").join("state.json");
    assert_eq!(
        state_path_in(Some(home.as_bytes()), sep),
        expected.into_os_string().into_encoded_bytes()
    );
    let expected = PathBuf::from(home).join(".zport").join("mux-h");
    assert_eq!(
        sock_path_in(Some(home.as_bytes()), sep, "h"),
        expected.into_os_string().into_encoded_bytes()
    );
}

#[test]
fn connected_rule() {
    assert!(shown_connected(true, true, &[]));
    assert!(!shown_connected(true, false, &[true]));
    assert!(!shown_connected(false, true, &[]));
    assert!(shown_connected(false, false, &[false, true]));
    assert!(!shown_connected(false, false, &[false, false]));
}

#[test]
fn close_cleanups() {
    match close_cleanup(true, 8081, Entry::Cm { remote: 8080 }) {
        Cleanup::Cancel(args) => assert_eq!(args, vec!["-O", "cancel", "-L", "8081:localhost:8080"]),
        _ => panic!("expected a cancel"),
    }
    assert!(matches!(close_cleanup(false, 1, Entry::Proc { remote: 2, pid: 9 }), Cleanup::Kill(9)));
    assert!(matches!(close_cleanup(false, 1, Entry::Cm { remote: 2 }), Cleanup::Nothing));
}

#[test]
fn disconnect_plans() {
    let mut m = StrMap::new();
    m.insert("1".to_string(), Entry::Cm { remote: 10 });
    m.insert("2".to_string(), Entry::Proc { remote: 20, pid: 7 });
    let p = disconnect_plan(true, &m);
    assert!(p.exit_master);
    assert!(p.kills.is_empty());
    assert_eq!(p.cancels.len(), 2);
    assert_eq!(p.cancels[1], vec!["-O", "cancel", "-L", "2:localhost:20"]);
    let p = disconnect_plan(false, &m);
    assert!(!p.exit_master);
    assert!(p.cancels.is_empty());
    assert_eq!(p.kills, vec![7]);
}
