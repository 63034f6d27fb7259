use zport::netstat::{find_listening_pid, last_token_str};
use zport::ssh::{
    cancel_control, check_control, exit_control, first_probe, forward_control, kill_call,
    next_probe, pid_alive_call, poll_step, spawn_forward, ssh_base, ssh_cm, ssh_master,
    tasklist_mentions, PollStep, PortProbe, MASTER_START_POLLS,
};

fn strings(v: &[&str]) -> Vec<String> {
    v.iter().map(|s| s.to_string()).collect()
}

#[test]
fn base_args() {
    assert_eq!(ssh_base(22), strings(&["-o", "StrictHostKeyChecking=accept-new"]));
    assert_eq!(
        ssh_base(2235),
        strings(&["-o", "StrictHostKeyChecking=accept-new", "-p", "2235"])
    );
}

#[test]
fn cm_args() {
    assert_eq!(
        ssh_cm("h", 22, "/s"),
        strings(&["-o", "StrictHostKeyChecking=accept-new", "-o", "BatchMode=yes", "-S", "/s", "h"])
    );
}

#[test]
fn master_start_args() {
    assert_eq!(
        ssh_master("h", 2200, "/s"),
        strings(&[
            "-o",
            "StrictHostKeyChecking=accept-new",
            "-p",
            "2200",
            "-o",
            "BatchMode=yes",
            "-N",
            "-M",
            "-S",
            "/s",
            "h"
        ])
    );
}

#[test]
fn control_args() {
    assert_eq!(forward_control(8081, 8080), strings(&["-O", "forward", "-L", "8081:localhost:8080"]));
    assert_eq!(cancel_control("8081", 8080), strings(&["-O", "cancel", "-L", "8081:localhost:8080"]));
    assert_eq!(check_control(), strings(&["-O", "check"]));
    assert_eq!(exit_control(), strings(&["-O", "exit"]));
}

#[test]
fn spawn_args() {
    assert_eq!(
        spawn_forward("h", 22, 5433, 5432, false),
        strings(&["-o", "StrictHostKeyChecking=accept-new", "-L", "5433:localhost:5432", "-N", "h"])
    );
    assert_eq!(
        spawn_forward("h", 22, 5433, 5432, true),
        strings(&["-o", "StrictHostKeyChecking=accept-new", "-f", "-L", "5433:localhost:5432", "-N", "h"])
    );
}

#[test]
fn probing_from_remote() {
    assert_eq!(first_probe(8080, None), 8080);
    assert_eq!(next_probe(None, 8080, false), PortProbe::Probe(8081));
    assert_eq!(next_probe(None, 8081, true), PortProbe::Use(8081));
    assert_eq!(next_probe(None, 65535, false), PortProbe::Exhausted);
}

#[test]
fn probing_requested_local() {
    assert_eq!(first_probe(8080, Some(9000)), 9000);
    assert_eq!(next_probe(Some(9000), 9000, true), PortProbe::Use(9000));
    assert_eq!(next_probe(Some(9000), 9000, false), PortProbe::InUse(9000));
}

#[test]
fn probing_run_finds_first_free() {
    let busy = [3000u16, 3001, 3002];
    let mut p = first_probe(3000, None);
    let chosen = loop {
        match next_probe(None, p, !busy.contains(&p)) {
            PortProbe::Probe(q) => p = q,
            PortProbe::Use(q) => break q,
            other => panic!("{other:?}"),
        }
    };
    assert_eq!(chosen, 3003);
}

#[test]
fn polling() {
    assert_eq!(poll_step(1, MASTER_START_POLLS, true), PollStep::Ready);
    assert_eq!(poll_step(1, MASTER_START_POLLS, false), PollStep::Wait);
    assert_eq!(poll_step(49, MASTER_START_POLLS, false), PollStep::Wait);
    assert_eq!(poll_step(50, MASTER_START_POLLS, false), PollStep::GiveUp);
    assert_eq!(poll_step(50, MASTER_START_POLLS, true), PollStep::Ready);
}

#[test]
fn pid_calls() {
    let c = pid_alive_call(1234, false);
    assert_eq!(c.program, "kill");
    assert_eq!(c.args, strings(&["-0", "1234"]));
    let c = pid_alive_call(1234, true);
    assert_eq!(c.program, "tasklist");
    assert_eq!(c.args, strings(&["/FI", "PID eq 1234"]));
    let c = kill_call(1234, false);
    assert_eq!(c.program, "kill");
    assert_eq!(c.args, strings(&["1234"]));
    let c = kill_call(1234, true);
    assert_eq!(c.program, "taskkill");
    assert_eq!(c.args, strings(&["/F", "/PID", "1234"]));
}

#[test]
fn tasklist_output() {
    let out = "Image Name   PID\r\nssh.exe      1234 Console\r\n";
    assert!(tasklist_mentions(out, 1234));
    assert!(!tasklist_mentions(out, 4321));
    assert!(!tasklist_mentions("INFO: No tasks are running", 1234));
}

#[test]
fn netstat_listening_pid() {
    let out = "\r\nActive Connections\r\n\r\n  Proto  Local Address          Foreign Address        State           PID\r\n  TCP    127.0.0.1:5433         0.0.0.0:0              LISTENING       4242\r\n  TCP    127.0.0.1:5434         0.0.0.0:0              LISTENING       99\r\n";
    assert_eq!(find_listening_pid(out, 5433), Some(4242));
    assert_eq!(find_listening_pid(out, 5434), Some(99));
    assert_eq!(find_listening_pid(out, 6000), None);
    assert_eq!(find_listening_pid("", 1), None);
}

#[test]
fn netstat_first_matching_line_decides() {
    let out = "TCP 127.0.0.1:80 LISTENING x\nTCP 127.0.0.1:80 LISTENING 7\n";
    assert_eq!(find_listening_pid(out, 80), None);
    let out = "TCP 127.0.0.1:80 ESTABLISHED 5\nTCP 127.0.0.1:80 LISTENING 7";
    assert_eq!(find_listening_pid(out, 80), Some(7));
}

#[test]
fn last_tokens() {
    assert_eq!(last_token_str("a b  c \t"), Some("c"));
    assert_eq!(last_token_str("   "), None);
    assert_eq!(last_token_str("x"), Some("x"));
    assert_eq!(last_token_str("a\u{3000}bc"), Some("bc"));
}
