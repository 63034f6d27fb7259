use zport::cli::{command_line, forward_request, map_positional, parse_port_spec, CliError};
use zport::ssh::parse_host_spec;

fn strings(v: &[&str]) -> Vec<String> {
    v.iter().map(|s| s.to_string()).collect()
}

#[test]
fn port_spec_remote_only() {
    assert_eq!(parse_port_spec("8080"), Some((8080, None)));
}

#[test]
fn port_spec_remote_and_local() {
    assert_eq!(parse_port_spec("5432:5433"), Some((5432, Some(5433))));
}

#[test]
fn port_spec_rejects_bad_parts() {
    assert_eq!(parse_port_spec("abc"), None);
    assert_eq!(parse_port_spec("80:"), None);
    assert_eq!(parse_port_spec(":80"), None);
    assert_eq!(parse_port_spec("80:x"), None);
    assert_eq!(parse_port_spec("65536"), None);
    assert_eq!(parse_port_spec("1:2:3"), None);
    assert_eq!(parse_port_spec(""), None);
}

#[test]
fn port_spec_follows_u16_parsing() {
    assert_eq!(parse_port_spec("+80"), Some((80, None)));
    assert_eq!(parse_port_spec("0080"), Some((80, None)));
    assert_eq!(parse_port_spec("65535"), Some((65535, None)));
    assert_eq!(parse_port_spec("-1"), None);
    assert_eq!(parse_port_spec("+"), None);
    assert_eq!(parse_port_spec("99999999999999999999"), None);
}

#[test]
fn host_spec_with_port() {
    assert_eq!(parse_host_spec("myhost:2235"), ("myhost", 2235));
    assert_eq!(parse_host_spec("user@host:2200"), ("user@host", 2200));
}

#[test]
fn host_spec_without_port() {
    assert_eq!(parse_host_spec("myhost"), ("myhost", 22));
    assert_eq!(parse_host_spec("user@myhost"), ("user@myhost", 22));
}

#[test]
fn host_spec_ipv6_brackets() {
    assert_eq!(parse_host_spec("[::1]"), ("[::1]", 22));
    assert_eq!(parse_host_spec("[::1]:2235"), ("[::1]", 2235));
}

#[test]
fn host_spec_bad_port_keeps_whole_spec() {
    assert_eq!(parse_host_spec("host:ssh"), ("host:ssh", 22));
    assert_eq!(parse_host_spec("host:70000"), ("host:70000", 22));
}

#[test]
fn positional_port_is_forward() {
    assert_eq!(map_positional(&strings(&["8080"])), Ok(strings(&["zport", "forward", "8080"])));
}

#[test]
fn positional_port_spec_is_forward() {
    assert_eq!(
        map_positional(&strings(&["8080:8081"])),
        Ok(strings(&["zport", "forward", "8080:8081"]))
    );
}

#[test]
fn positional_host_is_connect() {
    assert_eq!(map_positional(&strings(&["myhost"])), Ok(strings(&["zport", "connect", "myhost"])));
    assert_eq!(
        map_positional(&strings(&["myhost:2235"])),
        Ok(strings(&["zport", "connect", "myhost:2235"]))
    );
}

#[test]
fn positional_host_and_port_is_forward_on_host() {
    assert_eq!(
        map_positional(&strings(&["myhost", "8080"])),
        Ok(strings(&["zport", "forward", "8080", "myhost"]))
    );
}

#[test]
fn positional_too_many() {
    assert_eq!(map_positional(&strings(&["a", "b", "c"])), Err(CliError::TooManyArguments));
    assert_eq!(map_positional(&strings(&[])), Err(CliError::TooManyArguments));
}

#[test]
fn command_line_keeps_subcommands_and_flags() {
    let raw = strings(&["zport", "ls"]);
    assert_eq!(command_line(&raw), Ok(raw.clone()));
    let raw = strings(&["zport", "--help"]);
    assert_eq!(command_line(&raw), Ok(raw.clone()));
    let raw = strings(&["zport"]);
    assert_eq!(command_line(&raw), Ok(raw.clone()));
    let raw = strings(&["zport", "close", "8080"]);
    assert_eq!(command_line(&raw), Ok(raw.clone()));
}

#[test]
fn command_line_rewrites_shorthand() {
    assert_eq!(
        command_line(&strings(&["zport", "8080"])),
        Ok(strings(&["zport", "forward", "8080"]))
    );
    assert_eq!(
        command_line(&strings(&["zport", "myhost", "3000"])),
        Ok(strings(&["zport", "forward", "3000", "myhost"]))
    );
    assert_eq!(
        command_line(&strings(&["zport", "a", "b", "c"])),
        Err(CliError::TooManyArguments)
    );
}

#[test]
fn forward_request_without_host() {
    let r = forward_request("8080", None).ok().unwrap();
    assert_eq!(r.host, None);
    assert_eq!(r.ssh_port, None);
    assert_eq!(r.remote, 8080);
    assert_eq!(r.local, None);
}

#[test]
fn forward_request_with_host() {
    let r = forward_request("5432:5433", Some("db:2222")).ok().unwrap();
    assert_eq!(r.host, Some("db".to_string()));
    assert_eq!(r.ssh_port, Some(2222));
    assert_eq!(r.remote, 5432);
    assert_eq!(r.local, Some(5433));
    let r = forward_request("80", Some("web")).ok().unwrap();
    assert_eq!(r.ssh_port, Some(22));
}

#[test]
fn forward_request_invalid_port_spec() {
    assert!(matches!(forward_request("http", None), Err(CliError::InvalidPortSpec)));
    assert!(matches!(forward_request("myhost", Some("8080")), Err(CliError::InvalidPortSpec)));
}
