# zport

One-command SSH port forwarding: forward remote ports to localhost with no
server-side setup.

```
zport myhost:2235          # connect & set default host
zport 8080                 # forward remote :8080 -> local :8080
zport 5432:5433            # forward with explicit local port
zport myhost 3000          # forward on a specific host
zport ls                   # list active forwards
zport close 8080           # stop a forward
zport disconnect           # shut down connection
```

On Linux/macOS one ControlMaster connection per host carries all forwards
(`ssh -O forward` / `ssh -O cancel`); on Windows each forward is its own
`ssh -L` process. State lives in `~/.zport/state.json`.

## Layout

- `src/` is the verified library, proved with Verus:
  - `text.rs`: decimal numbers (parsing as `str::parse` does, formatting as
    `to_string` does, and that the two invert each other), splitting and searching
    text.
  - `cli.rs`: port specs, the positional shorthand, the `forward` arguments.
  - `strmap.rs`: a string-keyed map with distinct keys, viewed as a `Map`.
  - `state.rs`: the state, its forwards, and where the state file and sockets live.
  - `cmd.rs`: what `connect`, `forward`, `ls`, `close` and `disconnect` decide and
    how they change the state.
  - `ssh.rs`: host specs, the `ssh` argument lists, choosing a free local port,
    waiting for a connection.
  - `netstat.rs`: finding the process that listens on a local port.
  - `laws.rs`: how the commands and parsers fit together.
- `app/main.rs` is the program: command-line parsing with clap, the state file
  with serde, and running `ssh`.
- `tests/` exercise the library on concrete values.
