//! zport: one-command SSH port forwarding, the verified core.

pub mod text;
pub mod cli;
pub mod strmap;
pub mod state;
pub mod cmd;
pub mod ssh;
pub mod netstat;
pub mod laws;
