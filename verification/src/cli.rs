//! The command surface: what an invocation of the tool asks for, as plain
//! data. The shell's argument parser fills these in.

use vstd::prelude::*;

verus! {

/// One invocation of the tool.
#[derive(Debug, Clone)]
pub struct Cli {
    pub command: Commands,
}

/// What the invocation asks for.
#[derive(Debug, Clone)]
pub enum Commands {
    Init { snapshot: Option<String>, version: Option<String>, skip_checks: bool },
    Start { daemon: bool },
    Stop { force: bool },
    Restart { daemon: bool },
    Status { verbose: bool },
    Logs { follow: bool, lines: usize },
    Clean { yes: bool },
    Systemd { force: bool },
}

} // verus!
