//! The command line of the first deployment.
use vstd::prelude::*;

verus! {

pub struct Cli {
    pub command: Command,
}

pub enum Command {
    /// Run the master, moving files from `target` every `interval` seconds.
    Master { interval: u64, target: String },
    /// Run a worker storing into `target`, registered with `master_addr`.
    Worker { master_addr: String, target: String },
    Node(NodeArgs),
}

pub struct NodeArgs {
    pub action: NodeAction,
}

pub enum NodeAction {
    Add { ips: Vec<String> },
    List,
}

} // verus!
