//! The command line.
use vstd::prelude::*;

verus! {

pub struct Cli {
    pub command: Commands,
    pub verbose: bool,
}

pub enum Commands {
    /// Run the master, moving the files under `source` to the workers.
    Master { source: String },
    /// Run a worker storing into `target`, listening on `port`.
    Worker { target: String, port: u16 },
    /// Manage the registered servers.
    Node(NodeArgs),
    /// Find moved files whose name contains `filename`.
    Search { filename: String },
}

pub struct NodeArgs {
    pub action: NodeAction,
}

pub enum NodeAction {
    Add { ips: Vec<String> },
    List,
    Remove { ip: String },
}

} // verus!
