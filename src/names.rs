use vstd::prelude::*;

verus! {

pub const SUCCESSES_SUFFIX: &'static str = "_successes.json";
pub const FAILURES_SUFFIX: &'static str = "_failures.json";
pub const NO_ALIAS_SET: &'static str = "NO_ALIAS_SET";
pub const PLUGIN_NAME: &'static str = "sling";
pub const GRAPH_FILE_NAME: &'static str = "graph.json";
pub const JOB_FILE_NAME: &'static str = "jobs.json";
pub const EXCEPTS_CHANS_FILE_NAME: &'static str = "excepts.json";
pub const EXCEPTS_PEERS_FILE_NAME: &'static str = "excepts_peers.json";

} // verus!
