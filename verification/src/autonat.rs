use vstd::prelude::*;

verus! {

/// What the automatic NAT probe currently knows about this node's reachability.
#[derive(Debug, Clone)]
pub enum AutonatStatus {
    ConfiguredPrivate,
    Checking,
    Private,
    Public,
}

} // verus!
