use vstd::prelude::*;

verus! {

/// Rebalanced volume through one channel partner.
#[derive(Clone, Debug, PartialEq, Eq)]
pub struct ChannelPartnerStats {
    pub scid: String,
    pub alias: String,
    pub sats: u64,
}

/// Number of rebalances through one peer.
#[derive(Clone, Debug, PartialEq, Eq)]
pub struct PeerPartnerStats {
    pub peer_id: String,
    pub alias: String,
    pub count: u64,
}

/// One row of the per-channel report.
#[derive(Clone, Debug, PartialEq, Eq)]
pub struct StatSummary {
    pub alias: String,
    pub scid: String,
    pub pubkey: String,
    pub status: String,
    pub rebamount: String,
    pub w_feeppm: u64,
    pub last_route_taken: String,
    pub last_success_reb: String,
}

} // verus!
