use vstd::prelude::*;

verus! {

/// A short channel identifier: block height, transaction index and output
/// number, compared by value.
#[derive(Clone, Copy, Debug, PartialEq, Eq, Structural, Hash)]
pub struct Scid {
    pub block: u32,
    pub txindex: u32,
    pub outnum: u16,
}

/// A node's compressed public key (33 bytes): the parity byte, then the
/// x coordinate as two big-endian halves.
#[derive(Clone, Copy, Debug, PartialEq, Eq, Structural, Hash)]
pub struct NodeId {
    pub prefix: u8,
    pub x_hi: u128,
    pub x_lo: u128,
}

/// The fields of one direction of a public channel that the graph reads.
#[derive(Clone, Copy, Debug, PartialEq, Eq, Structural)]
pub struct GraphChannel {
    pub source: NodeId,
    pub destination: NodeId,
    pub short_channel_id: Scid,
    pub amount_msat: u64,
    pub htlc_minimum_msat: u64,
    pub htlc_maximum_msat: Option<u64>,
    pub fee_per_millionth: u32,
}

/// The balance fields of one of our own channels; a field is `None` where
/// the channel does not (yet) report it.
#[derive(Clone, Copy, Debug, PartialEq, Eq, Structural)]
pub struct PeerChannel {
    pub total_msat: Option<u64>,
    pub to_us_msat: Option<u64>,
    pub our_reserve_msat: Option<u64>,
    pub their_reserve_msat: Option<u64>,
}

pub fn contains_scid(v: &Vec<Scid>, s: Scid) -> (r: bool)
    ensures
        r == v@.contains(s),
{
    let mut i: usize = 0;
    while i < v.len()
        invariant
            i <= v.len(),
            forall|k: int| 0 <= k < i ==> v@[k] != s,
        decreases v.len() - i,
    {
        if v[i] == s {
            assert(v@[i as int] == s);
            return true;
        }
        i = i + 1;
    }
    false
}

pub fn contains_node(v: &Vec<NodeId>, n: NodeId) -> (r: bool)
    ensures
        r == v@.contains(n),
{
    let mut i: usize = 0;
    while i < v.len()
        invariant
            i <= v.len(),
            forall|k: int| 0 <= k < i ==> v@[k] != n,
        decreases v.len() - i,
    {
        if v[i] == n {
            assert(v@[i as int] == n);
            return true;
        }
        i = i + 1;
    }
    false
}

} // verus!
