use vstd::prelude::*;
use crate::types::{GraphChannel, NodeId, Scid, contains_node, contains_scid};

verus! {

/// One direction of a channel with the belief of how much it can carry,
/// and when that belief was last reset (seconds since the epoch).
#[derive(Clone, Copy, Debug, PartialEq, Eq, Structural)]
pub struct DirectedChannel {
    pub channel: GraphChannel,
    pub liquidity: u64,
    pub timestamp: u64,
}

/// The largest amount one payment part may carry over the channel.
pub open spec fn htlc_max_or_capacity(c: GraphChannel) -> u64 {
    match c.htlc_maximum_msat {
        Some(m) => m,
        None => c.amount_msat,
    }
}

/// The belief of a channel that nothing is known of: half of what it can
/// carry.
pub open spec fn default_liquidity(c: GraphChannel) -> u64 {
    (htlc_max_or_capacity(c) / 2) as u64
}

pub open spec fn scid_of(e: DirectedChannel) -> Scid {
    e.channel.short_channel_id
}

/// The edges of one node keyed by channel id; a later entry shadows an
/// earlier one with the same id.
pub open spec fn edge_find(s: Seq<DirectedChannel>, k: Scid) -> Option<DirectedChannel>
    decreases s.len(),
{
    if s.len() == 0 {
        None
    } else if scid_of(s.last()) == k {
        Some(s.last())
    } else {
        edge_find(s.drop_last(), k)
    }
}

pub open spec fn edge_map(s: Seq<DirectedChannel>) -> Map<Scid, DirectedChannel> {
    Map::new(|k: Scid| edge_find(s, k) is Some, |k: Scid| edge_find(s, k)->0)
}

/// The outgoing edges recorded for node `n`; a later entry shadows an
/// earlier one.
pub open spec fn node_find(g: Seq<(NodeId, Vec<DirectedChannel>)>, n: NodeId) -> Option<
    Seq<DirectedChannel>,
>
    decreases g.len(),
{
    if g.len() == 0 {
        None
    } else if g.last().0 == n {
        Some(g.last().1@)
    } else {
        node_find(g.drop_last(), n)
    }
}

pub open spec fn graph_map(g: Seq<(NodeId, Vec<DirectedChannel>)>) -> Map<
    NodeId,
    Map<Scid, DirectedChannel>,
> {
    Map::new(|n: NodeId| node_find(g, n) is Some, |n: NodeId| edge_map(node_find(g, n)->0))
}

pub open spec fn unique_scids(s: Seq<DirectedChannel>) -> bool {
    forall|a: int, b: int| 0 <= a < b < s.len() ==> scid_of(s[a]) != scid_of(s[b])
}

/// A change of policy: the htlc maximum (including whether one is stated)
/// or the fee rate differs.
pub open spec fn policy_changed(old: GraphChannel, new: GraphChannel) -> bool {
    old.htlc_maximum_msat != new.htlc_maximum_msat || old.fee_per_millionth
        != new.fee_per_millionth
}

/// The edge that a merge keeps for the fresh edge `e`: the fresh metadata,
/// with the old belief unless the edge is new or its policy changed.
pub open spec fn merged_edge(old: Map<Scid, DirectedChannel>, e: DirectedChannel) -> DirectedChannel {
    if old.contains_key(scid_of(e)) && !policy_changed(old[scid_of(e)].channel, e.channel) {
        DirectedChannel {
            channel: e.channel,
            liquidity: old[scid_of(e)].liquidity,
            timestamp: old[scid_of(e)].timestamp,
        }
    } else {
        e
    }
}

pub open spec fn merged_edges(old: Map<Scid, DirectedChannel>, new: Map<Scid, DirectedChannel>) -> Map<
    Scid,
    DirectedChannel,
> {
    Map::new(|k: Scid| new.contains_key(k), |k: Scid| merged_edge(old, new[k]))
}

pub open spec fn old_edges(
    old: Map<NodeId, Map<Scid, DirectedChannel>>,
    n: NodeId,
) -> Map<Scid, DirectedChannel> {
    if old.contains_key(n) {
        old[n]
    } else {
        Map::empty()
    }
}

/// The graph after merging snapshot `new` into `old`: exactly the nodes and
/// edges of `new`, each with its merged belief.
pub open spec fn merged_graph(
    old: Map<NodeId, Map<Scid, DirectedChannel>>,
    new: Map<NodeId, Map<Scid, DirectedChannel>>,
) -> Map<NodeId, Map<Scid, DirectedChannel>> {
    Map::new(|n: NodeId| new.contains_key(n), |n: NodeId| merged_edges(old_edges(old, n), new[n]))
}

/// A belief is stale once more than `interval` minutes have passed since it
/// was set.
pub open spec fn stale(e: DirectedChannel, interval: u64, now: u64) -> bool {
    e.timestamp + interval * 60 < now
}

pub open spec fn refreshed(e: DirectedChannel, interval: u64, now: u64) -> DirectedChannel {
    if stale(e, interval, now) {
        DirectedChannel {
            channel: e.channel,
            liquidity: default_liquidity(e.channel),
            timestamp: now,
        }
    } else {
        e
    }
}

pub open spec fn refreshed_edges(m: Map<Scid, DirectedChannel>, interval: u64, now: u64) -> Map<
    Scid,
    DirectedChannel,
> {
    Map::new(|k: Scid| m.contains_key(k), |k: Scid| refreshed(m[k], interval, now))
}

/// The graph with every stale belief reset to its default and stamped `now`.
pub open spec fn refreshed_graph(
    g: Map<NodeId, Map<Scid, DirectedChannel>>,
    interval: u64,
    now: u64,
) -> Map<NodeId, Map<Scid, DirectedChannel>> {
    Map::new(|n: NodeId| g.contains_key(n), |n: NodeId| refreshed_edges(g[n], interval, now))
}

pub open spec fn same_ids(a: Seq<DirectedChannel>, b: Seq<DirectedChannel>) -> bool {
    &&& a.len() == b.len()
    &&& forall|j: int| 0 <= j < a.len() ==> scid_of(#[trigger] a[j]) == scid_of(b[j])
}

/// What a merge of `snapshot` into `old` leaves, entry by entry: the
/// snapshot's nodes in its order, and under each node the snapshot's edges in
/// its order, each merged with the node's old edges.
pub open spec fn merge_result(old: LnGraph, snapshot: LnGraph, out: LnGraph) -> bool {
    &&& out.graph@.len() == snapshot.graph@.len()
    &&& forall|k: int|
        0 <= k < out.graph@.len() ==> {
            &&& (#[trigger] out.graph@[k]).0 == snapshot.graph@[k].0
            &&& out.graph@[k].1@.len() == snapshot.graph@[k].1@.len()
            &&& forall|j: int|
                0 <= j < out.graph@[k].1@.len() ==> #[trigger] out.graph@[k].1@[j] == merged_edge(
                    old_edges(old@, snapshot.graph@[k].0),
                    snapshot.graph@[k].1@[j],
                )
        }
}

/// What a refresh of `old` at `now` leaves, entry by entry: the same nodes
/// and edges in the same order, each edge refreshed.
pub open spec fn refresh_result(old: LnGraph, interval: u64, now: u64, out: LnGraph) -> bool {
    &&& out.graph@.len() == old.graph@.len()
    &&& forall|k: int|
        0 <= k < out.graph@.len() ==> {
            &&& (#[trigger] out.graph@[k]).0 == old.graph@[k].0
            &&& out.graph@[k].1@.len() == old.graph@[k].1@.len()
            &&& forall|j: int|
                0 <= j < out.graph@[k].1@.len() ==> #[trigger] out.graph@[k].1@[j] == refreshed(
                    old.graph@[k].1@[j],
                    interval,
                    now,
                )
        }
}

/// The conditions under which a path search may use edge `e` for `amount`.
pub open spec fn edge_usable(
    e: DirectedChannel,
    mypubkey: NodeId,
    exclude: Seq<Scid>,
    exclude_peers: Seq<NodeId>,
    amount: u64,
    candidatelist: Seq<Scid>,
    tempbans: Seq<(Scid, u64)>,
) -> bool {
    &&& !exclude.contains(scid_of(e))
    &&& !banned(tempbans, scid_of(e))
    &&& e.liquidity >= amount
    &&& e.channel.htlc_minimum_msat <= amount
    &&& htlc_max_or_capacity(e.channel) >= amount
    &&& !exclude_peers.contains(e.channel.source)
    &&& !exclude_peers.contains(e.channel.destination)
    &&& (e.channel.source == mypubkey || e.channel.destination == mypubkey) ==> candidatelist.contains(
        scid_of(e),
    )
}

/// The edges of `s` that a path search may use, in their order.
pub open spec fn usable_edges(
    s: Seq<DirectedChannel>,
    mypubkey: NodeId,
    exclude: Seq<Scid>,
    exclude_peers: Seq<NodeId>,
    amount: u64,
    candidatelist: Seq<Scid>,
    tempbans: Seq<(Scid, u64)>,
) -> Seq<DirectedChannel> {
    s.filter(
        |e: DirectedChannel|
            edge_usable(e, mypubkey, exclude, exclude_peers, amount, candidatelist, tempbans),
    )
}

pub open spec fn banned(tempbans: Seq<(Scid, u64)>, s: Scid) -> bool {
    exists|k: int| 0 <= k < tempbans.len() && tempbans[k].0 == s
}

/// Why a lookup in the graph failed.
#[derive(Clone, Copy, Debug, PartialEq, Eq, Structural)]
pub enum GraphError {
    /// The source node is not in the graph.
    NodeNotFound,
    /// The node is there, but not exactly one edge with that channel id
    /// leaves it.
    ChannelNotFound,
}

/// The liquidity graph: for each node, the directed channels that leave it.
#[derive(Clone, Debug)]
pub struct LnGraph {
    pub graph: Vec<(NodeId, Vec<DirectedChannel>)>,
}

/// A node reached during path search: its score, the channel that reached
/// it, where that channel leads, and the hop count so far.
#[derive(Clone, Copy, Debug)]
pub struct DijkstraNode {
    pub score: u64,
    pub channel: GraphChannel,
    pub destination: NodeId,
    pub hops: u64,
}

pub open spec fn same_search_node(a: DijkstraNode, b: DijkstraNode) -> bool {
    &&& a.score == b.score
    &&& a.hops == b.hops
    &&& a.channel.source == b.channel.source
    &&& a.channel.destination == b.channel.destination
    &&& a.channel.short_channel_id == b.channel.short_channel_id
    &&& a.destination == b.destination
}

impl PartialEq for DijkstraNode {
    /// Equal when score, hops, the channel's endpoints and id, and the
    /// destination agree; other channel metadata is not compared.
    fn eq(&self, other: &Self) -> (r: bool)
        ensures
            r == same_search_node(*self, *other),
    {
        self.score == other.score && self.hops == other.hops && self.channel.source
            == other.channel.source && self.channel.destination == other.channel.destination
            && self.channel.short_channel_id == other.channel.short_channel_id && self.destination
            == other.destination
    }
}

impl vstd::std_specs::cmp::PartialEqSpecImpl for DijkstraNode {
    open spec fn obeys_eq_spec() -> bool {
        true
    }

    open spec fn eq_spec(&self, other: &DijkstraNode) -> bool {
        same_search_node(*self, *other)
    }
}

proof fn lemma_edge_map_push(s: Seq<DirectedChannel>, x: DirectedChannel)
    ensures
        edge_map(s.push(x)) == edge_map(s).insert(scid_of(x), x),
{
    assert(s.push(x).drop_last() =~= s);
    assert(edge_map(s.push(x)) =~= edge_map(s).insert(scid_of(x), x));
}

proof fn lemma_graph_map_push(g: Seq<(NodeId, Vec<DirectedChannel>)>, x: (NodeId, Vec<DirectedChannel>))
    ensures
        graph_map(g.push(x)) == graph_map(g).insert(x.0, edge_map(x.1@)),
{
    assert(g.push(x).drop_last() =~= g);
    assert(graph_map(g.push(x)) =~= graph_map(g).insert(x.0, edge_map(x.1@)));
}

proof fn lemma_edge_map_keys(s: Seq<DirectedChannel>, k: Scid)
    ensures
        edge_map(s).contains_key(k) ==> scid_of(edge_map(s)[k]) == k,
    decreases s.len(),
{
    if s.len() > 0 {
        lemma_edge_map_keys(s.drop_last(), k);
    }
}

/// A key of the graph's view is the channel id of the edge stored under it.
pub proof fn lemma_graph_map_keys(g: Seq<(NodeId, Vec<DirectedChannel>)>, n: NodeId, k: Scid)
    ensures
        graph_map(g).contains_key(n) && graph_map(g)[n].contains_key(k) ==> scid_of(
            graph_map(g)[n][k],
        ) == k,
{
    if node_find(g, n) is Some {
        lemma_edge_map_keys(node_find(g, n)->0, k);
    }
}

/// How many edges of `s` have channel id `k`.
pub open spec fn match_count(s: Seq<DirectedChannel>, k: Scid) -> nat
    decreases s.len(),
{
    if s.len() == 0 {
        0
    } else {
        match_count(s.drop_last(), k) + if scid_of(s.last()) == k {
            1nat
        } else {
            0nat
        }
    }
}

proof fn lemma_absent_not_found(s: Seq<DirectedChannel>, k: Scid)
    requires
        forall|i: int| 0 <= i < s.len() ==> scid_of(s[i]) != k,
    ensures
        edge_find(s, k) is None,
    decreases s.len(),
{
    if s.len() > 0 {
        assert(scid_of(s[s.len() - 1]) != k);
        lemma_absent_not_found(s.drop_last(), k);
    }
}

proof fn lemma_unique_count(s: Seq<DirectedChannel>, k: Scid)
    requires
        unique_scids(s),
    ensures
        match_count(s, k) == (if edge_find(s, k) is Some {
            1nat
        } else {
            0nat
        }),
    decreases s.len(),
{
    if s.len() > 0 {
        let t = s.drop_last();
        assert(unique_scids(t)) by {
            assert forall|a: int, b: int| 0 <= a < b < t.len() implies scid_of(t[a]) != scid_of(
                t[b],
            ) by {
                assert(t[a] == s[a] && t[b] == s[b]);
            }
        }
        lemma_unique_count(t, k);
        if scid_of(s.last()) == k {
            assert forall|i: int| 0 <= i < t.len() implies scid_of(t[i]) != k by {
                assert(t[i] == s[i]);
                assert(scid_of(s[i]) != scid_of(s[s.len() - 1]));
            }
            lemma_absent_not_found(t, k);
        }
    }
}

fn scids_unique(v: &Vec<DirectedChannel>) -> (r: bool)
    ensures
        r == unique_scids(v@),
{
    let n = v.len();
    let mut a: usize = 0;
    while a < n
        invariant
            n == v.len(),
            a <= n,
            forall|x: int, y: int| 0 <= x < a && x < y < n ==> scid_of(v@[x]) != scid_of(v@[y]),
        decreases n - a,
    {
        let mut b: usize = a + 1;
        while b < n
            invariant
                n == v.len(),
                a < n,
                a + 1 <= b <= n,
                forall|y: int| a < y < b ==> scid_of(v@[a as int]) != scid_of(v@[y]),
                forall|x: int, y: int| 0 <= x < a && x < y < n ==> scid_of(v@[x]) != scid_of(v@[y]),
            decreases n - b,
        {
            if v[a].channel.short_channel_id == v[b].channel.short_channel_id {
                return false;
            }
            b = b + 1;
        }
        a = a + 1;
    }
    true
}

fn htlc_max_or_cap(c: &GraphChannel) -> (r: u64)
    ensures
        r == htlc_max_or_capacity(*c),
{
    match c.htlc_maximum_msat {
        Some(m) => m,
        None => c.amount_msat,
    }
}

fn policy_differs(old: &GraphChannel, new: &GraphChannel) -> (r: bool)
    ensures
        r == policy_changed(*old, *new),
{
    let htlc_changed = match (old.htlc_maximum_msat, new.htlc_maximum_msat) {
        (Some(a), Some(b)) => a != b,
        (None, None) => false,
        _ => true,
    };
    htlc_changed || old.fee_per_millionth != new.fee_per_millionth
}

fn is_banned(tempbans: &Vec<(Scid, u64)>, s: Scid) -> (r: bool)
    ensures
        r == banned(tempbans@, s),
{
    let mut i: usize = 0;
    while i < tempbans.len()
        invariant
            i <= tempbans.len(),
            forall|k: int| 0 <= k < i ==> tempbans@[k].0 != s,
        decreases tempbans.len() - i,
    {
        if tempbans[i].0 == s {
            return true;
        }
        i = i + 1;
    }
    false
}

/// The index of the entry that `edge_find` picks for `k`.
fn find_edge(v: &Vec<DirectedChannel>, k: Scid) -> (r: Option<usize>)
    ensures
        r matches Some(i) ==> i < v.len() && edge_find(v@, k) == Some(v@[i as int]),
        r is None ==> edge_find(v@, k) is None,
{
    let mut found: Option<usize> = None;
    let mut j: usize = 0;
    while j < v.len()
        invariant
            j <= v.len(),
            found matches Some(i) ==> i < j && edge_find(v@.take(j as int), k) == Some(
                v@[i as int],
            ),
            found is None ==> edge_find(v@.take(j as int), k) is None,
        decreases v.len() - j,
    {
        proof {
            assert(v@.take(j as int + 1).drop_last() =~= v@.take(j as int));
        }
        if v[j].channel.short_channel_id == k {
            found = Some(j);
        }
        j = j + 1;
    }
    proof {
        assert(v@.take(v.len() as int) =~= v@);
    }
    found
}

fn merge_edges(old: &Vec<DirectedChannel>, new: &Vec<DirectedChannel>) -> (r: Vec<DirectedChannel>)
    ensures
        edge_map(r@) == merged_edges(edge_map(old@), edge_map(new@)),
        same_ids(r@, new@),
        forall|j: int| 0 <= j < r.len() ==> #[trigger] r@[j] == merged_edge(edge_map(old@), new@[j]),
{
    let mut r: Vec<DirectedChannel> = Vec::new();
    let mut j: usize = 0;
    proof {
        assert(edge_map(r@) =~= merged_edges(edge_map(old@), edge_map(new@.take(0))));
    }
    while j < new.len()
        invariant
            j <= new.len(),
            r.len() == j,
            forall|t: int| 0 <= t < j ==> scid_of(#[trigger] r@[t]) == scid_of(new@[t]),
            forall|t: int| 0 <= t < j ==> #[trigger] r@[t] == merged_edge(edge_map(old@), new@[t]),
            edge_map(r@) == merged_edges(edge_map(old@), edge_map(new@.take(j as int))),
        decreases new.len() - j,
    {
        let e = new[j];
        let m = match find_edge(old, e.channel.short_channel_id) {
            Some(k) => {
                let o = old[k];
                if !policy_differs(&o.channel, &e.channel) {
                    DirectedChannel { channel: e.channel, liquidity: o.liquidity, timestamp: o.timestamp }
                } else {
                    e
                }
            },
            None => e,
        };
        proof {
            let om = edge_map(old@);
            let nm = edge_map(new@.take(j as int));
            assert(m == merged_edge(om, e));
            lemma_edge_map_push(r@, m);
            assert(new@.take(j as int + 1) =~= new@.take(j as int).push(e));
            lemma_edge_map_push(new@.take(j as int), e);
            assert(merged_edges(om, nm.insert(scid_of(e), e)) =~= merged_edges(om, nm).insert(
                scid_of(e),
                merged_edge(om, e),
            ));
        }
        r.push(m);
        j = j + 1;
    }
    proof {
        assert(new@.take(new.len() as int) =~= new@);
    }
    r
}

fn refresh_edges(v: &Vec<DirectedChannel>, interval: u64, now: u64) -> (r: Vec<DirectedChannel>)
    ensures
        r.len() == v.len(),
        forall|j: int| 0 <= j < v.len() ==> #[trigger] r@[j] == refreshed(v@[j], interval, now),
        edge_map(r@) == refreshed_edges(edge_map(v@), interval, now),
        same_ids(r@, v@),
{
    let mut r: Vec<DirectedChannel> = Vec::new();
    let mut j: usize = 0;
    proof {
        assert(edge_map(r@) =~= refreshed_edges(edge_map(v@.take(0)), interval, now));
    }
    while j < v.len()
        invariant
            j <= v.len(),
            r.len() == j,
            forall|t: int| 0 <= t < j ==> #[trigger] r@[t] == refreshed(v@[t], interval, now),
            edge_map(r@) == refreshed_edges(edge_map(v@.take(j as int)), interval, now),
        decreases v.len() - j,
    {
        let e = v[j];
        let m = if (e.timestamp as u128) + (interval as u128) * 60 < now as u128 {
            DirectedChannel {
                channel: e.channel,
                liquidity: htlc_max_or_cap(&e.channel) / 2,
                timestamp: now,
            }
        } else {
            e
        };
        proof {
            let vm = edge_map(v@.take(j as int));
            lemma_edge_map_push(r@, m);
            assert(v@.take(j as int + 1) =~= v@.take(j as int).push(e));
            lemma_edge_map_push(v@.take(j as int), e);
            assert(refreshed_edges(vm.insert(scid_of(e), e), interval, now) =~= refreshed_edges(
                vm,
                interval,
                now,
            ).insert(scid_of(e), m));
        }
        r.push(m);
        j = j + 1;
    }
    proof {
        assert(v@.take(v.len() as int) =~= v@);
    }
    r
}

impl LnGraph {
    pub open spec fn view(&self) -> Map<NodeId, Map<Scid, DirectedChannel>> {
        graph_map(self.graph@)
    }

    /// Each node appears once, and under it each channel id once.
    pub open spec fn wf(&self) -> bool {
        &&& forall|i: int, j: int|
            0 <= i < j < self.graph@.len() ==> self.graph@[i].0 != self.graph@[j].0
        &&& forall|i: int| 0 <= i < self.graph@.len() ==> unique_scids(#[trigger] self.graph@[i].1@)
    }
}


impl DirectedChannel {
    /// A fresh edge with the default belief, stamped `now`.
    pub fn new_at(channel: GraphChannel, now: u64) -> (r: DirectedChannel)
        ensures
            r.channel == channel,
            r.liquidity == default_liquidity(channel),
            r.timestamp == now,
    {
        DirectedChannel { channel, liquidity: htlc_max_or_cap(&channel) / 2, timestamp: now }
    }

    /// A fresh edge with the default belief, stamped with the current time.
    pub fn new(channel: GraphChannel) -> (r: DirectedChannel)
        ensures
            r.channel == channel,
            r.liquidity == default_liquidity(channel),
    {
        DirectedChannel::new_at(channel, unix_now())
    }
}

/// Relies on std's `SystemTime::now`, read as whole seconds since the Unix
/// epoch (0 for a clock set before it).
#[verifier::external_body]
fn unix_now() -> (r: u64) {
    std::time::SystemTime::now().duration_since(std::time::UNIX_EPOCH).map(|d| d.as_secs()).unwrap_or(
        0,
    )
}

impl LnGraph {
    pub fn new() -> (r: LnGraph)
        ensures
            r.wf(),
            r@ == Map::<NodeId, Map<Scid, DirectedChannel>>::empty(),
    {
        let r = LnGraph { graph: Vec::new() };
        assert(r@ =~= Map::<NodeId, Map<Scid, DirectedChannel>>::empty());
        r
    }

    /// The index of the entry that `node_find` picks for `n`.
    fn find_node(&self, n: &NodeId) -> (r: Option<usize>)
        ensures
            r matches Some(i) ==> i < self.graph.len() && self.graph@[i as int].0 == *n
                && node_find(self.graph@, *n) == Some(self.graph@[i as int].1@),
            r is None ==> node_find(self.graph@, *n) is None,
    {
        let mut found: Option<usize> = None;
        let mut i: usize = 0;
        while i < self.graph.len()
            invariant
                i <= self.graph.len(),
                found matches Some(k) ==> k < i && self.graph@[k as int].0 == *n && node_find(
                    self.graph@.take(i as int),
                    *n,
                ) == Some(self.graph@[k as int].1@),
                found is None ==> node_find(self.graph@.take(i as int), *n) is None,
            decreases self.graph.len() - i,
        {
            proof {
                assert(self.graph@.take(i as int + 1).drop_last() =~= self.graph@.take(i as int));
            }
            if self.graph[i].0 == *n {
                found = Some(i);
            }
            i = i + 1;
        }
        proof {
            assert(self.graph@.take(self.graph.len() as int) =~= self.graph@);
        }
        found
    }

    /// Merges a fresh snapshot into the graph: afterwards it holds exactly
    /// the snapshot's nodes and edges, each edge with the snapshot's metadata
    /// and with its earlier belief kept unless the edge is new or its policy
    /// (htlc maximum or fee rate) changed.
    pub fn update(&mut self, new_graph: LnGraph)
        requires
            old(self).wf(),
            new_graph.wf(),
        ensures
            final(self).wf(),
            final(self)@ == merged_graph(old(self)@, new_graph@),
            merge_result(*old(self), new_graph, *final(self)),
    {
        let mut result: Vec<(NodeId, Vec<DirectedChannel>)> = Vec::new();
        let empty: Vec<DirectedChannel> = Vec::new();
        let mut i: usize = 0;
        proof {
            assert(graph_map(result@) =~= merged_graph(self@, graph_map(new_graph.graph@.take(0))));
        }
        while i < new_graph.graph.len()
            invariant
                i <= new_graph.graph.len(),
                result.len() == i,
                empty@.len() == 0,
                forall|k: int| 0 <= k < i ==> (#[trigger] result@[k]).0 == new_graph.graph@[k].0,
                forall|k: int| 0 <= k < i ==> same_ids((#[trigger] result@[k]).1@, new_graph.graph@[k].1@),
                forall|k: int, j: int|
                    0 <= k < i && 0 <= j < result@[k].1@.len() ==> #[trigger] result@[k].1@[j]
                        == merged_edge(old_edges(self@, new_graph.graph@[k].0), new_graph.graph@[k].1@[j]),
                graph_map(result@) == merged_graph(self@, graph_map(new_graph.graph@.take(i as int))),
            decreases new_graph.graph.len() - i,
        {
            let node = new_graph.graph[i].0;
            let chans = &new_graph.graph[i].1;
            let old_idx = self.find_node(&node);
            let old_chans: &Vec<DirectedChannel> = match old_idx {
                Some(k) => &self.graph[k].1,
                None => &empty,
            };
            proof {
                if old_idx is None {
                    assert(edge_map(old_chans@) =~= Map::<Scid, DirectedChannel>::empty());
                }
                assert(edge_map(old_chans@) == old_edges(self@, node));
            }
            let merged = merge_edges(old_chans, chans);
            proof {
                let nm = graph_map(new_graph.graph@.take(i as int));
                let em = edge_map(chans@);
                lemma_graph_map_push(result@, (node, merged));
                assert(new_graph.graph@.take(i as int + 1) =~= new_graph.graph@.take(i as int).push(
                    new_graph.graph@[i as int],
                ));
                lemma_graph_map_push(new_graph.graph@.take(i as int), new_graph.graph@[i as int]);
                assert(merged_graph(self@, nm.insert(node, em)) =~= merged_graph(self@, nm).insert(
                    node,
                    merged_edges(old_edges(self@, node), em),
                ));
            }
            result.push((node, merged));
            i = i + 1;
        }
        proof {
            assert(new_graph.graph@.take(new_graph.graph.len() as int) =~= new_graph.graph@);
            assert forall|k: int| 0 <= k < result@.len() implies unique_scids(
                #[trigger] result@[k].1@,
            ) by {
                assert(unique_scids(new_graph.graph@[k].1@));
                assert(same_ids(result@[k].1@, new_graph.graph@[k].1@));
            }
        }
        self.graph = result;
    }

    /// Resets every belief older than `interval` minutes at time `now` to
    /// the default and stamps it `now`; the other edges are left as they are.
    pub fn refresh_liquidity_at(&mut self, interval: u64, now: u64)
        requires
            old(self).wf(),
        ensures
            final(self).wf(),
            final(self)@ == refreshed_graph(old(self)@, interval, now),
            refresh_result(*old(self), interval, now, *final(self)),
    {
        let mut result: Vec<(NodeId, Vec<DirectedChannel>)> = Vec::new();
        let mut i: usize = 0;
        proof {
            assert(graph_map(result@) =~= refreshed_graph(graph_map(self.graph@.take(0)), interval, now));
        }
        while i < self.graph.len()
            invariant
                i <= self.graph.len(),
                result.len() == i,
                forall|k: int| 0 <= k < i ==> (#[trigger] result@[k]).0 == self.graph@[k].0,
                forall|k: int| 0 <= k < i ==> same_ids((#[trigger] result@[k]).1@, self.graph@[k].1@),
                forall|k: int, j: int|
                    0 <= k < i && 0 <= j < result@[k].1@.len() ==> #[trigger] result@[k].1@[j]
                        == refreshed(self.graph@[k].1@[j], interval, now),
                graph_map(result@) == refreshed_graph(graph_map(self.graph@.take(i as int)), interval, now),
            decreases self.graph.len() - i,
        {
            let node = self.graph[i].0;
            let fresh = refresh_edges(&self.graph[i].1, interval, now);
            proof {
                let gm = graph_map(self.graph@.take(i as int));
                let em = edge_map(self.graph@[i as int].1@);
                lemma_graph_map_push(result@, (node, fresh));
                assert(self.graph@.take(i as int + 1) =~= self.graph@.take(i as int).push(
                    self.graph@[i as int],
                ));
                lemma_graph_map_push(self.graph@.take(i as int), self.graph@[i as int]);
                assert(refreshed_graph(gm.insert(node, em), interval, now) =~= refreshed_graph(
                    gm,
                    interval,
                    now,
                ).insert(node, refreshed_edges(em, interval, now)));
            }
            result.push((node, fresh));
            i = i + 1;
        }
        proof {
            assert(self.graph@.take(self.graph.len() as int) =~= self.graph@);
            assert forall|k: int| 0 <= k < result@.len() implies unique_scids(
                #[trigger] result@[k].1@,
            ) by {
                assert(unique_scids(self.graph@[k].1@));
                assert(same_ids(result@[k].1@, self.graph@[k].1@));
            }
        }
        self.graph = result;
    }

    /// `refresh_liquidity_at` with the current time.
    pub fn refresh_liquidity(&mut self, interval: u64)
        requires
            old(self).wf(),
        ensures
            final(self).wf(),
            exists|now: u64|
                final(self)@ == refreshed_graph(old(self)@, interval, now) && refresh_result(
                    *old(self),
                    interval,
                    now,
                    *final(self),
                ),
    {
        let now = unix_now();
        self.refresh_liquidity_at(interval, now);
    }

    /// The edge with id `channel` leaving `source`. It is an error when the
    /// node is unknown, or when not exactly one edge with that id leaves it.
    pub fn get_channel(&self, source: &NodeId, channel: &Scid) -> (r: Result<DirectedChannel, GraphError>)
        ensures
            !self@.contains_key(*source) <==> r == Err::<DirectedChannel, GraphError>(
                GraphError::NodeNotFound,
            ),
            self@.contains_key(*source) && match_count(node_find(self.graph@, *source)->0, *channel)
                != 1 <==> r == Err::<DirectedChannel, GraphError>(GraphError::ChannelNotFound),
            self@.contains_key(*source) && match_count(node_find(self.graph@, *source)->0, *channel)
                == 1 ==> r == Ok::<DirectedChannel, GraphError>(self@[*source][*channel]),
            self.wf() && self@.contains_key(*source) ==> (match_count(
                node_find(self.graph@, *source)->0,
                *channel,
            ) == 1 <==> self@[*source].contains_key(*channel)),
    {
        let k = match self.find_node(source) {
            Some(k) => k,
            None => {
                return Err(GraphError::NodeNotFound);
            },
        };
        let v = &self.graph[k].1;
        proof {
            if self.wf() {
                assert(unique_scids(self.graph@[k as int].1@));
                lemma_unique_count(v@, *channel);
            }
        }
        let mut found: Option<usize> = None;
        let mut count: usize = 0;
        let mut j: usize = 0;
        while j < v.len()
            invariant
                j <= v.len(),
                v@ == self.graph@[k as int].1@,
                count <= j,
                count == match_count(v@.take(j as int), *channel),
                count == 0 <==> found is None,
                found matches Some(x) ==> x < j && edge_find(v@.take(j as int), *channel) == Some(
                    v@[x as int],
                ),
                found is None ==> edge_find(v@.take(j as int), *channel) is None,
            decreases v.len() - j,
        {
            proof {
                assert(v@.take(j as int + 1).drop_last() =~= v@.take(j as int));
            }
            if v[j].channel.short_channel_id == *channel {
                found = Some(j);
                count = count + 1;
            }
            j = j + 1;
        }
        proof {
            assert(v@.take(v.len() as int) =~= v@);
        }
        if count != 1 {
            return Err(GraphError::ChannelNotFound);
        }
        match found {
            Some(x) => Ok(v[x]),
            None => Err(GraphError::ChannelNotFound),
        }
    }

    /// Whether the graph is well formed: each node once, and each channel id
    /// once under its node.
    pub fn is_wf(&self) -> (r: bool)
        ensures
            r == self.wf(),
    {
        let n = self.graph.len();
        let mut a: usize = 0;
        while a < n
            invariant
                n == self.graph.len(),
                a <= n,
                forall|x: int, y: int| 0 <= x < a && x < y < n ==> self.graph@[x].0 != self.graph@[y].0,
                forall|x: int| 0 <= x < a ==> unique_scids(#[trigger] self.graph@[x].1@),
            decreases n - a,
        {
            if !scids_unique(&self.graph[a].1) {
                return false;
            }
            let mut b: usize = a + 1;
            while b < n
                invariant
                    n == self.graph.len(),
                    a < n,
                    a + 1 <= b <= n,
                    forall|y: int| a < y < b ==> self.graph@[a as int].0 != self.graph@[y].0,
                    forall|x: int, y: int| 0 <= x < a && x < y < n ==> self.graph@[x].0 != self.graph@[y].0,
                decreases n - b,
            {
                if self.graph[a].0 == self.graph[b].0 {
                    return false;
                }
                b = b + 1;
            }
            a = a + 1;
        }
        true
    }

    /// The edges leaving `node` that a path search may use for `amount`, in
    /// their stored order; none where the node is unknown.
    pub fn edges(
        &self,
        mypubkey: &NodeId,
        node: &NodeId,
        exclude: &Vec<Scid>,
        exclude_peers: &Vec<NodeId>,
        amount: u64,
        candidatelist: &Vec<Scid>,
        tempbans: &Vec<(Scid, u64)>,
    ) -> (r: Vec<DirectedChannel>)
        ensures
            r@ == match node_find(self.graph@, *node) {
                Some(s) => usable_edges(
                    s,
                    *mypubkey,
                    exclude@,
                    exclude_peers@,
                    amount,
                    candidatelist@,
                    tempbans@,
                ),
                None => Seq::empty(),
            },
            forall|i: int|
                0 <= i < r.len() ==> {
                    &&& (#[trigger] r@[i]).liquidity >= amount
                    &&& r@[i].channel.htlc_minimum_msat <= amount
                    &&& htlc_max_or_capacity(r@[i].channel) >= amount
                    &&& !exclude_peers@.contains(r@[i].channel.source)
                    &&& !exclude_peers@.contains(r@[i].channel.destination)
                },
    {
        let mut r: Vec<DirectedChannel> = Vec::new();
        let k = match self.find_node(node) {
            Some(k) => k,
            None => {
                return r;
            },
        };
        let v = &self.graph[k].1;
        let mut j: usize = 0;
        proof {
            reveal(Seq::filter);
        }
        while j < v.len()
            invariant
                j <= v.len(),
                r@ == usable_edges(
                    v@.take(j as int),
                    *mypubkey,
                    exclude@,
                    exclude_peers@,
                    amount,
                    candidatelist@,
                    tempbans@,
                ),
                forall|i: int|
                    0 <= i < r.len() ==> edge_usable(
                        #[trigger] r@[i],
                        *mypubkey,
                        exclude@,
                        exclude_peers@,
                        amount,
                        candidatelist@,
                        tempbans@,
                    ),
            decreases v.len() - j,
        {
            let e = v[j];
            let sc = e.channel.short_channel_id;
            let touches_us = e.channel.source == *mypubkey || e.channel.destination == *mypubkey;
            let usable = !contains_scid(exclude, sc) && !is_banned(tempbans, sc) && e.liquidity >= amount
                && e.channel.htlc_minimum_msat <= amount && htlc_max_or_cap(&e.channel) >= amount
                && !contains_node(exclude_peers, e.channel.source) && !contains_node(
                exclude_peers,
                e.channel.destination,
            ) && (!touches_us || contains_scid(candidatelist, sc));
            proof {
                reveal(Seq::filter);
                assert(v@.take(j as int + 1).drop_last() =~= v@.take(j as int));
                assert(v@.take(j as int + 1).last() == e);
                assert(usable == edge_usable(
                    e,
                    *mypubkey,
                    exclude@,
                    exclude_peers@,
                    amount,
                    candidatelist@,
                    tempbans@,
                ));
            }
            if usable {
                r.push(e);
            }
            j = j + 1;
        }
        proof {
            assert(v@.take(v.len() as int) =~= v@);
        }
        r
    }
}

/// Merging the same snapshot twice leaves the graph as the first merge
/// left it.
pub proof fn lemma_update_idempotent(g: LnGraph, snapshot: LnGraph)
    requires
        g.wf(),
        snapshot.wf(),
    ensures
        merged_graph(merged_graph(g@, snapshot@), snapshot@) == merged_graph(g@, snapshot@),
{
    let once = merged_graph(g@, snapshot@);
    let twice = merged_graph(once, snapshot@);
    assert forall|n: NodeId| #[trigger] twice.contains_key(n) implies twice[n] == once[n] by {
        assert forall|k: Scid| #[trigger] twice[n].contains_key(k) implies twice[n][k] == once[n][k] by {
            lemma_graph_map_keys(snapshot.graph@, n, k);
        }
        assert(twice[n] =~= once[n]);
    }
    assert(twice =~= once);
}

/// After a merge, a node is in the graph exactly when the snapshot has it,
/// and an edge leaves it exactly when the snapshot has that edge: whatever
/// the snapshot lacks is gone.
pub proof fn lemma_update_prunes(g: LnGraph, snapshot: LnGraph, n: NodeId, k: Scid)
    requires
        g.wf(),
        snapshot.wf(),
    ensures
        merged_graph(g@, snapshot@).contains_key(n) <==> snapshot@.contains_key(n),
        merged_graph(g@, snapshot@).contains_key(n) ==> (merged_graph(g@, snapshot@)[n].contains_key(k)
            <==> snapshot@[n].contains_key(k)),
{
}

proof fn lemma_node_find_at(g: Seq<(NodeId, Vec<DirectedChannel>)>, k: int)
    requires
        0 <= k < g.len(),
        forall|i: int, j: int| 0 <= i < j < g.len() ==> g[i].0 != g[j].0,
    ensures
        node_find(g, g[k].0) == Some(g[k].1@),
    decreases g.len(),
{
    if k < g.len() - 1 {
        assert(g.drop_last()[k] == g[k]);
        lemma_node_find_at(g.drop_last(), k);
    }
}

proof fn lemma_edge_find_at(s: Seq<DirectedChannel>, j: int)
    requires
        0 <= j < s.len(),
        unique_scids(s),
    ensures
        edge_find(s, scid_of(s[j])) == Some(s[j]),
    decreases s.len(),
{
    if j < s.len() - 1 {
        assert(s.drop_last()[j] == s[j]);
        lemma_edge_find_at(s.drop_last(), j);
    }
}

/// In a well-formed graph, every stored edge is what the view holds under
/// its node and channel id.
pub proof fn lemma_view_holds_entry(g: LnGraph, k: int, j: int)
    requires
        g.wf(),
        0 <= k < g.graph@.len(),
        0 <= j < g.graph@[k].1@.len(),
    ensures
        g@.contains_key(g.graph@[k].0),
        g@[g.graph@[k].0] == edge_map(g.graph@[k].1@),
        g@[g.graph@[k].0].contains_key(scid_of(g.graph@[k].1@[j])),
        g@[g.graph@[k].0][scid_of(g.graph@[k].1@[j])] == g.graph@[k].1@[j],
{
    lemma_node_find_at(g.graph@, k);
    assert(unique_scids(g.graph@[k].1@));
    lemma_edge_find_at(g.graph@[k].1@, j);
}

/// Merging the same snapshot a second time leaves every stored entry as the
/// first merge left it: the same nodes, and under each the same edges in the
/// same order.
pub proof fn lemma_update_twice_same_entries(
    g: LnGraph,
    snapshot: LnGraph,
    once: LnGraph,
    twice: LnGraph,
)
    requires
        g.wf(),
        snapshot.wf(),
        once.wf(),
        merge_result(g, snapshot, once),
        merge_result(once, snapshot, twice),
    ensures
        twice.graph@.len() == once.graph@.len(),
        forall|k: int|
            0 <= k < twice.graph@.len() ==> (#[trigger] twice.graph@[k]).0 == once.graph@[k].0
                && twice.graph@[k].1@ == once.graph@[k].1@,
{
    assert forall|k: int| 0 <= k < twice.graph@.len() implies (#[trigger] twice.graph@[k]).0
        == once.graph@[k].0 && twice.graph@[k].1@ == once.graph@[k].1@ by {
        assert forall|j: int| 0 <= j < twice.graph@[k].1@.len() implies #[trigger] twice.graph@[k].1@[j]
            == once.graph@[k].1@[j] by {
            lemma_view_holds_entry(once, k, j);
        }
        assert(twice.graph@[k].1@ =~= once.graph@[k].1@);
    }
}

/// A second refresh at the same instant leaves every stored entry as the
/// first left it.
pub proof fn lemma_refresh_twice_same_entries(
    g: LnGraph,
    interval: u64,
    now: u64,
    once: LnGraph,
    twice: LnGraph,
)
    requires
        refresh_result(g, interval, now, once),
        refresh_result(once, interval, now, twice),
    ensures
        twice.graph@.len() == once.graph@.len(),
        forall|k: int|
            0 <= k < twice.graph@.len() ==> (#[trigger] twice.graph@[k]).0 == once.graph@[k].0
                && twice.graph@[k].1@ == once.graph@[k].1@,
{
    assert forall|k: int| 0 <= k < twice.graph@.len() implies (#[trigger] twice.graph@[k]).0
        == once.graph@[k].0 && twice.graph@[k].1@ == once.graph@[k].1@ by {
        assert forall|j: int| 0 <= j < twice.graph@[k].1@.len() implies #[trigger] twice.graph@[k].1@[j]
            == once.graph@[k].1@[j] by {
            assert(once.graph@[k].1@[j] == refreshed(g.graph@[k].1@[j], interval, now));
        }
        assert(twice.graph@[k].1@ =~= once.graph@[k].1@);
    }
}

} // verus!
