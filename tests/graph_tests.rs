use sling::graph::{DijkstraNode, DirectedChannel, GraphError, LnGraph};
use sling::types::{GraphChannel, NodeId, Scid};

fn node(n: u8) -> NodeId {
    NodeId { prefix: 2, x_hi: 0, x_lo: n as u128 }
}

fn scid(b: u32) -> Scid {
    Scid { block: b, txindex: 1, outnum: 0 }
}

fn chan(src: u8, dst: u8, id: u32, cap: u64, htlc_max: Option<u64>, fee: u32) -> GraphChannel {
    GraphChannel {
        source: node(src),
        destination: node(dst),
        short_channel_id: scid(id),
        amount_msat: cap,
        htlc_minimum_msat: 1_000,
        htlc_maximum_msat: htlc_max,
        fee_per_millionth: fee,
    }
}

fn edge(c: GraphChannel, ts: u64) -> DirectedChannel {
    DirectedChannel::new_at(c, ts)
}

fn snapshot(entries: Vec<(u8, Vec<DirectedChannel>)>) -> LnGraph {
    LnGraph { graph: entries.into_iter().map(|(n, v)| (node(n), v)).collect() }
}

fn belief(g: &LnGraph, src: u8, id: u32) -> u64 {
    g.get_channel(&node(src), &scid(id)).unwrap().liquidity
}

#[test]
fn merge_keeps_belief_unless_policy_changes() {
    let x = chan(1, 2, 7, 1_000_000, Some(500_000), 100);
    let mut g = LnGraph::new();
    g.update(snapshot(vec![(1, vec![edge(x, 10)])]));
    assert_eq!(belief(&g, 1, 7), 250_000);

    // external evidence lowered the belief
    g.graph[0].1[0].liquidity = 100_000;
    let mut same = x;
    same.amount_msat = 1_200_000;
    g.update(snapshot(vec![(1, vec![edge(same, 20)])]));
    assert_eq!(belief(&g, 1, 7), 100_000);
    let kept = g.get_channel(&node(1), &scid(7)).unwrap();
    assert_eq!(kept.timestamp, 10);
    assert_eq!(kept.channel.amount_msat, 1_200_000);

    let mut refee = x;
    refee.fee_per_millionth = 200;
    g.update(snapshot(vec![(1, vec![edge(refee, 30)])]));
    let reset = g.get_channel(&node(1), &scid(7)).unwrap();
    assert_eq!(reset.liquidity, 250_000);
    assert_eq!(reset.timestamp, 30);
}

#[test]
fn merge_resets_on_htlc_max_change() {
    let x = chan(1, 2, 7, 1_000_000, Some(500_000), 100);
    let mut g = LnGraph::new();
    g.update(snapshot(vec![(1, vec![edge(x, 10)])]));
    g.graph[0].1[0].liquidity = 1;
    let mut y = x;
    y.htlc_maximum_msat = Some(800_000);
    g.update(snapshot(vec![(1, vec![edge(y, 40)])]));
    assert_eq!(belief(&g, 1, 7), 400_000);
}

#[test]
fn merge_twice_is_idempotent() {
    let snap = snapshot(vec![
        (1, vec![edge(chan(1, 2, 7, 1_000_000, None, 1), 5), edge(chan(1, 3, 8, 2_000, None, 1), 5)]),
        (2, vec![edge(chan(2, 1, 7, 1_000_000, None, 1), 5)]),
    ]);
    let mut g = LnGraph::new();
    g.update(snapshot(vec![(1, vec![edge(chan(1, 2, 7, 1_000_000, None, 1), 1)])]));
    g.graph[0].1[0].liquidity = 42;
    g.update(snap.clone());
    let once = g.clone();
    g.update(snap);
    assert_eq!(g.graph, once.graph);
    assert_eq!(belief(&g, 1, 7), 42);
}

#[test]
fn merge_prunes_vanished_nodes_and_edges() {
    let mut g = LnGraph::new();
    g.update(snapshot(vec![
        (1, vec![edge(chan(1, 2, 7, 1_000, None, 1), 5), edge(chan(1, 3, 8, 1_000, None, 1), 5)]),
        (2, vec![edge(chan(2, 1, 7, 1_000, None, 1), 5)]),
    ]));
    g.update(snapshot(vec![(1, vec![edge(chan(1, 3, 8, 1_000, None, 1), 6)])]));
    assert_eq!(g.get_channel(&node(2), &scid(7)), Err(GraphError::NodeNotFound));
    assert_eq!(g.get_channel(&node(1), &scid(7)), Err(GraphError::ChannelNotFound));
    assert!(g.get_channel(&node(1), &scid(8)).is_ok());
    assert_eq!(g.graph.len(), 1);
}

#[test]
fn refresh_resets_only_stale_beliefs() {
    let mut g = LnGraph::new();
    g.update(snapshot(vec![(
        1,
        vec![
            edge(chan(1, 2, 7, 1_000_000, Some(600_000), 1), 1_000),
            edge(chan(1, 3, 8, 900_000, None, 1), 1_500),
        ],
    )]));
    g.graph[0].1[0].liquidity = 5;
    g.graph[0].1[1].liquidity = 6;
    // ten minutes: at 1_600 the first belief is exactly 600 s old, which
    // does not exceed the interval
    g.refresh_liquidity_at(10, 1_600);
    let a = g.get_channel(&node(1), &scid(7)).unwrap();
    let b = g.get_channel(&node(1), &scid(8)).unwrap();
    assert_eq!((a.liquidity, a.timestamp), (5, 1_000));
    assert_eq!((b.liquidity, b.timestamp), (6, 1_500));
    g.refresh_liquidity_at(10, 1_601);
    let a = g.get_channel(&node(1), &scid(7)).unwrap();
    let b = g.get_channel(&node(1), &scid(8)).unwrap();
    assert_eq!((a.liquidity, a.timestamp), (300_000, 1_601));
    assert_eq!((b.liquidity, b.timestamp), (6, 1_500));
    let once = g.clone();
    g.refresh_liquidity_at(10, 1_601);
    assert_eq!(g.graph, once.graph);
}

#[test]
fn refresh_with_current_time_resets_old_beliefs() {
    let mut g = LnGraph::new();
    g.update(snapshot(vec![(1, vec![edge(chan(1, 2, 7, 1_000_000, None, 1), 0)])]));
    g.graph[0].1[0].liquidity = 5;
    g.refresh_liquidity(1);
    assert_eq!(belief(&g, 1, 7), 500_000);
}

#[test]
fn new_edge_takes_half_of_htlc_max() {
    let e = DirectedChannel::new(chan(1, 2, 7, 1_000_000, Some(300_000), 1));
    assert_eq!(e.liquidity, 150_000);
    let f = DirectedChannel::new(chan(1, 2, 7, 1_000_000, None, 1));
    assert_eq!(f.liquidity, 500_000);
}

#[test]
fn edges_apply_every_filter() {
    let me = 9u8;
    let mut g = LnGraph::new();
    g.update(snapshot(vec![(
        1,
        vec![
            edge(chan(1, 2, 10, 1_000_000, None, 1), 0),          // usable
            edge(chan(1, 3, 11, 100_000, None, 1), 0),            // belief 50,000 < amount
            edge(chan(1, 4, 12, 1_000_000, Some(60_000), 1), 0),  // htlc max below amount
            edge(chan(1, 5, 13, 1_000_000, None, 1), 0),          // excluded peer
            edge(chan(1, 2, 14, 1_000_000, None, 1), 0),          // excluded id
            edge(chan(1, 2, 15, 1_000_000, None, 1), 0),          // temp-banned
            edge(chan(1, me, 16, 1_000_000, None, 1), 0),         // ours, candidate
            edge(chan(1, me, 17, 1_000_000, None, 1), 0),         // ours, not a candidate
        ],
    )]));
    let r = g.edges(
        &node(me),
        &node(1),
        &vec![scid(14)],
        &vec![node(5)],
        70_000,
        &vec![scid(16)],
        &vec![(scid(15), 99)],
    );
    let ids: Vec<u32> = r.iter().map(|e| e.channel.short_channel_id.block).collect();
    assert_eq!(ids, vec![10, 16]);
    assert!(g
        .edges(&node(me), &node(4), &vec![], &vec![], 1, &vec![], &vec![])
        .is_empty());
}

#[test]
fn edges_respect_htlc_minimum() {
    let mut g = LnGraph::new();
    g.update(snapshot(vec![(1, vec![edge(chan(1, 2, 10, 1_000_000, None, 1), 0)])]));
    let r = g.edges(&node(9), &node(1), &vec![], &vec![], 999, &vec![], &vec![]);
    assert!(r.is_empty());
    let r = g.edges(&node(9), &node(1), &vec![], &vec![], 1_000, &vec![], &vec![]);
    assert_eq!(r.len(), 1);
}

#[test]
fn search_nodes_compare_route_fields() {
    let a = DijkstraNode { score: 5, channel: chan(1, 2, 7, 1_000, None, 1), destination: node(2), hops: 1 };
    let mut b = a;
    b.channel.fee_per_millionth = 99;
    assert!(a == b);
    b.hops = 2;
    assert!(a != b);
}

#[test]
fn merge_resets_when_htlc_max_disappears() {
    let x = chan(1, 2, 7, 1_000_000, Some(500_000), 100);
    let mut g = LnGraph::new();
    g.update(snapshot(vec![(1, vec![edge(x, 10)])]));
    g.graph[0].1[0].liquidity = 100_000;
    let mut y = x;
    y.htlc_maximum_msat = None;
    g.update(snapshot(vec![(1, vec![edge(y, 50)])]));
    let e = g.get_channel(&node(1), &scid(7)).unwrap();
    assert_eq!((e.liquidity, e.timestamp), (500_000, 50));
}

#[test]
fn duplicate_edges_are_not_found() {
    let e = edge(chan(1, 2, 7, 1_000, None, 1), 0);
    let g = snapshot(vec![(1, vec![e, e])]);
    assert!(!g.is_wf());
    assert_eq!(g.get_channel(&node(1), &scid(7)), Err(GraphError::ChannelNotFound));
}

#[test]
fn well_formedness_check() {
    let e7 = edge(chan(1, 2, 7, 1_000, None, 1), 0);
    let e8 = edge(chan(1, 2, 8, 1_000, None, 1), 0);
    assert!(LnGraph::new().is_wf());
    assert!(snapshot(vec![(1, vec![e7, e8]), (2, vec![e7])]).is_wf());
    assert!(!snapshot(vec![(1, vec![e7]), (1, vec![e8])]).is_wf());
}
