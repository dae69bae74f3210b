use vstd::prelude::*;
use crate::types::NodeId;

verus! {

/// A configuration option: its name and its value.
#[derive(Clone, Debug, PartialEq, Eq)]
pub struct ConfigOption<T>(pub String, pub T);

/// The configuration options, each as its option name and value; ratios are
/// in parts per million.
#[derive(Clone, Debug, PartialEq, Eq)]
pub struct Config {
    pub pubkey: Option<NodeId>,
    pub utf8: ConfigOption<bool>,
    pub refresh_peers_interval: ConfigOption<u64>,
    pub refresh_aliasmap_interval: ConfigOption<u64>,
    pub refresh_graph_interval: ConfigOption<u64>,
    pub reset_liquidity_interval: ConfigOption<u64>,
    pub depleteuptopercent: ConfigOption<u32>,
    pub depleteuptoamount: ConfigOption<u64>,
    pub paralleljobs: ConfigOption<u8>,
    pub timeoutpay: ConfigOption<u16>,
    pub max_htlc_count: ConfigOption<u64>,
    pub lightning_cli: ConfigOption<String>,
    pub stats_delete_failures_age: ConfigOption<u64>,
    pub stats_delete_failures_size: ConfigOption<u64>,
    pub stats_delete_successes_age: ConfigOption<u64>,
    pub stats_delete_successes_size: ConfigOption<u64>,
    pub cltv_delta: ConfigOption<Option<u16>>,
    pub channel_health: ConfigOption<bool>,
}

impl Config {
    /// The options with their default values.
    pub fn new() -> (r: Config)
        ensures
            r.pubkey is None,
            r.utf8.0@ == "sling-utf8"@ && r.utf8.1,
            r.refresh_peers_interval.0@ == "sling-refresh-peers-interval"@
                && r.refresh_peers_interval.1 == 1,
            r.refresh_aliasmap_interval.0@ == "sling-refresh-aliasmap-interval"@
                && r.refresh_aliasmap_interval.1 == 3600,
            r.refresh_graph_interval.0@ == "sling-refresh-graph-interval"@
                && r.refresh_graph_interval.1 == 600,
            r.reset_liquidity_interval.0@ == "sling-reset-liquidity-interval"@
                && r.reset_liquidity_interval.1 == 360,
            r.depleteuptopercent.0@ == "sling-depleteuptopercent"@ && r.depleteuptopercent.1
                == 200_000,
            r.depleteuptoamount.0@ == "sling-depleteuptoamount"@ && r.depleteuptoamount.1
                == 2_000_000_000,
            r.paralleljobs.0@ == "sling-paralleljobs"@ && r.paralleljobs.1 == 1,
            r.timeoutpay.0@ == "sling-timeoutpay"@ && r.timeoutpay.1 == 120,
            r.max_htlc_count.0@ == "sling-max-htlc-count"@ && r.max_htlc_count.1 == 5,
            r.lightning_cli.0@ == "sling-lightning-cli"@ && r.lightning_cli.1@ == "lightning-cli"@,
            r.stats_delete_failures_age.0@ == "sling-stats-delete-failures-age"@
                && r.stats_delete_failures_age.1 == 30,
            r.stats_delete_failures_size.0@ == "sling-stats-delete-failures-size"@
                && r.stats_delete_failures_size.1 == 10_000,
            r.stats_delete_successes_age.0@ == "sling-stats-delete-successes-age"@
                && r.stats_delete_successes_age.1 == 30,
            r.stats_delete_successes_size.0@ == "sling-stats-delete-successes-size"@
                && r.stats_delete_successes_size.1 == 10_000,
            r.cltv_delta.0@ == "cltv-delta"@ && r.cltv_delta.1 is None,
            r.channel_health.0@ == "sling-channel-health"@ && !r.channel_health.1,
    {
        Config {
            pubkey: None,
            utf8: ConfigOption("sling-utf8".to_owned(), true),
            refresh_peers_interval: ConfigOption("sling-refresh-peers-interval".to_owned(), 1),
            refresh_aliasmap_interval: ConfigOption("sling-refresh-aliasmap-interval".to_owned(), 3600),
            refresh_graph_interval: ConfigOption("sling-refresh-graph-interval".to_owned(), 600),
            reset_liquidity_interval: ConfigOption("sling-reset-liquidity-interval".to_owned(), 360),
            depleteuptopercent: ConfigOption("sling-depleteuptopercent".to_owned(), 200_000),
            depleteuptoamount: ConfigOption("sling-depleteuptoamount".to_owned(), 2_000_000_000),
            paralleljobs: ConfigOption("sling-paralleljobs".to_owned(), 1),
            timeoutpay: ConfigOption("sling-timeoutpay".to_owned(), 120),
            max_htlc_count: ConfigOption("sling-max-htlc-count".to_owned(), 5),
            lightning_cli: ConfigOption("sling-lightning-cli".to_owned(), "lightning-cli".to_owned()),
            stats_delete_failures_age: ConfigOption("sling-stats-delete-failures-age".to_owned(), 30),
            stats_delete_failures_size: ConfigOption("sling-stats-delete-failures-size".to_owned(), 10_000),
            stats_delete_successes_age: ConfigOption("sling-stats-delete-successes-age".to_owned(), 30),
            stats_delete_successes_size: ConfigOption("sling-stats-delete-successes-size".to_owned(), 10_000),
            cltv_delta: ConfigOption("cltv-delta".to_owned(), None),
            channel_health: ConfigOption("sling-channel-health".to_owned(), false),
        }
    }
}

} // verus!
