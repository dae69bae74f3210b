use sling::config::Config;
use sling::job::{Job, SatDirection, SummaryField};
use sling::types::Scid;

fn text(fields: &[SummaryField]) -> Vec<(String, String)> {
    fields
        .iter()
        .map(|f| (f.key.to_string(), String::from_utf8(f.value.clone()).unwrap()))
        .collect()
}

fn pair(k: &str, v: &str) -> (String, String) {
    (k.to_string(), v.to_string())
}

#[test]
fn summary_of_minimal_job() {
    let j = Job {
        sat_direction: SatDirection::Push,
        amount: 100_999,
        outppm: None,
        maxppm: 0,
        candidatelist: None,
        target: None,
        maxhops: None,
        depleteuptopercent: None,
        depleteuptoamount: None,
        paralleljobs: None,
    };
    assert_eq!(
        text(&j.summary()),
        vec![pair("direction", "push"), pair("amount", "100"), pair("maxppm", "0")]
    );
}

#[test]
fn summary_of_full_job() {
    let j = Job {
        sat_direction: SatDirection::Pull,
        amount: 1_000_000,
        outppm: Some(250),
        maxppm: 1200,
        candidatelist: Some(vec![
            Scid { block: 700_000, txindex: 12, outnum: 1 },
            Scid { block: 5, txindex: 0, outnum: 0 },
        ]),
        target: Some(600_000),
        maxhops: Some(8),
        depleteuptopercent: Some(250_000),
        depleteuptoamount: Some(2_000_000_000),
        paralleljobs: Some(3),
    };
    assert_eq!(
        text(&j.summary()),
        vec![
            pair("direction", "pull"),
            pair("amount", "1000"),
            pair("maxppm", "1200"),
            pair("outppm", "250"),
            pair("target", "0.6"),
            pair("maxhops", "8"),
            pair("candidates", "700000x12x1, 5x0x0"),
            pair("depleteuptopercent", "0.25"),
            pair("depleteuptoamount", "2000000"),
            pair("paralleljobs", "3"),
        ]
    );
}

#[test]
fn summary_ratio_forms() {
    let mut j = Job {
        sat_direction: SatDirection::Pull,
        amount: 0,
        outppm: None,
        maxppm: 1,
        candidatelist: Some(vec![]),
        target: Some(1_000_000),
        maxhops: None,
        depleteuptopercent: Some(0),
        depleteuptoamount: None,
        paralleljobs: None,
    };
    let t = text(&j.summary());
    assert_eq!(t[3], pair("target", "1"));
    assert_eq!(t[4], pair("candidates", ""));
    assert_eq!(t[5], pair("depleteuptopercent", "0"));
    j.target = Some(1);
    assert_eq!(text(&j.summary())[3], pair("target", "0.000001"));
    j.target = Some(1_050_000);
    assert_eq!(text(&j.summary())[3], pair("target", "1.05"));
}

#[test]
fn config_defaults() {
    let c = Config::new();
    assert!(c.pubkey.is_none());
    assert_eq!(c.utf8.0, "sling-utf8");
    assert!(c.utf8.1);
    assert_eq!(c.refresh_graph_interval.1, 600);
    assert_eq!(c.reset_liquidity_interval.0, "sling-reset-liquidity-interval");
    assert_eq!(c.reset_liquidity_interval.1, 360);
    assert_eq!(c.depleteuptopercent.1, 200_000);
    assert_eq!(c.depleteuptoamount.1, 2_000_000_000);
    assert_eq!(c.lightning_cli.1, "lightning-cli");
    assert_eq!(c.cltv_delta.0, "cltv-delta");
    assert_eq!(c.cltv_delta.1, None);
    assert_eq!(c.stats_delete_successes_size.1, 10_000);
}
