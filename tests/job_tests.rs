use sling::job::{DirectionParseError, Job, SatDirection};
use sling::types::PeerChannel;

fn job(direction: SatDirection, target: Option<u32>) -> Job {
    Job {
        sat_direction: direction,
        amount: 100_000,
        outppm: None,
        maxppm: 500,
        candidatelist: None,
        target,
        maxhops: None,
        depleteuptopercent: None,
        depleteuptoamount: None,
        paralleljobs: None,
    }
}

fn channel(total: u64, to_us: u64, our_reserve: u64, their_reserve: u64) -> PeerChannel {
    PeerChannel {
        total_msat: Some(total),
        to_us_msat: Some(to_us),
        our_reserve_msat: Some(our_reserve),
        their_reserve_msat: Some(their_reserve),
    }
}

#[test]
fn pull_job_becomes_balanced_at_target() {
    let j = job(SatDirection::Pull, Some(600_000));
    let before = channel(1_000_000, 500_000, 10_000, 10_000);
    assert_eq!(j.target_cap(&before), 600_000);
    assert!(!j.is_balanced(&before));
    let after = channel(1_000_000, 600_000, 10_000, 10_000);
    assert!(j.is_balanced(&after));
}

#[test]
fn default_target_is_half() {
    let j = job(SatDirection::Push, None);
    assert_eq!(j.target_cap(&channel(2_000_000, 0, 0, 0)), 1_000_000);
}

#[test]
fn pull_target_clamped_below_their_reserve() {
    let j = job(SatDirection::Pull, Some(1_000_000));
    let ch = channel(1_000_000, 0, 5_000, 10_000);
    let cap = j.target_cap(&ch);
    assert_eq!(cap, 1_000_000 - 10_000 - 2_000);
}

#[test]
fn push_target_clamped_below_our_reserve() {
    let j = job(SatDirection::Push, Some(995_500));
    let ch = channel(1_000_000, 0, 4_000, 50_000);
    // raw target 995,500 leaves only 500 above 1,000,000 - 4,000
    assert_eq!(j.target_cap(&ch), 1_000_000 - 4_000 - 2_000);
}

#[test]
fn target_just_outside_margin_is_kept() {
    let j = job(SatDirection::Pull, Some(988_000));
    let ch = channel(1_000_000, 0, 0, 10_000);
    // 988,000 < 1,000,000 - 10,000 - 1,000 = 989,000
    assert_eq!(j.target_cap(&ch), 988_000);
}

#[test]
fn target_never_crosses_reserve_margin() {
    for t in [0u32, 250_000, 500_000, 988_000, 989_000, 992_000, 993_000, 1_000_000] {
        for dir in [SatDirection::Pull, SatDirection::Push] {
            let j = job(dir, Some(t));
            let ch = channel(1_000_000, 0, 7_000, 11_000);
            let reserve = if dir == SatDirection::Pull { 11_000 } else { 7_000 };
            let cap = j.target_cap(&ch);
            assert!(cap + reserve + 1_000 <= 1_000_000);
        }
    }
}

#[test]
fn push_balanced_by_their_side() {
    let j = job(SatDirection::Push, Some(600_000));
    assert!(!j.is_balanced(&channel(1_000_000, 500_000, 0, 0)));
    assert!(j.is_balanced(&channel(1_000_000, 400_000, 0, 0)));
}

#[test]
fn pull_balance_monotonic_in_local_share() {
    let j = job(SatDirection::Pull, Some(500_000));
    let mut was_balanced = false;
    for local in (0..=1_000_000u64).step_by(50_000) {
        let b = j.is_balanced(&channel(1_000_000, local, 1_000, 1_000));
        assert!(!was_balanced || b);
        was_balanced = b;
    }
    assert!(was_balanced);
}

#[test]
fn direction_parses_and_prints() {
    assert_eq!(SatDirection::parse("pull"), Ok(SatDirection::Pull));
    assert_eq!(SatDirection::parse("push"), Ok(SatDirection::Push));
    assert_eq!(SatDirection::parse("Pull"), Err(DirectionParseError::Unknown));
    assert_eq!(SatDirection::parse("pulls"), Err(DirectionParseError::Unknown));
    assert_eq!(SatDirection::parse(""), Err(DirectionParseError::Unknown));
    assert_eq!(SatDirection::parse("püll"), Err(DirectionParseError::Unknown));
    assert_eq!(SatDirection::Pull.as_str(), "pull");
    assert_eq!(SatDirection::Push.as_str(), "push");
}

#[test]
fn direction_from_str() {
    assert_eq!("push".parse::<SatDirection>(), Ok(SatDirection::Push));
    assert_eq!("sideways".parse::<SatDirection>(), Err(DirectionParseError::Unknown));
}

#[test]
fn target_at_exact_margin_is_kept() {
    let j = job(SatDirection::Pull, Some(988_000));
    let ch = channel(1_000_000, 0, 0, 11_000);
    // leaves exactly 1000 above their reserve
    assert_eq!(j.target_cap(&ch), 988_000);
    let j = job(SatDirection::Pull, Some(988_001));
    assert_eq!(j.target_cap(&ch), 1_000_000 - 11_000 - 2_000);
}

#[test]
fn direction_text_reads_back() {
    for d in [SatDirection::Pull, SatDirection::Push] {
        assert_eq!(d.as_str().parse::<SatDirection>(), Ok(d));
    }
    assert!("PUSH".parse::<SatDirection>().is_err());
    assert!(" pull".parse::<SatDirection>().is_err());
}
