use vstd::prelude::*;
use vstd::string::*;
use vstd::utf8::*;
use crate::types::{PeerChannel, Scid};
use crate::text::{decimal, ratio_text, scid_list_text, push_decimal, push_ratio, scid_list};

verus! {

/// Which way a job moves funds on its channel.
#[derive(Clone, Copy, Debug, PartialEq, Eq, Structural)]
pub enum SatDirection {
    /// Towards the local node.
    Pull,
    /// Away from the local node.
    Push,
}

/// Why a direction could not be read from text.
#[derive(Clone, Copy, Debug, PartialEq, Eq, Structural)]
pub enum DirectionParseError {
    Unknown,
}

pub open spec fn direction_text(d: SatDirection) -> Seq<char> {
    match d {
        SatDirection::Pull => "pull"@,
        SatDirection::Push => "push"@,
    }
}

impl SatDirection {
    /// The lower-case name: "pull" or "push".
    pub fn as_str(&self) -> (r: &'static str)
        ensures
            r@ == direction_text(*self),
    {
        match self {
            SatDirection::Pull => "pull",
            SatDirection::Push => "push",
        }
    }

    /// Reads "pull" or "push"; any other text is refused.
    pub fn parse(s: &str) -> (r: Result<SatDirection, DirectionParseError>)
        ensures
            s@ == "pull"@ <==> r == Ok::<SatDirection, DirectionParseError>(SatDirection::Pull),
            s@ == "push"@ <==> r == Ok::<SatDirection, DirectionParseError>(SatDirection::Push),
            s@ != "pull"@ && s@ != "push"@ <==> r == Err::<SatDirection, DirectionParseError>(
                DirectionParseError::Unknown,
            ),
    {
        proof {
            reveal_strlit("pull");
            reveal_strlit("push");
        }
        if !s.is_ascii() {
            proof {
                if s@ == "pull"@ || s@ == "push"@ {
                    assert(is_ascii_chars(s@));
                }
            }
            return Err(DirectionParseError::Unknown);
        }
        let b = s.as_bytes();
        proof {
            is_ascii_spec_bytes(s);
            assert(b@ =~= Seq::new(s@.len(), |i| s@[i] as u8));
        }
        if b.len() != 4 || b[0] != 112u8 || b[1] != 117u8 {
            return Err(DirectionParseError::Unknown);
        }
        if b[2] == 108u8 && b[3] == 108u8 {
            assert(s@ =~= "pull"@);
            Ok(SatDirection::Pull)
        } else if b[2] == 115u8 && b[3] == 104u8 {
            assert(s@ =~= "push"@);
            Ok(SatDirection::Push)
        } else {
            Err(DirectionParseError::Unknown)
        }
    }
}

impl std::str::FromStr for SatDirection {
    type Err = DirectionParseError;

    fn from_str(s: &str) -> (r: Result<SatDirection, DirectionParseError>)
        ensures
            s@ == "pull"@ <==> r == Ok::<SatDirection, DirectionParseError>(SatDirection::Pull),
            s@ == "push"@ <==> r == Ok::<SatDirection, DirectionParseError>(SatDirection::Push),
            s@ != "pull"@ && s@ != "push"@ <==> r == Err::<SatDirection, DirectionParseError>(
                DirectionParseError::Unknown,
            ),
    {
        SatDirection::parse(s)
    }
}

/// A direction's own text reads back as that direction: "pull" names only
/// `Pull` and "push" only `Push`.
pub proof fn lemma_direction_text_round_trip(d: SatDirection)
    ensures
        direction_text(d) == "pull"@ <==> d == SatDirection::Pull,
        direction_text(d) == "push"@ <==> d == SatDirection::Push,
{
    reveal_strlit("pull");
    reveal_strlit("push");
    assert("pull"@[2] != "push"@[2]);
}

/// The ratio that a job aims for when it names none: one half, in parts
/// per million.
pub const DEFAULT_TARGET_PPM: u32 = 500_000;

/// One rebalancing intent. Ratios (`target`, `depleteuptopercent`) are
/// written in parts per million of the channel's capacity.
#[derive(Clone, Debug, PartialEq, Eq)]
pub struct Job {
    pub sat_direction: SatDirection,
    pub amount: u64,
    pub outppm: Option<u64>,
    pub maxppm: u32,
    pub candidatelist: Option<Vec<Scid>>,
    pub target: Option<u32>,
    pub maxhops: Option<u64>,
    pub depleteuptopercent: Option<u32>,
    pub depleteuptoamount: Option<u64>,
    pub paralleljobs: Option<u8>,
}

pub open spec fn target_ppm(job: &Job) -> int {
    match job.target {
        Some(t) => t as int,
        None => DEFAULT_TARGET_PPM as int,
    }
}

/// The reserve that bounds the target: the counterparty's when pulling,
/// our own when pushing.
pub open spec fn guarding_reserve(job: &Job, ch: PeerChannel) -> int {
    match job.sat_direction {
        SatDirection::Pull => ch.their_reserve_msat->0 as int,
        SatDirection::Push => ch.our_reserve_msat->0 as int,
    }
}

/// Capacity times the target ratio, rounded down.
pub open spec fn raw_target(job: &Job, ch: PeerChannel) -> int {
    (ch.total_msat->0 as int) * target_ppm(job) / 1_000_000
}

/// Whether the raw target leaves less than 1000 above the guarding reserve.
pub open spec fn target_clamped(job: &Job, ch: PeerChannel) -> bool {
    raw_target(job, ch) > ch.total_msat->0 - guarding_reserve(job, ch) - 1000
}

pub open spec fn target_cap_of(job: &Job, ch: PeerChannel) -> int {
    if target_clamped(job, ch) {
        ch.total_msat->0 - guarding_reserve(job, ch) - 2000
    } else {
        raw_target(job, ch)
    }
}

/// The inputs on which the target can be computed: ratio in [0, 1], the
/// capacity and both reserves known, and room for the margin above the
/// guarding reserve.
pub open spec fn target_computable(job: &Job, ch: PeerChannel) -> bool {
    &&& target_ppm(job) <= 1_000_000
    &&& ch.total_msat is Some
    &&& ch.our_reserve_msat is Some
    &&& ch.their_reserve_msat is Some
    &&& guarding_reserve(job, ch) + 1000 <= ch.total_msat->0
    &&& target_clamped(job, ch) ==> guarding_reserve(job, ch) + 2000 <= ch.total_msat->0
}

pub open spec fn balanced(job: &Job, ch: PeerChannel) -> bool {
    match job.sat_direction {
        SatDirection::Pull => ch.to_us_msat->0 >= target_cap_of(job, ch),
        SatDirection::Push => ch.total_msat->0 - ch.to_us_msat->0 >= target_cap_of(job, ch),
    }
}

pub open spec fn balance_known(job: &Job, ch: PeerChannel) -> bool {
    &&& target_computable(job, ch)
    &&& ch.to_us_msat is Some
    &&& ch.to_us_msat->0 <= ch.total_msat->0
}

impl Job {
    /// The absolute balance this job aims for on `channel`.
    pub fn target_cap(&self, channel: &PeerChannel) -> (r: u64)
        requires
            target_computable(self, *channel),
        ensures
            r == target_cap_of(self, *channel),
    {
        let t: u32 = match self.target {
            Some(t) => t,
            None => DEFAULT_TARGET_PPM,
        };
        let total: u64 = channel.total_msat.unwrap();
        let their_reserve: u64 = channel.their_reserve_msat.unwrap();
        let our_reserve: u64 = channel.our_reserve_msat.unwrap();
        proof {
            assert((total as int) * (t as int) <= 0xffff_ffff_ffff_ffff * 0xffff_ffff) by (nonlinear_arith)
                requires total <= 0xffff_ffff_ffff_ffffu64, t <= 0xffff_ffffu32;
        }
        let product: u128 = (total as u128) * (t as u128);
        proof {
            assert((total as int) * (t as int) <= (total as int) * 1_000_000) by (nonlinear_arith)
                requires t <= 1_000_000;
        }
        let raw: u64 = (product / 1_000_000) as u64;
        let reserve: u64 = match self.sat_direction {
            SatDirection::Pull => their_reserve,
            SatDirection::Push => our_reserve,
        };
        if raw > total - reserve - 1000 {
            total - reserve - 2000
        } else {
            raw
        }
    }

    /// Whether `channel` already meets this job's target: for a pull, our
    /// balance reaches the target; for a push, theirs does.
    pub fn is_balanced(&self, channel: &PeerChannel) -> (r: bool)
        requires
            balance_known(self, *channel),
        ensures
            r == balanced(self, *channel),
    {
        let target_cap = self.target_cap(channel);
        let channel_msat: u64 = channel.total_msat.unwrap();
        let to_us_msat: u64 = channel.to_us_msat.unwrap();
        match self.sat_direction {
            SatDirection::Pull => to_us_msat >= target_cap,
            SatDirection::Push => channel_msat - to_us_msat >= target_cap,
        }
    }
}

/// One entry of a job's summary: a key and its text (ASCII).
#[derive(Clone, Debug, PartialEq, Eq)]
pub struct SummaryField {
    pub key: &'static str,
    pub value: Vec<u8>,
}

pub open spec fn field_views(v: Seq<SummaryField>) -> Seq<(Seq<char>, Seq<u8>)> {
    v.map_values(|f: SummaryField| (f.key@, f.value@))
}

pub open spec fn direction_bytes(d: SatDirection) -> Seq<u8> {
    match d {
        SatDirection::Pull => seq![112u8, 117u8, 108u8, 108u8],
        SatDirection::Push => seq![112u8, 117u8, 115u8, 104u8],
    }
}

pub open spec fn optional_field(key: Seq<char>, value: Option<Seq<u8>>) -> Seq<(Seq<char>, Seq<u8>)> {
    match value {
        Some(v) => seq![(key, v)],
        None => Seq::empty(),
    }
}

/// A job's summary: direction, amount in whole units (thousandths dropped),
/// fee cap, then each optional setting that is present; ratios are written
/// as decimals and the deplete amount in whole units.
pub open spec fn summary_of(job: &Job) -> Seq<(Seq<char>, Seq<u8>)> {
    seq![
        ("direction"@, direction_bytes(job.sat_direction)),
        ("amount"@, decimal(job.amount as nat / 1000)),
        ("maxppm"@, decimal(job.maxppm as nat)),
    ] + optional_field("outppm"@, match job.outppm {
        Some(o) => Some(decimal(o as nat)),
        None => None,
    }) + optional_field("target"@, match job.target {
        Some(t) => Some(ratio_text(t as nat)),
        None => None,
    }) + optional_field("maxhops"@, match job.maxhops {
        Some(m) => Some(decimal(m as nat)),
        None => None,
    }) + optional_field("candidates"@, match job.candidatelist {
        Some(c) => Some(scid_list_text(c@)),
        None => None,
    }) + optional_field("depleteuptopercent"@, match job.depleteuptopercent {
        Some(d) => Some(ratio_text(d as nat)),
        None => None,
    }) + optional_field("depleteuptoamount"@, match job.depleteuptoamount {
        Some(d) => Some(decimal(d as nat / 1000)),
        None => None,
    }) + optional_field("paralleljobs"@, match job.paralleljobs {
        Some(p) => Some(decimal(p as nat)),
        None => None,
    })
}

fn push_field(fields: &mut Vec<SummaryField>, key: &'static str, value: Vec<u8>)
    ensures
        field_views(final(fields)@) == field_views(old(fields)@) + seq![(key@, value@)],
{
    let ghost kv = key@;
    let ghost vv = value@;
    fields.push(SummaryField { key, value });
    assert(field_views(fields@) =~= field_views(old(fields)@) + seq![(kv, vv)]);
}

impl Job {
    /// The job's settings as key and text pairs, for reports.
    pub fn summary(&self) -> (r: Vec<SummaryField>)
        ensures
            field_views(r@) == summary_of(self),
    {
        let mut fields: Vec<SummaryField> = Vec::new();
        let ghost f0 = field_views(fields@);
        let dir: Vec<u8> = match self.sat_direction {
            SatDirection::Pull => vec![112u8, 117u8, 108u8, 108u8],
            SatDirection::Push => vec![112u8, 117u8, 115u8, 104u8],
        };
        assert(dir@ =~= direction_bytes(self.sat_direction));
        push_field(&mut fields, "direction", dir);
        let mut amount: Vec<u8> = Vec::new();
        push_decimal(&mut amount, self.amount / 1000);
        assert(amount@ =~= decimal(self.amount as nat / 1000));
        push_field(&mut fields, "amount", amount);
        let mut maxppm: Vec<u8> = Vec::new();
        push_decimal(&mut maxppm, self.maxppm as u64);
        assert(maxppm@ =~= decimal(self.maxppm as nat));
        push_field(&mut fields, "maxppm", maxppm);
        let ghost base = field_views(fields@);
        assert(base =~= seq![
            ("direction"@, direction_bytes(self.sat_direction)),
            ("amount"@, decimal(self.amount as nat / 1000)),
            ("maxppm"@, decimal(self.maxppm as nat)),
        ]);
        let ghost s1 = field_views(fields@);
        if let Some(o) = self.outppm {
            let mut v: Vec<u8> = Vec::new();
            push_decimal(&mut v, o);
            assert(v@ =~= decimal(o as nat));
            push_field(&mut fields, "outppm", v);
        }
        let ghost s2 = field_views(fields@);
        assert(s2 =~= s1 + optional_field("outppm"@, match self.outppm {
            Some(o) => Some(decimal(o as nat)),
            None => None,
        }));
        if let Some(t) = self.target {
            let mut v: Vec<u8> = Vec::new();
            push_ratio(&mut v, t as u64);
            assert(v@ =~= ratio_text(t as nat));
            push_field(&mut fields, "target", v);
        }
        let ghost s3 = field_views(fields@);
        assert(s3 =~= s2 + optional_field("target"@, match self.target {
            Some(t) => Some(ratio_text(t as nat)),
            None => None,
        }));
        if let Some(m) = self.maxhops {
            let mut v: Vec<u8> = Vec::new();
            push_decimal(&mut v, m);
            assert(v@ =~= decimal(m as nat));
            push_field(&mut fields, "maxhops", v);
        }
        let ghost s4 = field_views(fields@);
        assert(s4 =~= s3 + optional_field("maxhops"@, match self.maxhops {
            Some(m) => Some(decimal(m as nat)),
            None => None,
        }));
        match &self.candidatelist {
            Some(c) => {
                let v = scid_list(c);
                push_field(&mut fields, "candidates", v);
            },
            None => {},
        }
        let ghost s5 = field_views(fields@);
        assert(s5 =~= s4 + optional_field("candidates"@, match self.candidatelist {
            Some(c) => Some(scid_list_text(c@)),
            None => None,
        }));
        if let Some(d) = self.depleteuptopercent {
            let mut v: Vec<u8> = Vec::new();
            push_ratio(&mut v, d as u64);
            assert(v@ =~= ratio_text(d as nat));
            push_field(&mut fields, "depleteuptopercent", v);
        }
        let ghost s6 = field_views(fields@);
        assert(s6 =~= s5 + optional_field("depleteuptopercent"@, match self.depleteuptopercent {
            Some(d) => Some(ratio_text(d as nat)),
            None => None,
        }));
        if let Some(d) = self.depleteuptoamount {
            let mut v: Vec<u8> = Vec::new();
            push_decimal(&mut v, d / 1000);
            assert(v@ =~= decimal(d as nat / 1000));
            push_field(&mut fields, "depleteuptoamount", v);
        }
        let ghost s7 = field_views(fields@);
        assert(s7 =~= s6 + optional_field("depleteuptoamount"@, match self.depleteuptoamount {
            Some(d) => Some(decimal(d as nat / 1000)),
            None => None,
        }));
        if let Some(p) = self.paralleljobs {
            let mut v: Vec<u8> = Vec::new();
            push_decimal(&mut v, p as u64);
            assert(v@ =~= decimal(p as nat));
            push_field(&mut fields, "paralleljobs", v);
        }
        let ghost s8 = field_views(fields@);
        assert(s8 =~= s7 + optional_field("paralleljobs"@, match self.paralleljobs {
            Some(p) => Some(decimal(p as nat)),
            None => None,
        }));
        assert(field_views(fields@) =~= summary_of(self));
        fields
    }
}

/// The computed target always leaves at least 1000 above the guarding
/// reserve, and exactly 2000 when it had to be pulled back.
pub proof fn lemma_target_respects_reserve(job: &Job, ch: PeerChannel)
    requires
        target_computable(job, ch),
    ensures
        target_cap_of(job, ch) + guarding_reserve(job, ch) + 1000 <= ch.total_msat->0,
        target_clamped(job, ch) ==> target_cap_of(job, ch) == ch.total_msat->0
            - guarding_reserve(job, ch) - 2000,
        0 <= target_cap_of(job, ch) <= ch.total_msat->0,
{
    let total = ch.total_msat->0 as int;
    let t = target_ppm(job);
    assert(0 <= total * t / 1_000_000 <= total) by (nonlinear_arith)
        requires 0 <= t <= 1_000_000, 0 <= total;
}

/// For a pull job, a larger local balance on the same channel never turns a
/// balanced channel into an unbalanced one.
pub proof fn lemma_pull_balance_monotonic(job: &Job, ch: PeerChannel, more: PeerChannel)
    requires
        job.sat_direction == SatDirection::Pull,
        balance_known(job, ch),
        balance_known(job, more),
        more.total_msat == ch.total_msat,
        more.our_reserve_msat == ch.our_reserve_msat,
        more.their_reserve_msat == ch.their_reserve_msat,
        ch.to_us_msat->0 <= more.to_us_msat->0,
    ensures
        balanced(job, ch) ==> balanced(job, more),
{
}

} // verus!
