use vstd::prelude::*;
use crate::types::{NodeId, Scid};

verus! {

/// The byte that ends each record of a ledger.
pub const NEWLINE: u8 = 10;

/// One successful rebalance.
#[derive(Clone, Copy, Debug, PartialEq, Eq, Structural)]
pub struct SuccessReb {
    pub amount_msat: u64,
    pub fee_ppm: u32,
    pub channel_partner: Scid,
    pub hops: u8,
    pub completed_at: u64,
}

/// One failed rebalance attempt.
#[derive(Clone, Debug, PartialEq, Eq)]
pub struct FailureReb {
    pub amount_msat: u64,
    pub failure_reason: String,
    pub failure_node: NodeId,
    pub channel_partner: Scid,
    pub hops: u8,
    pub created_at: u64,
}

/// A record can be stored when it holds no line break.
pub open spec fn storable(r: Seq<u8>) -> bool {
    !r.contains(NEWLINE)
}

/// The ledger text that appending `records` in order produces.
pub open spec fn framed(records: Seq<Seq<u8>>) -> Seq<u8>
    decreases records.len(),
{
    if records.len() == 0 {
        Seq::empty()
    } else {
        framed(records.drop_last()) + records.last() + seq![NEWLINE]
    }
}

/// Reading `b` from the start: the finished lines, and the line begun.
pub open spec fn scan_lines(b: Seq<u8>) -> (Seq<Seq<u8>>, Seq<u8>)
    decreases b.len(),
{
    if b.len() == 0 {
        (Seq::empty(), Seq::empty())
    } else {
        let (done, cur) = scan_lines(b.drop_last());
        if b.last() == NEWLINE {
            (done.push(cur), Seq::empty())
        } else {
            (done, cur.push(b.last()))
        }
    }
}

/// The lines of `b`: each one ends at a line break, and a last one without
/// a break counts where it is not empty.
pub open spec fn split_lines(b: Seq<u8>) -> Seq<Seq<u8>> {
    let (done, cur) = scan_lines(b);
    if cur.len() == 0 {
        done
    } else {
        done.push(cur)
    }
}

pub open spec fn views(v: Seq<Vec<u8>>) -> Seq<Seq<u8>> {
    v.map_values(|x: Vec<u8>| x@)
}

proof fn lemma_scan_append(p: Seq<u8>, r: Seq<u8>)
    requires
        storable(r),
    ensures
        scan_lines(p + r) == (scan_lines(p).0, scan_lines(p).1 + r),
    decreases r.len(),
{
    if r.len() == 0 {
        assert(p + r =~= p);
        assert(scan_lines(p).1 + r =~= scan_lines(p).1);
    } else {
        let init = r.drop_last();
        assert(!init.contains(NEWLINE)) by {
            if init.contains(NEWLINE) {
                let i = choose|i: int| 0 <= i < init.len() && init[i] == NEWLINE;
                assert(r[i] == NEWLINE);
            }
        }
        lemma_scan_append(p, init);
        assert((p + r).drop_last() =~= p + init);
        assert(r.last() != NEWLINE) by {
            assert(r[r.len() - 1] == r.last());
        }
        assert(scan_lines(p + init).1.push(r.last()) =~= scan_lines(p).1 + r);
    }
}

/// Appending records one by one and reading the lines back gives exactly
/// those records, in order.
pub proof fn lemma_ledger_round_trip(records: Seq<Seq<u8>>)
    requires
        forall|i: int| 0 <= i < records.len() ==> storable(#[trigger] records[i]),
    ensures
        split_lines(framed(records)) == records,
        scan_lines(framed(records)) == (records, Seq::<u8>::empty()),
    decreases records.len(),
{
    if records.len() > 0 {
        let init = records.drop_last();
        lemma_ledger_round_trip(init);
        let last = records.last();
        assert(storable(records[records.len() - 1]));
        lemma_scan_append(framed(init), last);
        let b = framed(records);
        assert(b.drop_last() =~= framed(init) + last);
        assert(Seq::<u8>::empty() + last =~= last);
        assert(init.push(last) =~= records);
    }
}

/// Appends one record and its line break to the ledger text `log`.
pub fn append_record(log: &mut Vec<u8>, record: &Vec<u8>)
    requires
        storable(record@),
    ensures
        final(log)@ == old(log)@ + record@ + seq![NEWLINE],
{
    let mut i: usize = 0;
    while i < record.len()
        invariant
            i <= record.len(),
            log@ == old(log)@ + record@.take(i as int),
        decreases record.len() - i,
    {
        log.push(record[i]);
        i = i + 1;
        assert(log@ =~= old(log)@ + record@.take(i as int));
    }
    log.push(NEWLINE);
    assert(record@.take(record.len() as int) =~= record@);
}

/// Cuts the ledger text `contents` into its lines.
pub fn split_records(contents: &Vec<u8>) -> (r: Vec<Vec<u8>>)
    ensures
        views(r@) == split_lines(contents@),
{
    let mut done: Vec<Vec<u8>> = Vec::new();
    let mut cur: Vec<u8> = Vec::new();
    let mut i: usize = 0;
    proof {
        assert(views(done@) =~= Seq::<Seq<u8>>::empty());
        assert(contents@.take(0) =~= Seq::<u8>::empty());
    }
    while i < contents.len()
        invariant
            i <= contents.len(),
            (views(done@), cur@) == scan_lines(contents@.take(i as int)),
        decreases contents.len() - i,
    {
        proof {
            assert(contents@.take(i as int + 1).drop_last() =~= contents@.take(i as int));
        }
        let c = contents[i];
        if c == NEWLINE {
            let line = cur;
            cur = Vec::new();
            proof {
                assert(views(done@.push(line)) =~= views(done@).push(line@));
                assert(cur@ =~= Seq::<u8>::empty());
            }
            done.push(line);
        } else {
            cur.push(c);
        }
        i = i + 1;
    }
    proof {
        assert(contents@.take(contents.len() as int) =~= contents@);
    }
    if cur.len() > 0 {
        proof {
            assert(views(done@.push(cur)) =~= views(done@).push(cur@));
        }
        done.push(cur);
    }
    done
}

} // verus!
