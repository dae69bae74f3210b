use vstd::prelude::*;
use crate::types::Scid;

verus! {

pub open spec fn digit(d: nat) -> u8 {
    (48 + d % 10) as u8
}

/// The decimal digits of `n`, most significant first.
pub open spec fn decimal(n: nat) -> Seq<u8>
    decreases n,
{
    if n < 10 {
        seq![digit(n)]
    } else {
        decimal(n / 10).push(digit(n % 10))
    }
}

/// The last `w` decimal digits of `f`, with leading zeros.
pub open spec fn padded(f: nat, w: nat) -> Seq<u8>
    decreases w,
{
    if w == 0 {
        Seq::empty()
    } else {
        padded(f / 10, (w - 1) as nat).push(digit(f % 10))
    }
}

/// Drops trailing zero digits of a `w`-digit fraction `f`.
pub open spec fn trimmed(f: nat, w: nat) -> (nat, nat)
    decreases w,
{
    if w > 0 && f > 0 && f % 10 == 0 {
        trimmed(f / 10, (w - 1) as nat)
    } else {
        (f, w)
    }
}

/// A ratio in parts per million written as a decimal number: the whole
/// part, then a point and the fraction without trailing zeros where it is
/// not zero ("0.6", "1", "0.25").
pub open spec fn ratio_text(p: nat) -> Seq<u8> {
    let whole = decimal(p / 1_000_000);
    let frac = p % 1_000_000;
    if frac == 0 {
        whole
    } else {
        let (f, w) = trimmed(frac, 6);
        whole + seq![46u8] + padded(f, w)
    }
}

/// A channel id written as block, transaction index and output, joined by
/// 'x'.
pub open spec fn scid_text(s: Scid) -> Seq<u8> {
    decimal(s.block as nat) + seq![120u8] + decimal(s.txindex as nat) + seq![120u8] + decimal(
        s.outnum as nat,
    )
}

/// Channel ids separated by ", ".
pub open spec fn scid_list_text(s: Seq<Scid>) -> Seq<u8>
    decreases s.len(),
{
    if s.len() == 0 {
        Seq::empty()
    } else if s.len() == 1 {
        scid_text(s[0])
    } else {
        scid_list_text(s.drop_last()) + seq![44u8, 32u8] + scid_text(s.last())
    }
}

pub fn push_decimal(out: &mut Vec<u8>, n: u64)
    ensures
        final(out)@ == old(out)@ + decimal(n as nat),
    decreases n,
{
    if n < 10 {
        out.push((48 + n) as u8);
        assert(out@ =~= old(out)@ + decimal(n as nat));
    } else {
        push_decimal(out, n / 10);
        out.push((48 + n % 10) as u8);
        assert(out@ =~= old(out)@ + decimal(n as nat));
    }
}

fn push_padded(out: &mut Vec<u8>, f: u32, w: u32)
    ensures
        final(out)@ == old(out)@ + padded(f as nat, w as nat),
    decreases w,
{
    if w == 0 {
        assert(out@ =~= old(out)@ + padded(f as nat, w as nat));
    } else {
        push_padded(out, f / 10, w - 1);
        out.push((48 + f % 10) as u8);
        assert(out@ =~= old(out)@ + padded(f as nat, w as nat));
    }
}

fn trim(f: u32, w: u32) -> (r: (u32, u32))
    ensures
        (r.0 as nat, r.1 as nat) == trimmed(f as nat, w as nat),
    decreases w,
{
    if w > 0 && f > 0 && f % 10 == 0 {
        trim(f / 10, w - 1)
    } else {
        (f, w)
    }
}

pub fn push_ratio(out: &mut Vec<u8>, p: u64)
    ensures
        final(out)@ == old(out)@ + ratio_text(p as nat),
{
    push_decimal(out, p / 1_000_000);
    let frac: u32 = (p % 1_000_000) as u32;
    if frac != 0 {
        let (f, w) = trim(frac, 6);
        out.push(46u8);
        push_padded(out, f, w);
    }
    assert(out@ =~= old(out)@ + ratio_text(p as nat));
}

pub fn push_scid(out: &mut Vec<u8>, s: Scid)
    ensures
        final(out)@ == old(out)@ + scid_text(s),
{
    push_decimal(out, s.block as u64);
    out.push(120u8);
    push_decimal(out, s.txindex as u64);
    out.push(120u8);
    push_decimal(out, s.outnum as u64);
    assert(out@ =~= old(out)@ + scid_text(s));
}

pub fn scid_list(s: &Vec<Scid>) -> (r: Vec<u8>)
    ensures
        r@ == scid_list_text(s@),
{
    let mut out: Vec<u8> = Vec::new();
    let mut i: usize = 0;
    proof {
        assert(s@.take(0) =~= Seq::<Scid>::empty());
    }
    while i < s.len()
        invariant
            i <= s.len(),
            out@ == scid_list_text(s@.take(i as int)),
        decreases s.len() - i,
    {
        let ghost before = out@;
        if i > 0 {
            out.push(44u8);
            out.push(32u8);
        }
        push_scid(&mut out, s[i]);
        proof {
            let t = s@.take(i as int + 1);
            assert(t.drop_last() =~= s@.take(i as int));
            if i == 0 {
                assert(before =~= Seq::<u8>::empty());
                assert(out@ =~= scid_text(t[0]));
            } else {
                assert(out@ =~= before + seq![44u8, 32u8] + scid_text(t.last()));
            }
        }
        i = i + 1;
    }
    proof {
        assert(s@.take(s.len() as int) =~= s@);
    }
    out
}

} // verus!
