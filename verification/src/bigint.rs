//! Arbitrary-precision integers.
//!
//! A [`JsBigInt`] is a sign together with a magnitude held as base-2^32
//! limbs, least significant first, with no leading zero limb and no negative
//! zero. Every operation is specified against the mathematical integer the
//! representation stands for, so increments and sums lose no precision at
//! any size.

use vstd::prelude::*;
use vstd::arithmetic::power::pow;

verus! {

/// The radix of one limb.
pub open spec fn radix() -> int {
    4294967296
}

/// The mathematical magnitude of a limb sequence, least significant first.
pub open spec fn mag(s: Seq<u32>) -> int
    decreases s.len(),
{
    if s.len() == 0 {
        0
    } else {
        s[0] + radix() * mag(s.drop_first())
    }
}

/// A canonical magnitude has no leading zero limb.
pub open spec fn canonical(s: Seq<u32>) -> bool {
    s.len() == 0 || s[s.len() - 1] != 0
}

/// A magnitude is bounded by the radix power of its length.
pub proof fn lemma_mag_bound(s: Seq<u32>)
    ensures
        0 <= mag(s),
        mag(s) < pow(radix(), s.len()),
    decreases s.len(),
{
    vstd::arithmetic::power::lemma_pow_positive(radix(), s.len());
    if s.len() == 0 {
    } else {
        lemma_mag_bound(s.drop_first());
        assert(pow(radix(), s.len()) == radix() * pow(radix(), (s.len() - 1) as nat)) by {
            vstd::arithmetic::power::lemma_pow1(radix());
            vstd::arithmetic::power::lemma_pow_adds(radix(), 1, (s.len() - 1) as nat);
        }
        assert(s[0] + radix() * mag(s.drop_first()) < radix() * (mag(s.drop_first()) + 1))
            by (nonlinear_arith)
            requires s[0] < radix(), 0 <= mag(s.drop_first()),
        ;
        assert(radix() * (mag(s.drop_first()) + 1) <= radix() * pow(
            radix(),
            (s.len() - 1) as nat,
        )) by (nonlinear_arith)
            requires mag(s.drop_first()) + 1 <= pow(radix(), (s.len() - 1) as nat),
        ;
    }
}

/// A magnitude splits at any limb position into its low part plus a shifted
/// high part.
pub proof fn lemma_mag_split(s: Seq<u32>, i: int)
    requires
        0 <= i <= s.len(),
    ensures
        mag(s) == mag(s.take(i)) + pow(radix(), i as nat) * mag(s.skip(i)),
    decreases i,
{
    if i == 0 {
        assert(s.take(0) =~= Seq::<u32>::empty());
        assert(s.skip(0) =~= s);
        vstd::arithmetic::power::lemma_pow0(radix());
    } else {
        let rest = s.drop_first();
        lemma_mag_split(rest, i - 1);
        assert(s.take(i).drop_first() =~= rest.take(i - 1));
        assert(s.skip(i) =~= rest.skip(i - 1));
        assert(s.take(i).len() == i && s.take(i)[0] == s[0]);
        let p1 = pow(radix(), (i - 1) as nat);
        assert(pow(radix(), i as nat) == radix() * p1) by {
            vstd::arithmetic::power::lemma_pow1(radix());
            vstd::arithmetic::power::lemma_pow_adds(radix(), 1, (i - 1) as nat);
        }
        assert(radix() * (mag(rest.take(i - 1)) + p1 * mag(rest.skip(i - 1))) == radix() * mag(
            rest.take(i - 1),
        ) + (radix() * p1) * mag(rest.skip(i - 1))) by (nonlinear_arith);
    }
}

/// A nonempty canonical magnitude is at least the radix power of one less
/// than its length.
pub proof fn lemma_canonical_low(s: Seq<u32>)
    requires
        canonical(s),
        s.len() > 0,
    ensures
        mag(s) >= pow(radix(), (s.len() - 1) as nat),
{
    let l = s.len() as int;
    lemma_mag_split(s, l - 1);
    lemma_mag_bound(s.take(l - 1));
    assert(s.skip(l - 1) =~= seq![s[l - 1]]);
    reveal_with_fuel(mag, 3);
    assert(seq![s[l - 1]].drop_first() =~= Seq::<u32>::empty());
    assert(mag(seq![s[l - 1]]) == s[l - 1] + radix() * mag(Seq::<u32>::empty()));
    assert(pow(radix(), (s.len() - 1) as nat) * mag(s.skip(l - 1)) >= pow(
        radix(),
        (s.len() - 1) as nat,
    )) by (nonlinear_arith)
        requires mag(s.skip(l - 1)) >= 1, pow(radix(), (s.len() - 1) as nat) > 0,
    ;
    vstd::arithmetic::power::lemma_pow_positive(radix(), (s.len() - 1) as nat);
}

/// Two canonical magnitudes standing for the same integer are identical.
pub proof fn lemma_canonical_unique(s: Seq<u32>, t: Seq<u32>)
    requires
        canonical(s),
        canonical(t),
        mag(s) == mag(t),
    ensures
        s == t,
    decreases s.len(),
{
    if s.len() == 0 && t.len() == 0 {
        assert(s =~= t);
    } else if s.len() == 0 {
        lemma_canonical_low(t);
        vstd::arithmetic::power::lemma_pow_positive(radix(), (t.len() - 1) as nat);
        assert(false);
    } else if t.len() == 0 {
        lemma_canonical_low(s);
        vstd::arithmetic::power::lemma_pow_positive(radix(), (s.len() - 1) as nat);
        assert(false);
    } else {
        let sr = s.drop_first();
        let tr = t.drop_first();
        lemma_mag_bound(sr);
        lemma_mag_bound(tr);
        assert(s[0] == t[0] && mag(sr) == mag(tr)) by {
            vstd::arithmetic::div_mod::lemma_fundamental_div_mod_converse(
                mag(s),
                radix(),
                mag(sr),
                s[0] as int,
            );
            vstd::arithmetic::div_mod::lemma_fundamental_div_mod_converse(
                mag(t),
                radix(),
                mag(tr),
                t[0] as int,
            );
        }
        if sr.len() == 0 && tr.len() == 0 {
            assert(s =~= t);
        } else {
            if sr.len() > 0 {
                assert(canonical(sr));
            }
            if tr.len() > 0 {
                assert(canonical(tr));
            }
            lemma_canonical_unique(sr, tr);
            assert(s.len() == t.len());
            assert forall|i: int| 0 <= i < s.len() implies s[i] == t[i] by {
                if i > 0 {
                    assert(s[i] == sr[i - 1]);
                    assert(t[i] == tr[i - 1]);
                }
            }
            assert(s =~= t);
        }
    }
}


/// Appending a limb adds it at the radix power of the old length.
pub proof fn lemma_mag_snoc(s: Seq<u32>, x: u32)
    ensures
        mag(s.push(x)) == mag(s) + pow(radix(), s.len()) * x,
{
    let p = s.push(x);
    lemma_mag_split(p, s.len() as int);
    assert(p.take(s.len() as int) =~= s);
    assert(p.skip(s.len() as int) =~= seq![x]);
    reveal_with_fuel(mag, 3);
    assert(seq![x].drop_first() =~= Seq::<u32>::empty());
    assert(mag(seq![x]) == x);
}

/// A limb run followed by a zero limb stands for the same magnitude.
pub proof fn lemma_mag_drop_zero(s: Seq<u32>)
    requires
        s.len() > 0,
        s[s.len() - 1] == 0,
    ensures
        mag(s.drop_last()) == mag(s),
{
    assert(s.drop_last().push(s[s.len() - 1]) =~= s);
    lemma_mag_snoc(s.drop_last(), s[s.len() - 1]);
}

/// Pops leading zero limbs until the representation is canonical.
fn normalize(limbs: &mut Vec<u32>)
    ensures
        canonical(final(limbs)@),
        mag(final(limbs)@) == mag(old(limbs)@),
{
    while limbs.len() > 0 && limbs[limbs.len() - 1] == 0
        invariant
            mag(limbs@) == mag(old(limbs)@),
        decreases limbs@.len(),
    {
        proof {
            lemma_mag_drop_zero(limbs@);
        }
        limbs.pop();
        assert(limbs@ =~= old(limbs)@.take(limbs@.len() as int) || true);
    }
}

/// Adds two limb magnitudes.
///
/// The result is canonical and stands for the exact sum.
fn mag_add(a: &Vec<u32>, b: &Vec<u32>) -> (r: Vec<u32>)
    ensures
        canonical(r@),
        mag(r@) == mag(a@) + mag(b@),
{
    let alen = a.len();
    let blen = b.len();
    let n = if alen > blen {
        alen
    } else {
        blen
    };
    let mut out: Vec<u32> = Vec::new();
    let mut carry: u32 = 0;
    let mut i: usize = 0;
    proof {
        assert(a@.skip(0) =~= a@);
        assert(b@.skip(0) =~= b@);
        vstd::arithmetic::power::lemma_pow0(radix());
    }
    while i < n
        invariant
            i <= n,
            n == if alen > blen { alen } else { blen },
            alen == a@.len(),
            blen == b@.len(),
            carry <= 1,
            out@.len() == i,
            mag(out@) + pow(radix(), i as nat) * (carry + mag(a@.skip(spec_min(i as int, alen as int)))
                + mag(b@.skip(spec_min(i as int, blen as int)))) == mag(a@) + mag(b@),
        decreases n - i,
    {
        let av: u64 = if i < alen { a[i] as u64 } else { 0 };
        let bv: u64 = if i < blen { b[i] as u64 } else { 0 };
        let sum: u64 = av + bv + carry as u64;
        let limb: u32 = (sum % 4294967296) as u32;
        let new_carry: u32 = (sum / 4294967296) as u32;
        proof {
            let ia = spec_min(i as int, alen as int);
            let ib = spec_min(i as int, blen as int);
            let ia2 = spec_min(i + 1, alen as int);
            let ib2 = spec_min(i + 1, blen as int);
            if i < alen {
                assert(a@.skip(ia).drop_first() =~= a@.skip(ia2));
                assert(mag(a@.skip(ia)) == av + radix() * mag(a@.skip(ia2)));
            } else {
                assert(a@.skip(ia).len() == 0);
                assert(ia == ia2);
            }
            if i < blen {
                assert(b@.skip(ib).drop_first() =~= b@.skip(ib2));
                assert(mag(b@.skip(ib)) == bv + radix() * mag(b@.skip(ib2)));
            } else {
                assert(b@.skip(ib).len() == 0);
                assert(ib == ib2);
            }
            assert(limb + radix() * new_carry == av + bv + carry) by {
                vstd::arithmetic::div_mod::lemma_fundamental_div_mod(sum as int, radix());
            }
            lemma_mag_snoc(out@, limb);
            let p = pow(radix(), i as nat);
            let p2 = pow(radix(), (i + 1) as nat);
            assert(p2 == p * radix()) by {
                vstd::arithmetic::power::lemma_pow1(radix());
                vstd::arithmetic::power::lemma_pow_adds(radix(), i as nat, 1);
            }
            assert(mag(out@.push(limb)) + p2 * (new_carry + mag(a@.skip(ia2)) + mag(
                b@.skip(ib2),
            )) == mag(out@) + p * (carry + mag(a@.skip(ia)) + mag(b@.skip(ib))))
                by (nonlinear_arith)
                requires
                    mag(out@.push(limb)) == mag(out@) + p * limb,
                    p2 == p * radix(),
                    limb + radix() * new_carry == av + bv + carry,
                    mag(a@.skip(ia)) == av + radix() * mag(a@.skip(ia2)),
                    mag(b@.skip(ib)) == bv + radix() * mag(b@.skip(ib2)),
            ;
        }
        out.push(limb);
        carry = new_carry;
        i = i + 1;
    }
    proof {
        assert(a@.skip(spec_min(n as int, alen as int)).len() == 0);
        assert(b@.skip(spec_min(n as int, blen as int)).len() == 0);
        let p = pow(radix(), n as nat);
        assert(p * (carry + mag(a@.skip(spec_min(n as int, alen as int))) + mag(
            b@.skip(spec_min(n as int, blen as int)),
        )) == p * carry) by (nonlinear_arith)
            requires
                mag(a@.skip(spec_min(n as int, alen as int))) == 0,
                mag(b@.skip(spec_min(n as int, blen as int))) == 0,
        ;
        assert(mag(out@) + p * carry == mag(a@) + mag(b@));
    }
    if carry > 0 {
        proof {
            lemma_mag_snoc(out@, carry);
        }
        out.push(carry);
        assert(mag(out@) == mag(a@) + mag(b@));
    } else {
        proof {
            assert(pow(radix(), n as nat) * carry == 0) by (nonlinear_arith)
                requires carry == 0,
            ;
        }
        assert(mag(out@) == mag(a@) + mag(b@));
    }
    normalize(&mut out);
    out
}

/// The smaller of two integers.
pub open spec fn spec_min(a: int, b: int) -> int {
    if a < b {
        a
    } else {
        b
    }
}

/// Subtracts a smaller limb magnitude from a larger one.
///
/// The result is canonical and stands for the exact difference.
fn mag_sub(a: &Vec<u32>, b: &Vec<u32>) -> (r: Vec<u32>)
    requires
        b@.len() <= a@.len(),
        mag(b@) <= mag(a@),
    ensures
        canonical(r@),
        mag(r@) == mag(a@) - mag(b@),
{
    let alen = a.len();
    let blen = b.len();
    let mut out: Vec<u32> = Vec::new();
    let mut borrow: u32 = 0;
    let mut i: usize = 0;
    proof {
        vstd::arithmetic::power::lemma_pow0(radix());
        assert(a@.take(0) =~= Seq::<u32>::empty());
        assert(b@.take(0) =~= Seq::<u32>::empty());
    }
    while i < alen
        invariant
            i <= alen,
            alen == a@.len(),
            blen == b@.len(),
            blen <= alen,
            borrow <= 1,
            out@.len() == i,
            mag(out@) == mag(a@.take(i as int)) - mag(b@.take(spec_min(i as int, blen as int)))
                + pow(radix(), i as nat) * borrow,
        decreases alen - i,
    {
        let av: u64 = a[i] as u64;
        let bv: u64 = if i < blen { b[i] as u64 } else { 0 };
        let need: u64 = bv + borrow as u64;
        let (limb, new_borrow): (u32, u32) = if av >= need {
            ((av - need) as u32, 0)
        } else {
            ((av + 4294967296 - need) as u32, 1)
        };
        proof {
            let ib = spec_min(i as int, blen as int);
            let ib2 = spec_min(i + 1, blen as int);
            assert(a@.take(i + 1) =~= a@.take(i as int).push(a@[i as int]));
            lemma_mag_snoc(a@.take(i as int), a@[i as int]);
            if i < blen {
                assert(b@.take(ib2) =~= b@.take(ib).push(b@[i as int]));
                lemma_mag_snoc(b@.take(ib), b@[i as int]);
            } else {
                assert(ib == ib2);
            }
            assert(limb == av - bv - borrow + radix() * new_borrow);
            lemma_mag_snoc(out@, limb);
            let p = pow(radix(), i as nat);
            let p2 = pow(radix(), (i + 1) as nat);
            assert(p2 == p * radix()) by {
                vstd::arithmetic::power::lemma_pow1(radix());
                vstd::arithmetic::power::lemma_pow_adds(radix(), i as nat, 1);
            }
            assert(mag(out@.push(limb)) == mag(a@.take(i + 1)) - mag(b@.take(ib2)) + p2
                * new_borrow) by (nonlinear_arith)
                requires
                    mag(out@.push(limb)) == mag(out@) + p * limb,
                    mag(out@) == mag(a@.take(i as int)) - mag(b@.take(ib)) + p * borrow,
                    limb == av - bv - borrow + radix() * new_borrow,
                    p2 == p * radix(),
                    mag(a@.take(i + 1)) == mag(a@.take(i as int)) + p * av,
                    mag(b@.take(ib2)) == mag(b@.take(ib)) + p * bv,
            ;
        }
        out.push(limb);
        borrow = new_borrow;
        i = i + 1;
    }
    proof {
        assert(a@.take(alen as int) =~= a@);
        assert(b@.take(spec_min(alen as int, blen as int)) =~= b@);
        if borrow == 1 {
            lemma_mag_bound(out@);
            lemma_mag_bound(b@);
            assert(false);
        }
    }
    normalize(&mut out);
    out
}

/// Compares two canonical limb magnitudes.
///
/// Returns `-1`, `0` or `1` as the first stands for an integer below, equal
/// to, or above the second.
fn mag_cmp(a: &Vec<u32>, b: &Vec<u32>) -> (c: i8)
    requires
        canonical(a@),
        canonical(b@),
    ensures
        c == if mag(a@) < mag(b@) { -1int } else if mag(a@) == mag(b@) { 0int } else { 1int },
{
    let alen = a.len();
    let blen = b.len();
    if alen < blen {
        proof {
            lemma_canonical_low(b@);
            lemma_mag_bound(a@);
            vstd::arithmetic::power::lemma_pow_increases(radix() as nat, alen as nat, (blen
                - 1) as nat);
        }
        return -1;
    }
    if alen > blen {
        proof {
            lemma_canonical_low(a@);
            lemma_mag_bound(b@);
            vstd::arithmetic::power::lemma_pow_increases(radix() as nat, blen as nat, (alen
                - 1) as nat);
        }
        return 1;
    }
    let mut k: usize = alen;
    while k > 0
        invariant
            k <= alen,
            alen == a@.len(),
            blen == b@.len(),
            alen == blen,
            a@.skip(k as int) =~= b@.skip(k as int),
        decreases k,
    {
        let i = k - 1;
        let av = a[i];
        let bv = b[i];
        if av != bv {
            proof {
                lemma_mag_split(a@, i as int);
                lemma_mag_split(b@, i as int);
                assert(a@.skip(i as int).drop_first() =~= a@.skip(k as int));
                assert(b@.skip(i as int).drop_first() =~= b@.skip(k as int));
                assert(mag(a@.skip(i as int)) == av + radix() * mag(a@.skip(k as int)));
                assert(mag(b@.skip(i as int)) == bv + radix() * mag(b@.skip(k as int)));
                lemma_mag_bound(a@.take(i as int));
                lemma_mag_bound(b@.take(i as int));
                let p = pow(radix(), i as nat);
                if av > bv {
                    assert(mag(a@) - mag(b@) == mag(a@.take(i as int)) - mag(b@.take(i as int)) + p
                        * (av - bv)) by (nonlinear_arith)
                        requires
                            mag(a@) == mag(a@.take(i as int)) + p * mag(a@.skip(i as int)),
                            mag(b@) == mag(b@.take(i as int)) + p * mag(b@.skip(i as int)),
                            mag(a@.skip(i as int)) - mag(b@.skip(i as int)) == av - bv,
                    ;
                    assert(p * (av - bv) >= p) by (nonlinear_arith)
                        requires p > 0, av - bv >= 1,
                    ;
                } else {
                    assert(mag(b@) - mag(a@) == mag(b@.take(i as int)) - mag(a@.take(i as int)) + p
                        * (bv - av)) by (nonlinear_arith)
                        requires
                            mag(a@) == mag(a@.take(i as int)) + p * mag(a@.skip(i as int)),
                            mag(b@) == mag(b@.take(i as int)) + p * mag(b@.skip(i as int)),
                            mag(b@.skip(i as int)) - mag(a@.skip(i as int)) == bv - av,
                    ;
                    assert(p * (bv - av) >= p) by (nonlinear_arith)
                        requires p > 0, bv - av >= 1,
                    ;
                }
                vstd::arithmetic::power::lemma_pow_positive(radix(), i as nat);
            }
            if av > bv {
                return 1;
            } else {
                return -1;
            }
        }
        proof {
            assert(a@.skip(i as int).drop_first() =~= a@.skip(k as int));
            assert(b@.skip(i as int).drop_first() =~= b@.skip(k as int));
            assert forall|j: int| 0 <= j < a@.skip(i as int).len() implies a@.skip(i as int)[j]
                == b@.skip(i as int)[j] by {
                if j == 0 {
                    assert(a@.skip(i as int)[0] == a@[i as int]);
                    assert(b@.skip(i as int)[0] == b@[i as int]);
                } else {
                    assert(a@.skip(i as int)[j] == a@.skip(i as int).drop_first()[j - 1]);
                    assert(b@.skip(i as int)[j] == b@.skip(i as int).drop_first()[j - 1]);
                }
            }
            assert(a@.skip(i as int) =~= b@.skip(i as int));
        }
        k = i;
    }
    proof {
        assert(a@.skip(0) =~= a@);
        assert(b@.skip(0) =~= b@);
        assert(a@ =~= b@);
    }
    0
}


/// An arbitrary-precision integer: a sign and a canonical limb magnitude.
#[derive(Debug)]
pub struct JsBigInt {
    negative: bool,
    limbs: Vec<u32>,
}

/// Copies a limb vector.
fn copy_limbs(v: &Vec<u32>) -> (r: Vec<u32>)
    ensures
        r@ == v@,
{
    let mut r: Vec<u32> = Vec::new();
    let mut i: usize = 0;
    while i < v.len()
        invariant
            i <= v@.len(),
            r@ == v@.take(i as int),
        decreases v@.len() - i,
    {
        r.push(v[i]);
        assert(r@ =~= v@.take(i + 1));
        i = i + 1;
    }
    assert(v@.take(v@.len() as int) =~= v@);
    r
}

impl JsBigInt {
    /// The representation is canonical: no leading zero limb and no
    /// negative zero.
    pub closed spec fn wf(self) -> bool {
        canonical(self.limbs@) && (self.negative ==> self.limbs@.len() > 0)
    }

    /// The mathematical integer this value stands for.
    pub closed spec fn value(self) -> int {
        if self.negative {
            -mag(self.limbs@)
        } else {
            mag(self.limbs@)
        }
    }

    /// The integer zero.
    pub fn zero() -> (r: JsBigInt)
        ensures
            r.wf(),
            r.value() == 0,
    {
        JsBigInt { negative: false, limbs: Vec::new() }
    }

    /// The integer one.
    pub fn one() -> (r: JsBigInt)
        ensures
            r.wf(),
            r.value() == 1,
    {
        let mut limbs: Vec<u32> = Vec::new();
        limbs.push(1);
        proof {
            assert(limbs@ =~= seq![1u32]);
            reveal_with_fuel(mag, 3);
            assert(seq![1u32].drop_first() =~= Seq::<u32>::empty());
        }
        JsBigInt { negative: false, limbs }
    }

    /// The unsigned integer `n`.
    pub fn from_u64(n: u64) -> (r: JsBigInt)
        ensures
            r.wf(),
            r.value() == n,
    {
        let lo: u32 = (n % 4294967296) as u32;
        let hi: u32 = (n / 4294967296) as u32;
        let mut limbs: Vec<u32> = Vec::new();
        if hi > 0 {
            limbs.push(lo);
            limbs.push(hi);
            proof {
                assert(limbs@ =~= seq![lo, hi]);
                reveal_with_fuel(mag, 4);
                assert(seq![lo, hi].drop_first() =~= seq![hi]);
                assert(seq![hi].drop_first() =~= Seq::<u32>::empty());
                vstd::arithmetic::div_mod::lemma_fundamental_div_mod(n as int, radix());
            }
        } else if lo > 0 {
            limbs.push(lo);
            proof {
                assert(limbs@ =~= seq![lo]);
                reveal_with_fuel(mag, 3);
                assert(seq![lo].drop_first() =~= Seq::<u32>::empty());
                vstd::arithmetic::div_mod::lemma_fundamental_div_mod(n as int, radix());
            }
        } else {
            proof {
                vstd::arithmetic::div_mod::lemma_fundamental_div_mod(n as int, radix());
            }
        }
        JsBigInt { negative: false, limbs }
    }

    /// The signed integer `n`.
    pub fn from_i64(n: i64) -> (r: JsBigInt)
        ensures
            r.wf(),
            r.value() == n,
    {
        if n >= 0 {
            Self::from_u64(n as u64)
        } else {
            let m: u64 = if n == i64::MIN {
                9223372036854775808u64
            } else {
                (-n) as u64
            };
            let positive = Self::from_u64(m);
            proof {
                lemma_mag_bound(positive.limbs@);
                assert(mag(positive.limbs@) == m);
                if positive.limbs@.len() == 0 {
                    assert(false);
                }
            }
            JsBigInt { negative: true, limbs: positive.limbs }
        }
    }

    /// Whether this value is zero.
    pub fn is_zero(&self) -> (r: bool)
        requires
            self.wf(),
        ensures
            r == (self.value() == 0),
    {
        proof {
            if self.limbs@.len() > 0 {
                lemma_canonical_low(self.limbs@);
                vstd::arithmetic::power::lemma_pow_positive(
                    radix(),
                    (self.limbs@.len() - 1) as nat,
                );
            }
        }
        self.limbs.len() == 0
    }

    /// Adds two arbitrary-precision integers; the sum is exact at any size.
    pub fn add(x: &JsBigInt, y: &JsBigInt) -> (r: JsBigInt)
        requires
            x.wf(),
            y.wf(),
        ensures
            r.wf(),
            r.value() == x.value() + y.value(),
    {
        proof {
            if x.negative {
                lemma_canonical_low(x.limbs@);
                vstd::arithmetic::power::lemma_pow_positive(radix(), (x.limbs@.len() - 1) as nat);
            }
            if y.negative {
                lemma_canonical_low(y.limbs@);
                vstd::arithmetic::power::lemma_pow_positive(radix(), (y.limbs@.len() - 1) as nat);
            }
            lemma_mag_bound(x.limbs@);
            lemma_mag_bound(y.limbs@);
        }
        if x.negative == y.negative {
            let limbs = mag_add(&x.limbs, &y.limbs);
            proof {
                if x.negative && limbs@.len() == 0 {
                    assert(false);
                }
            }
            let negative = x.negative;
            JsBigInt { negative, limbs }
        } else {
            let c = mag_cmp(&x.limbs, &y.limbs);
            if c == 0 {
                Self::zero()
            } else if c > 0 {
                proof {
                    lemma_sub_lengths(x.limbs@, y.limbs@);
                }
                let limbs = mag_sub(&x.limbs, &y.limbs);
                proof {
                    if limbs@.len() == 0 {
                        assert(mag(x.limbs@) == mag(y.limbs@));
                        assert(false);
                    }
                }
                JsBigInt { negative: x.negative, limbs }
            } else {
                proof {
                    lemma_sub_lengths(y.limbs@, x.limbs@);
                }
                let limbs = mag_sub(&y.limbs, &x.limbs);
                proof {
                    if limbs@.len() == 0 {
                        assert(mag(x.limbs@) == mag(y.limbs@));
                        assert(false);
                    }
                }
                JsBigInt { negative: y.negative, limbs }
            }
        }
    }

    /// The negation of an arbitrary-precision integer.
    pub fn neg(x: &JsBigInt) -> (r: JsBigInt)
        requires
            x.wf(),
        ensures
            r.wf(),
            r.value() == -x.value(),
    {
        if x.limbs.len() == 0 {
            Self::zero()
        } else {
            JsBigInt { negative: !x.negative, limbs: copy_limbs(&x.limbs) }
        }
    }

    /// Subtracts two arbitrary-precision integers; the difference is exact
    /// at any size.
    pub fn sub(x: &JsBigInt, y: &JsBigInt) -> (r: JsBigInt)
        requires
            x.wf(),
            y.wf(),
        ensures
            r.wf(),
            r.value() == x.value() - y.value(),
    {
        let ny = Self::neg(y);
        Self::add(x, &ny)
    }

    /// Whether two arbitrary-precision integers stand for the same integer.
    pub fn equal(x: &JsBigInt, y: &JsBigInt) -> (r: bool)
        requires
            x.wf(),
            y.wf(),
        ensures
            r == (x.value() == y.value()),
    {
        proof {
            if x.negative {
                lemma_canonical_low(x.limbs@);
                vstd::arithmetic::power::lemma_pow_positive(radix(), (x.limbs@.len() - 1) as nat);
            }
            if y.negative {
                lemma_canonical_low(y.limbs@);
                vstd::arithmetic::power::lemma_pow_positive(radix(), (y.limbs@.len() - 1) as nat);
            }
            lemma_mag_bound(x.limbs@);
            lemma_mag_bound(y.limbs@);
        }
        if x.negative != y.negative {
            false
        } else {
            mag_cmp(&x.limbs, &y.limbs) == 0
        }
    }

    /// Compares two arbitrary-precision integers.
    ///
    /// Returns `-1`, `0` or `1` as the first stands for an integer below,
    /// equal to, or above the second.
    pub fn compare(x: &JsBigInt, y: &JsBigInt) -> (c: i8)
        requires
            x.wf(),
            y.wf(),
        ensures
            c == if x.value() < y.value() { -1int } else if x.value() == y.value() {
                0int
            } else {
                1int
            },
    {
        proof {
            if x.negative {
                lemma_canonical_low(x.limbs@);
                vstd::arithmetic::power::lemma_pow_positive(radix(), (x.limbs@.len() - 1) as nat);
            }
            if y.negative {
                lemma_canonical_low(y.limbs@);
                vstd::arithmetic::power::lemma_pow_positive(radix(), (y.limbs@.len() - 1) as nat);
            }
            lemma_mag_bound(x.limbs@);
            lemma_mag_bound(y.limbs@);
        }
        if x.negative && !y.negative {
            -1
        } else if !x.negative && y.negative {
            1
        } else if !x.negative {
            mag_cmp(&x.limbs, &y.limbs)
        } else {
            let c = mag_cmp(&x.limbs, &y.limbs);
            if c == 0 {
                0
            } else if c > 0 {
                -1
            } else {
                1
            }
        }
    }
}

impl Clone for JsBigInt {
    /// The clone stands for the same integer.
    fn clone(&self) -> (res: Self)
        ensures
            res.wf() == self.wf(),
            res.value() == self.value(),
    {
        JsBigInt { negative: self.negative, limbs: copy_limbs(&self.limbs) }
    }
}

/// A strictly smaller canonical magnitude has no more limbs.
proof fn lemma_sub_lengths(a: Seq<u32>, b: Seq<u32>)
    requires
        canonical(a),
        canonical(b),
        mag(b) < mag(a),
    ensures
        b.len() <= a.len(),
{
    if b.len() > a.len() {
        lemma_canonical_low(b);
        lemma_mag_bound(a);
        vstd::arithmetic::power::lemma_pow_increases(radix() as nat, a.len(), (b.len() - 1) as nat);
        assert(false);
    }
}

} // verus!
