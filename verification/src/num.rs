use vstd::prelude::*;
use vstd::arithmetic::mul::{lemma_mul_is_associative, lemma_mul_upper_bound};

verus! {

/// Value of a little-endian sequence of 64-bit limbs.
pub open spec fn limbs(s: Seq<u64>) -> nat
    decreases s.len(),
{
    if s.len() == 0 {
        0
    } else {
        (s[0] + limbs(s.skip(1)) * 0x1_0000_0000_0000_0000) as nat
    }
}

/// (2^64)^n, the weight of the n-th limb.
pub open spec fn base_pow(n: nat) -> nat
    decreases n,
{
    if n == 0 {
        1
    } else {
        base_pow((n - 1) as nat) * 0x1_0000_0000_0000_0000
    }
}

/// 10^n.
pub open spec fn pow10(n: nat) -> nat
    decreases n,
{
    if n == 0 {
        1
    } else {
        pow10((n - 1) as nat) * 10
    }
}

pub proof fn lemma_pow10_pos(n: nat)
    ensures
        pow10(n) >= 1,
    decreases n,
{
    if n > 0 {
        lemma_pow10_pos((n - 1) as nat);
    }
}

pub proof fn lemma_base_pow_pos(n: nat)
    ensures
        base_pow(n) >= 1,
    decreases n,
{
    if n > 0 {
        lemma_base_pow_pos((n - 1) as nat);
    }
}

pub proof fn lemma_base_pow_add(a: nat, b: nat)
    ensures
        base_pow(a + b) == base_pow(a) * base_pow(b),
    decreases a,
{
    if a == 0 {
        assert(base_pow(a + b) == base_pow(a) * base_pow(b)) by (nonlinear_arith)
            requires
                base_pow(a) == 1,
                base_pow(a + b) == base_pow(b),
        ;
    } else {
        lemma_base_pow_add((a - 1) as nat, b);
        assert((a + b - 1) as nat == (a - 1) as nat + b);
        assert(base_pow(a + b) == base_pow((a - 1) as nat + b) * 0x1_0000_0000_0000_0000);
        assert(base_pow(a) == base_pow((a - 1) as nat) * 0x1_0000_0000_0000_0000);
        assert(base_pow(a + b) == base_pow(a) * base_pow(b)) by (nonlinear_arith)
            requires
                base_pow(a + b) == base_pow((a - 1) as nat + b) * 0x1_0000_0000_0000_0000,
                base_pow((a - 1) as nat + b) == base_pow((a - 1) as nat) * base_pow(b),
                base_pow(a) == base_pow((a - 1) as nat) * 0x1_0000_0000_0000_0000,
        ;
    }
}

proof fn lemma_mul_zero(a: nat, b: nat)
    by (nonlinear_arith)
    requires
        b == 0,
    ensures
        a * b == 0,
        b * a == 0,
{
}

proof fn lemma_mul_one(a: nat, b: nat)
    by (nonlinear_arith)
    requires
        b == 1,
    ensures
        a * b == a,
{
}

pub proof fn lemma_limbs_empty()
    ensures
        limbs(Seq::<u64>::empty()) == 0,
{
}

pub proof fn lemma_limbs_single(x: u64)
    ensures
        limbs(seq![x]) == x,
{
    lemma_limbs_empty();
    assert(seq![x].skip(1) =~= Seq::<u64>::empty());
}

pub proof fn lemma_base_pow_vals()
    ensures
        base_pow(1) == 0x1_0000_0000_0000_0000,
        base_pow(2) == 0x1_0000_0000_0000_0000_0000_0000_0000_0000,
        base_pow(4) == 0x1_0000_0000_0000_0000_0000_0000_0000_0000nat
            * 0x1_0000_0000_0000_0000_0000_0000_0000_0000nat,
{
    assert(base_pow(0) == 1);
    assert(base_pow(1) == 0x1_0000_0000_0000_0000);
    assert(base_pow(2) == 0x1_0000_0000_0000_0000_0000_0000_0000_0000nat);
    lemma_base_pow_add(2, 2);
}

/// A limb sequence of length n denotes a value below (2^64)^n.
pub proof fn lemma_limbs_bound(s: Seq<u64>)
    ensures
        limbs(s) < base_pow(s.len()),
    decreases s.len(),
{
    if s.len() == 0 {
    } else {
        lemma_limbs_bound(s.skip(1));
    }
}

/// Splitting a limb sequence at k splits its value at weight (2^64)^k.
pub proof fn lemma_limbs_split(s: Seq<u64>, k: int)
    requires
        0 <= k <= s.len(),
    ensures
        limbs(s) == limbs(s.take(k)) + base_pow(k as nat) * limbs(s.skip(k)),
    decreases k,
{
    if k == 0 {
        assert(s.take(0) =~= Seq::<u64>::empty());
        assert(s.skip(0) =~= s);
        lemma_limbs_empty();
        assert(limbs(s) == limbs(s.take(0)) + base_pow(0) * limbs(s.skip(0))) by (nonlinear_arith)
            requires
                limbs(s.take(0)) == 0,
                base_pow(0) == 1,
                limbs(s.skip(0)) == limbs(s),
        ;
    } else {
        lemma_limbs_split(s.skip(1), k - 1);
        assert(s.take(k).skip(1) =~= s.skip(1).take(k - 1));
        assert(s.skip(k) =~= s.skip(1).skip(k - 1));
        assert(s.take(k)[0] == s[0]);
        assert(limbs(s) == s[0] + limbs(s.skip(1)) * 0x1_0000_0000_0000_0000);
        assert(limbs(s.take(k)) == s[0] + limbs(s.skip(1).take(k - 1)) * 0x1_0000_0000_0000_0000);
        assert(limbs(s) == limbs(s.take(k)) + base_pow(k as nat) * limbs(s.skip(k)))
            by (nonlinear_arith)
            requires
                limbs(s) == s[0] + limbs(s.skip(1)) * 0x1_0000_0000_0000_0000,
                limbs(s.skip(1)) == limbs(s.skip(1).take(k - 1)) + base_pow((k - 1) as nat)
                    * limbs(s.skip(1).skip(k - 1)),
                limbs(s.take(k)) == s[0] + limbs(s.skip(1).take(k - 1))
                    * 0x1_0000_0000_0000_0000,
                base_pow(k as nat) == base_pow((k - 1) as nat) * 0x1_0000_0000_0000_0000,
                limbs(s.skip(k)) == limbs(s.skip(1).skip(k - 1)),
        ;
    }
}

/// Appending a limb adds its value at the weight of its position.
pub proof fn lemma_limbs_snoc(s: Seq<u64>, x: u64)
    ensures
        limbs(s.push(x)) == limbs(s) + base_pow(s.len()) * x,
{
    lemma_limbs_split(s.push(x), s.len() as int);
    assert(s.push(x).take(s.len() as int) =~= s);
    assert(s.push(x).skip(s.len() as int) =~= seq![x]);
    lemma_limbs_single(x);
}

proof fn lemma_mul_scalar_step(rv: nat, c: nat, tv: nat, m: nat, x: nat, lo: nat, hi: nat, bp: nat)
    by (nonlinear_arith)
    requires
        rv + bp * c == tv * m,
        x * m + c == hi * 0x1_0000_0000_0000_0000 + lo,
    ensures
        rv + bp * lo + (bp * 0x1_0000_0000_0000_0000) * hi == (tv + bp * x) * m,
{
}

/// Multiplies a limb vector by a 64-bit scalar.
pub fn mul_scalar(v: &Vec<u64>, m: u64) -> (r: Vec<u64>)
    ensures
        limbs(r@) == limbs(v@) * m,
        r@.len() == v@.len() + 1,
{
    let mut r: Vec<u64> = Vec::new();
    let mut carry: u64 = 0;
    let mut i: usize = 0;
    proof {
        assert(v@.take(0) =~= Seq::<u64>::empty());
        lemma_limbs_empty();
        lemma_mul_zero(base_pow(0), 0);
        lemma_mul_zero(m as nat, limbs(v@.take(0)));
    }
    while i < v.len()
        invariant
            i <= v@.len(),
            r@.len() == i,
            limbs(r@) + base_pow(i as nat) * carry == limbs(v@.take(i as int)) * m,
        decreases v@.len() - i,
    {
        proof {
            lemma_mul_upper_bound(
                v@[i as int] as int,
                0xFFFF_FFFF_FFFF_FFFF,
                m as int,
                0xFFFF_FFFF_FFFF_FFFF,
            );
        }
        let p: u128 = (v[i] as u128) * (m as u128) + (carry as u128);
        let lo: u64 = (p & 0xFFFF_FFFF_FFFF_FFFFu128) as u64;
        let hi: u64 = (p >> 64u128) as u64;
        proof {
            assert(p == (p >> 64u128) * 0x1_0000_0000_0000_0000 + (p & 0xFFFF_FFFF_FFFF_FFFFu128)
                && (p >> 64u128) <= 0xFFFF_FFFF_FFFF_FFFFu128
                && (p & 0xFFFF_FFFF_FFFF_FFFFu128) <= 0xFFFF_FFFF_FFFF_FFFFu128) by (bit_vector);
            lemma_limbs_snoc(r@, lo);
            lemma_mul_scalar_step(
                limbs(r@),
                carry as nat,
                limbs(v@.take(i as int)),
                m as nat,
                v@[i as int] as nat,
                lo as nat,
                hi as nat,
                base_pow(i as nat),
            );
            assert(v@.take(i + 1) =~= v@.take(i as int).push(v@[i as int]));
            lemma_limbs_snoc(v@.take(i as int), v@[i as int]);
        }
        r.push(lo);
        carry = hi;
        i += 1;
    }
    proof {
        assert(v@.take(v@.len() as int) =~= v@);
        lemma_limbs_snoc(r@, carry);
    }
    r.push(carry);
    r
}

proof fn lemma_add_step(rv: nat, c: nat, av: nat, bv: nat, x: nat, y: nat, lo: nat, hi: nat, bp: nat)
    by (nonlinear_arith)
    requires
        rv + bp * c == av + bv,
        x + y + c == hi * 0x1_0000_0000_0000_0000 + lo,
    ensures
        rv + bp * lo + (bp * 0x1_0000_0000_0000_0000) * hi == (av + bp * x) + (bv + bp * y),
{
}

/// Copies a limb vector, padding it with high zero limbs up to length n.
pub fn padded(v: &Vec<u64>, n: usize) -> (r: Vec<u64>)
    requires
        v@.len() <= n,
    ensures
        r@.len() == n,
        limbs(r@) == limbs(v@),
{
    let mut r: Vec<u64> = Vec::new();
    let mut i: usize = 0;
    while i < v.len()
        invariant
            i <= v@.len(),
            r@ == v@.take(i as int),
        decreases v@.len() - i,
    {
        r.push(v[i]);
        proof {
            assert(r@ =~= v@.take(i + 1));
        }
        i += 1;
    }
    proof {
        assert(v@.take(v@.len() as int) =~= v@);
    }
    while r.len() < n
        invariant
            r@.len() <= n,
            limbs(r@) == limbs(v@),
        decreases n - r@.len(),
    {
        proof {
            lemma_limbs_snoc(r@, 0);
        }
        r.push(0);
    }
    r
}

/// Adds two limb vectors.
pub fn add_limbs(a: &Vec<u64>, b: &Vec<u64>) -> (r: Vec<u64>)
    ensures
        limbs(r@) == limbs(a@) + limbs(b@),
        r@.len() == (if a@.len() >= b@.len() { a@.len() } else { b@.len() }) + 1,
{
    let n = if a.len() >= b.len() { a.len() } else { b.len() };
    let ap = padded(a, n);
    let bp = padded(b, n);
    let mut r: Vec<u64> = Vec::new();
    let mut carry: u64 = 0;
    let mut i: usize = 0;
    proof {
        assert(ap@.take(0) =~= Seq::<u64>::empty());
        assert(bp@.take(0) =~= Seq::<u64>::empty());
        lemma_limbs_empty();
        lemma_mul_zero(base_pow(0), 0);
    }
    while i < n
        invariant
            i <= n,
            n == ap@.len(),
            n == bp@.len(),
            r@.len() == i,
            carry <= 1,
            limbs(r@) + base_pow(i as nat) * carry == limbs(ap@.take(i as int)) + limbs(
                bp@.take(i as int),
            ),
        decreases n - i,
    {
        let t: u128 = (ap[i] as u128) + (bp[i] as u128) + (carry as u128);
        let lo: u64 = (t & 0xFFFF_FFFF_FFFF_FFFFu128) as u64;
        let hi: u64 = (t >> 64u128) as u64;
        proof {
            assert(t == (t >> 64u128) * 0x1_0000_0000_0000_0000 + (t & 0xFFFF_FFFF_FFFF_FFFFu128)
                && (t >> 64u128) <= 0xFFFF_FFFF_FFFF_FFFFu128
                && (t & 0xFFFF_FFFF_FFFF_FFFFu128) <= 0xFFFF_FFFF_FFFF_FFFFu128) by (bit_vector);
            assert(t <= 0x1_FFFF_FFFF_FFFF_FFFFu128);
            assert((t >> 64u128) <= 1u128) by (bit_vector)
                requires
                    t <= 0x1_FFFF_FFFF_FFFF_FFFFu128,
            ;
            lemma_limbs_snoc(r@, lo);
            lemma_add_step(
                limbs(r@),
                carry as nat,
                limbs(ap@.take(i as int)),
                limbs(bp@.take(i as int)),
                ap@[i as int] as nat,
                bp@[i as int] as nat,
                lo as nat,
                hi as nat,
                base_pow(i as nat),
            );
            assert(ap@.take(i + 1) =~= ap@.take(i as int).push(ap@[i as int]));
            assert(bp@.take(i + 1) =~= bp@.take(i as int).push(bp@[i as int]));
            lemma_limbs_snoc(ap@.take(i as int), ap@[i as int]);
            lemma_limbs_snoc(bp@.take(i as int), bp@[i as int]);
        }
        r.push(lo);
        carry = hi;
        i += 1;
    }
    proof {
        assert(ap@.take(n as int) =~= ap@);
        assert(bp@.take(n as int) =~= bp@);
        lemma_limbs_snoc(r@, carry);
    }
    r.push(carry);
    r
}

proof fn lemma_shl_step(rv: nat, tv: nat, x: nat, bk: nat, bi: nat)
    by (nonlinear_arith)
    requires
        rv == bk * tv,
    ensures
        rv + (bk * bi) * x == bk * (tv + bi * x),
{
}

/// Shifts a limb vector left by k limbs (multiplies by (2^64)^k).
pub fn shl_limbs(v: &Vec<u64>, k: usize) -> (r: Vec<u64>)
    ensures
        limbs(r@) == base_pow(k as nat) * limbs(v@),
        r@.len() == v@.len() + k,
{
    let mut r: Vec<u64> = Vec::new();
    let mut i: usize = 0;
    while i < k
        invariant
            i <= k,
            r@.len() == i,
            limbs(r@) == 0,
        decreases k - i,
    {
        proof {
            lemma_limbs_snoc(r@, 0);
        }
        r.push(0);
        i += 1;
    }
    let mut j: usize = 0;
    proof {
        assert(v@.take(0) =~= Seq::<u64>::empty());
        lemma_limbs_empty();
        assert(base_pow(k as nat) * limbs(v@.take(0)) == 0) by (nonlinear_arith)
            requires
                limbs(v@.take(0)) == 0,
        ;
    }
    while j < v.len()
        invariant
            j <= v@.len(),
            r@.len() == k + j,
            limbs(r@) == base_pow(k as nat) * limbs(v@.take(j as int)),
        decreases v@.len() - j,
    {
        proof {
            lemma_limbs_snoc(r@, v@[j as int]);
            lemma_base_pow_add(k as nat, j as nat);
            lemma_shl_step(
                limbs(r@),
                limbs(v@.take(j as int)),
                v@[j as int] as nat,
                base_pow(k as nat),
                base_pow(j as nat),
            );
            assert(v@.take(j + 1) =~= v@.take(j as int).push(v@[j as int]));
            lemma_limbs_snoc(v@.take(j as int), v@[j as int]);
        }
        r.push(v[j]);
        j += 1;
    }
    proof {
        assert(v@.take(v@.len() as int) =~= v@);
    }
    r
}

/// Multiplies a limb vector by 10^k.
pub fn mul_pow10(v: Vec<u64>, k: u32) -> (r: Vec<u64>)
    ensures
        limbs(r@) == limbs(v@) * pow10(k as nat),
{
    let mut cur = v;
    let ghost v0 = cur@;
    let mut i: u32 = 0;
    proof {
        lemma_mul_one(limbs(v0), pow10(0));
    }
    while i < k
        invariant
            i <= k,
            limbs(cur@) == limbs(v0) * pow10(i as nat),
        decreases k - i,
    {
        let next = mul_scalar(&cur, 10);
        proof {
            assert(limbs(next@) == (limbs(v0) * pow10(i as nat)) * 10);
            lemma_mul_is_associative(limbs(v0) as int, pow10(i as nat) as int, 10);
            assert(pow10((i + 1) as nat) == pow10(i as nat) * 10);
        }
        cur = next;
        i += 1;
    }
    cur
}

proof fn lemma_lt_decide(ta: nat, tb: nat, sa: nat, sb: nat, bp: nat)
    by (nonlinear_arith)
    requires
        ta < bp,
        sa < sb,
    ensures
        ta + bp * sa < tb + bp * sb,
{
}

/// Strict less-than on the values of two limb vectors.
pub fn lt_limbs(a: &Vec<u64>, b: &Vec<u64>) -> (r: bool)
    ensures
        r == (limbs(a@) < limbs(b@)),
{
    let n = if a.len() >= b.len() { a.len() } else { b.len() };
    let ap = padded(a, n);
    let bp = padded(b, n);
    let mut i: usize = n;
    while i > 0
        invariant
            i <= n,
            n == ap@.len(),
            n == bp@.len(),
            limbs(ap@) == limbs(a@),
            limbs(bp@) == limbs(b@),
            limbs(ap@.skip(i as int)) == limbs(bp@.skip(i as int)),
        decreases i,
    {
        i -= 1;
        let x = ap[i];
        let y = bp[i];
        proof {
            assert(ap@.skip(i as int).skip(1) =~= ap@.skip(i + 1));
            assert(bp@.skip(i as int).skip(1) =~= bp@.skip(i + 1));
            assert(limbs(ap@.skip(i as int)) == x + limbs(ap@.skip(i + 1))
                * 0x1_0000_0000_0000_0000);
            assert(limbs(bp@.skip(i as int)) == y + limbs(bp@.skip(i + 1))
                * 0x1_0000_0000_0000_0000);
            lemma_limbs_split(ap@, i as int);
            lemma_limbs_split(bp@, i as int);
            lemma_limbs_bound(ap@.take(i as int));
            lemma_limbs_bound(bp@.take(i as int));
        }
        if x < y {
            proof {
                lemma_lt_decide(
                    limbs(ap@.take(i as int)),
                    limbs(bp@.take(i as int)),
                    limbs(ap@.skip(i as int)),
                    limbs(bp@.skip(i as int)),
                    base_pow(i as nat),
                );
            }
            return true;
        }
        if x > y {
            proof {
                lemma_lt_decide(
                    limbs(bp@.take(i as int)),
                    limbs(ap@.take(i as int)),
                    limbs(bp@.skip(i as int)),
                    limbs(ap@.skip(i as int)),
                    base_pow(i as nat),
                );
            }
            return false;
        }
    }
    proof {
        assert(ap@.skip(0) =~= ap@);
        assert(bp@.skip(0) =~= bp@);
    }
    false
}

/// Truncates or pads a limb vector to exactly n limbs; the value must fit.
pub fn to_width(v: &Vec<u64>, n: usize) -> (r: Vec<u64>)
    requires
        limbs(v@) < base_pow(n as nat),
    ensures
        r@.len() == n,
        limbs(r@) == limbs(v@),
{
    if v.len() <= n {
        padded(v, n)
    } else {
        proof {
            lemma_limbs_split(v@, n as int);
            lemma_base_pow_pos(n as nat);
            assert(limbs(v@.skip(n as int)) == 0) by {
                if limbs(v@.skip(n as int)) >= 1 {
                    assert(base_pow(n as nat) * limbs(v@.skip(n as int)) >= base_pow(n as nat))
                        by (nonlinear_arith)
                        requires
                            limbs(v@.skip(n as int)) >= 1,
                            base_pow(n as nat) >= 1,
                    ;
                }
            }
        }
        let mut r: Vec<u64> = Vec::new();
        let mut i: usize = 0;
        while i < n
            invariant
                i <= n,
                n <= v@.len(),
                r@ == v@.take(n as int).take(i as int),
            decreases n - i,
        {
            r.push(v[i]);
            proof {
                assert(r@ =~= v@.take(n as int).take(i + 1));
            }
            i += 1;
        }
        proof {
            assert(v@.take(n as int).take(n as int) =~= v@.take(n as int));
        }
        r
    }
}

/// The limb vector [lo, hi] of a 128-bit value split at bit 64.
pub fn limbs_of_u128(x: u128) -> (r: Vec<u64>)
    ensures
        r@.len() == 2,
        limbs(r@) == x,
{
    let lo: u64 = (x & 0xFFFF_FFFF_FFFF_FFFFu128) as u64;
    let hi: u64 = (x >> 64u128) as u64;
    proof {
        assert(x == (x >> 64u128) * 0x1_0000_0000_0000_0000 + (x & 0xFFFF_FFFF_FFFF_FFFFu128)
            && (x >> 64u128) <= 0xFFFF_FFFF_FFFF_FFFFu128
            && (x & 0xFFFF_FFFF_FFFF_FFFFu128) <= 0xFFFF_FFFF_FFFF_FFFFu128) by (bit_vector);
    }
    let mut r: Vec<u64> = Vec::new();
    r.push(lo);
    r.push(hi);
    proof {
        assert(r@.skip(1) =~= seq![hi]);
        lemma_limbs_single(hi);
    }
    r
}

} // verus!
