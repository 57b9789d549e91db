use vstd::prelude::*;
use crate::num::{
    add_limbs, base_pow, limbs, limbs_of_u128, lt_limbs, mul_pow10, mul_scalar,
    pow10, shl_limbs, to_width, lemma_pow10_pos, lemma_limbs_single, lemma_base_pow_vals,
};
use vstd::arithmetic::div_mod::{lemma_fundamental_div_mod, lemma_fundamental_div_mod_converse};

verus! {

/// Which record slot each configured asset occupies: with orientation AB the
/// first configured mint is the record's token_mint_0, with BA it is the
/// record's token_mint_1.
#[derive(PartialEq, Eq, Structural, Clone, Copy, Debug)]
pub enum Orientation {
    AB,
    BA,
}

/// The exact derived spot price, as a rational number.
///
/// The record's square-root price is a Q64.64 fixed-point value s, so the
/// raw price (token-1 base units per token-0 base unit) is s^2 / 2^128; the
/// 256-bit numerator s^2 is held exactly in `raw_hi`/`raw_lo`. `dec_exp` is
/// the decimal-normalization exponent of the selected orientation and
/// `inverted` says whether the oriented price is the reciprocal of the raw
/// price. With orientation BA and a zero square-root price the denominator
/// is zero: the price is the defined "infinite" sentinel, never a division
/// by zero.
#[derive(PartialEq, Eq, Structural, Clone, Copy, Debug)]
pub struct DerivedPrice {
    pub raw_hi: u128,
    pub raw_lo: u128,
    pub dec_exp: i32,
    pub inverted: bool,
}

/// max(e, 0), the decimal exponent applied to one side of the rational.
pub open spec fn pos_part(e: int) -> nat {
    if e >= 0 {
        e as nat
    } else {
        0
    }
}

impl DerivedPrice {
    pub open spec fn wf(self) -> bool {
        -255 <= self.dec_exp <= 255
    }

    /// The exact 256-bit numerator of the raw price s^2 / 2^128.
    pub open spec fn raw(self) -> nat {
        ((self.raw_hi as nat) * 0x1_0000_0000_0000_0000_0000_0000_0000_0000nat + self.raw_lo) as nat
    }

    /// Numerator of the oriented, decimal-normalized price.
    pub open spec fn num(self) -> nat {
        if self.inverted {
            (0x1_0000_0000_0000_0000_0000_0000_0000_0000nat * pow10(pos_part(self.dec_exp as int)))
                as nat
        } else {
            self.raw() * pow10(pos_part(self.dec_exp as int))
        }
    }

    /// Denominator of the oriented, decimal-normalized price; zero only for
    /// the infinite sentinel.
    pub open spec fn den(self) -> nat {
        if self.inverted {
            self.raw() * pow10(pos_part(-(self.dec_exp as int)))
        } else {
            (0x1_0000_0000_0000_0000_0000_0000_0000_0000nat * pow10(
                pos_part(-(self.dec_exp as int)),
            )) as nat
        }
    }

    /// The reciprocal of a zero raw price: the defined sentinel for a
    /// pair quoted against an empty side.
    pub open spec fn is_infinite(self) -> bool {
        self.den() == 0
    }

    /// The price is finite and strictly below the integer floor.
    pub open spec fn spec_below(self, floor: nat) -> bool {
        !self.is_infinite() && self.num() < floor * self.den()
    }

    /// Decides num < floor * den exactly, in limb arithmetic.
    pub fn below_floor(&self, floor: u64) -> (r: bool)
        requires
            self.wf(),
        ensures
            r == self.spec_below(floor as nat),
    {
        let (pos_e, neg_e): (u32, u32) = if self.dec_exp >= 0 {
            (self.dec_exp as u32, 0)
        } else {
            (0, (-self.dec_exp) as u32)
        };
        proof {
            assert(pos_e as nat == pos_part(self.dec_exp as int));
            assert(neg_e as nat == pos_part(-(self.dec_exp as int)));
        }
        let num_base = if self.inverted {
            q128_limbs()
        } else {
            raw_limbs(self.raw_hi, self.raw_lo)
        };
        let den_base = if self.inverted {
            raw_limbs(self.raw_hi, self.raw_lo)
        } else {
            q128_limbs()
        };
        let num = mul_pow10(num_base, pos_e);
        let den_f = mul_scalar(&den_base, floor);
        let den = mul_pow10(den_f, neg_e);
        proof {
            let b = limbs(den_base@);
            let f = floor as nat;
            let p = pow10(neg_e as nat);
            assert((b * f) * p == f * (b * p)) by (nonlinear_arith);
            assert(limbs(den@) == (floor as nat) * self.den());
            if self.is_infinite() {
                assert((floor as nat) * self.den() == 0) by (nonlinear_arith)
                    requires
                        self.den() == 0,
                ;
            }
        }
        lt_limbs(&num, &den)
    }
}

/// The limb vector [0, 0, 1], the Q64.64 squared denominator 2^128.
fn q128_limbs() -> (r: Vec<u64>)
    ensures
        limbs(r@) == 0x1_0000_0000_0000_0000_0000_0000_0000_0000nat,
{
    let one: Vec<u64> = vec![1u64];
    proof {
        lemma_limbs_single(1);
        assert(one@ =~= seq![1u64]);
        lemma_base_pow_vals();
        assert(base_pow(2) * limbs(one@) == 0x1_0000_0000_0000_0000_0000_0000_0000_0000nat)
            by (nonlinear_arith)
            requires
                limbs(one@) == 1,
                base_pow(2) == 0x1_0000_0000_0000_0000_0000_0000_0000_0000nat,
        ;
    }
    let r = shl_limbs(&one, 2);
    r
}

/// The four limbs of the 256-bit value hi * 2^128 + lo.
fn raw_limbs(hi: u128, lo: u128) -> (r: Vec<u64>)
    ensures
        limbs(r@) == ((hi as nat) * 0x1_0000_0000_0000_0000_0000_0000_0000_0000nat + lo) as nat,
{
    let lo_l = limbs_of_u128(lo);
    let hi_l = limbs_of_u128(hi);
    let hi_s = shl_limbs(&hi_l, 2);
    proof {
        lemma_base_pow_vals();
        assert(base_pow(2) * limbs(hi_l@) == (hi as nat)
            * 0x1_0000_0000_0000_0000_0000_0000_0000_0000nat) by (nonlinear_arith)
            requires
                limbs(hi_l@) == hi as nat,
                base_pow(2) == 0x1_0000_0000_0000_0000_0000_0000_0000_0000nat,
        ;
    }
    add_limbs(&lo_l, &hi_s)
}

/// The derived price determined by a square-root price, the two mint
/// decimal counts, and the selected orientation.
pub open spec fn spec_derive(
    sqrt_price: u128,
    decimals_0: u8,
    decimals_1: u8,
    orientation: Orientation,
) -> DerivedPrice {
    let sq = (sqrt_price as nat) * (sqrt_price as nat);
    DerivedPrice {
        raw_hi: (sq / 0x1_0000_0000_0000_0000_0000_0000_0000_0000nat) as u128,
        raw_lo: (sq % 0x1_0000_0000_0000_0000_0000_0000_0000_0000nat) as u128,
        dec_exp: if orientation == Orientation::AB {
            (decimals_0 - decimals_1) as i32
        } else {
            (decimals_1 - decimals_0) as i32
        },
        inverted: orientation == Orientation::BA,
    }
}

proof fn lemma_square_bound(x: u128)
    by (nonlinear_arith)
    ensures
        (x as nat) * (x as nat) < 0x1_0000_0000_0000_0000_0000_0000_0000_0000nat
            * 0x1_0000_0000_0000_0000_0000_0000_0000_0000nat,
{
}

/// Derives the exact oriented price of a record.
pub fn derive_price(sqrt_price: u128, decimals_0: u8, decimals_1: u8, orientation: Orientation) -> (r:
    DerivedPrice)
    ensures
        r == spec_derive(sqrt_price, decimals_0, decimals_1, orientation),
        r.wf(),
        r.raw() == (sqrt_price as nat) * (sqrt_price as nat),
        r.is_infinite() <==> (orientation == Orientation::BA && sqrt_price == 0),
{
    let (hi, lo) = square_u128(sqrt_price);
    let dec_exp: i32 = match orientation {
        Orientation::AB => decimals_0 as i32 - decimals_1 as i32,
        Orientation::BA => decimals_1 as i32 - decimals_0 as i32,
    };
    let r = DerivedPrice { raw_hi: hi, raw_lo: lo, dec_exp, inverted: orientation
        == Orientation::BA };
    proof {
        let q: int = 0x1_0000_0000_0000_0000_0000_0000_0000_0000int;
        let sq: int = (sqrt_price as int) * (sqrt_price as int);
        lemma_fundamental_div_mod_converse(sq, q, hi as int, lo as int);
        lemma_derive_infinite(r, sqrt_price);
    }
    r
}

proof fn lemma_derive_infinite(r: DerivedPrice, sqrt_price: u128)
    requires
        r.raw() == (sqrt_price as nat) * (sqrt_price as nat),
    ensures
        r.is_infinite() <==> (r.inverted && sqrt_price == 0),
{
    lemma_pow10_pos(pos_part(-(r.dec_exp as int)));
    lemma_pow10_pos(pos_part(r.dec_exp as int));
    let p = pow10(pos_part(-(r.dec_exp as int)));
    if r.inverted {
        if sqrt_price == 0 {
            assert(r.raw() * p == 0) by (nonlinear_arith)
                requires
                    r.raw() == 0,
            ;
        } else {
            assert((sqrt_price as nat) * (sqrt_price as nat) >= 1) by (nonlinear_arith)
                requires
                    sqrt_price >= 1,
            ;
            assert(r.raw() * p >= 1) by (nonlinear_arith)
                requires
                    r.raw() >= 1,
                    p >= 1,
            ;
        }
    } else {
        assert(0x1_0000_0000_0000_0000_0000_0000_0000_0000nat * p >= 1) by (nonlinear_arith)
            requires
                p >= 1,
        ;
    }
}

/// The 256-bit square of a 128-bit value, split at bit 128.
fn square_u128(x: u128) -> (r: (u128, u128))
    ensures
        (r.0 as nat) * 0x1_0000_0000_0000_0000_0000_0000_0000_0000nat + r.1 == x * x,
{
    let v = limbs_of_u128(x);
    let x_lo: u64 = (x & 0xFFFF_FFFF_FFFF_FFFFu128) as u64;
    let x_hi: u64 = (x >> 64u128) as u64;
    proof {
        assert(x == (x >> 64u128) * 0x1_0000_0000_0000_0000 + (x & 0xFFFF_FFFF_FFFF_FFFFu128)
            && (x >> 64u128) <= 0xFFFF_FFFF_FFFF_FFFFu128
            && (x & 0xFFFF_FFFF_FFFF_FFFFu128) <= 0xFFFF_FFFF_FFFF_FFFFu128) by (bit_vector);
    }
    let m_lo = mul_scalar(&v, x_lo);
    let m_hi = mul_scalar(&v, x_hi);
    let m_hi_s = shl_limbs(&m_hi, 1);
    let s = add_limbs(&m_lo, &m_hi_s);
    proof {
        let xv = x as nat;
        let lo = x_lo as nat;
        let hi = x_hi as nat;
        lemma_base_pow_vals();
        assert(limbs(s@) == xv * lo + 0x1_0000_0000_0000_0000 * (xv * hi));
        assert(xv * lo + 0x1_0000_0000_0000_0000 * (xv * hi) == xv * xv) by (nonlinear_arith)
            requires
                xv == hi * 0x1_0000_0000_0000_0000 + lo,
        ;
        lemma_square_bound(x);
    }
    let s4 = to_width(&s, 4);
    let lo128: u128 = (s4[0] as u128) + (s4[1] as u128) * 0x1_0000_0000_0000_0000u128;
    let hi128: u128 = (s4[2] as u128) + (s4[3] as u128) * 0x1_0000_0000_0000_0000u128;
    proof {
        let q = s4@;
        lemma_limbs_single(q[3]);
        assert(limbs(seq![q[2], q[3]]) == q[2] + q[3] * 0x1_0000_0000_0000_0000) by {
            assert(seq![q[2], q[3]].skip(1) =~= seq![q[3]]);
            lemma_limbs_single(q[3]);
        }
        assert(limbs(seq![q[1], q[2], q[3]]) == q[1] + (q[2] + q[3] * 0x1_0000_0000_0000_0000)
            * 0x1_0000_0000_0000_0000) by {
            assert(seq![q[1], q[2], q[3]].skip(1) =~= seq![q[2], q[3]]);
            assert(limbs(seq![q[2], q[3]]) == q[2] + q[3] * 0x1_0000_0000_0000_0000) by {
                assert(seq![q[2], q[3]].skip(1) =~= seq![q[3]]);
                lemma_limbs_single(q[3]);
            }
        }
        assert(q.skip(1) =~= seq![q[1], q[2], q[3]]);
        assert(limbs(q) == q[0] + limbs(q.skip(1)) * 0x1_0000_0000_0000_0000);
    }
    (hi128, lo128)
}

/// Law: the raw price is exactly the square of the fixed-point square-root
/// price; in particular a zero square-root price yields a zero raw price.
pub proof fn lemma_raw_price_square(
    sqrt_price: u128,
    decimals_0: u8,
    decimals_1: u8,
    orientation: Orientation,
)
    ensures
        spec_derive(sqrt_price, decimals_0, decimals_1, orientation).raw() == (sqrt_price as nat)
            * (sqrt_price as nat),
        sqrt_price == 0 ==> spec_derive(sqrt_price, decimals_0, decimals_1, orientation).raw()
            == 0,
{
    let q: int = 0x1_0000_0000_0000_0000_0000_0000_0000_0000int;
    let sq: int = (sqrt_price as int) * (sqrt_price as int);
    lemma_fundamental_div_mod(sq, q);
    lemma_square_bound(sqrt_price);
    assert(0 <= sq / q < q) by (nonlinear_arith)
        requires
            0 <= sq < q * q,
            q > 0,
    ;
}

/// Law: increasing the square-root price strictly increases the raw price.
pub proof fn lemma_raw_price_strictly_monotonic(
    s1: u128,
    s2: u128,
    decimals_0: u8,
    decimals_1: u8,
    orientation: Orientation,
)
    requires
        s1 < s2,
    ensures
        spec_derive(s1, decimals_0, decimals_1, orientation).raw() < spec_derive(
            s2,
            decimals_0,
            decimals_1,
            orientation,
        ).raw(),
{
    lemma_raw_price_square(s1, decimals_0, decimals_1, orientation);
    lemma_raw_price_square(s2, decimals_0, decimals_1, orientation);
    assert((s1 as nat) * (s1 as nat) < (s2 as nat) * (s2 as nat)) by (nonlinear_arith)
        requires
            s1 < s2,
    ;
}

/// Law: flipping the orientation of the same record yields exactly the
/// reciprocal price: numerator and denominator trade places.
pub proof fn lemma_orientation_reciprocal(sqrt_price: u128, decimals_0: u8, decimals_1: u8)
    ensures
        spec_derive(sqrt_price, decimals_0, decimals_1, Orientation::BA).num() == spec_derive(
            sqrt_price,
            decimals_0,
            decimals_1,
            Orientation::AB,
        ).den(),
        spec_derive(sqrt_price, decimals_0, decimals_1, Orientation::BA).den() == spec_derive(
            sqrt_price,
            decimals_0,
            decimals_1,
            Orientation::AB,
        ).num(),
{
    let ab = spec_derive(sqrt_price, decimals_0, decimals_1, Orientation::AB);
    let ba = spec_derive(sqrt_price, decimals_0, decimals_1, Orientation::BA);
    assert(ba.dec_exp as int == -(ab.dec_exp as int));
    assert(pos_part(ba.dec_exp as int) == pos_part(-(ab.dec_exp as int)));
    assert(pos_part(-(ba.dec_exp as int)) == pos_part(ab.dec_exp as int));
}

} // verus!
