use vstd::arithmetic::power2::*;
use vstd::prelude::*;

verus! {

// Conversion of a small non-negative integer to the bit pattern of the
// IEEE-754 single-precision number with the same value.
//
// The encoded stream carries opcodes, bracket markers and the packed fill
// color as single-precision numbers whose values are integers below 2^24.
// Every such integer is exactly representable: for n with
// 2^e <= n < 2^(e+1) and e <= 23, the number n has biased exponent
// 127 + e and mantissa (n - 2^e) * 2^(23 - e), and its bit pattern is
// those two fields side by side. Zero is all-zero bits. Everything here
// is integer arithmetic; no floating-point operation is involved.

/// The position of the low bit of the exponent field.
pub const MANTISSA_BITS: u32 = 23;

/// The exponent bias of single-precision numbers.
pub const EXP_BIAS: u32 = 127;

/// The exponent e of the leading binary digit of n: 2^e <= n < 2^(e+1).
pub open spec fn lead_exp(n: nat) -> nat
    decreases n,
{
    if n <= 1 {
        0
    } else {
        1 + lead_exp(n / 2)
    }
}

/// The bit pattern of the single-precision number whose value is n,
/// for n below 2^24 (where that value is exact).
pub open spec fn float_bits_of(n: nat) -> u32 {
    if n == 0 {
        0
    } else {
        let e = lead_exp(n);
        (((EXP_BIAS + e) * pow2(MANTISSA_BITS as nat)) + (n - pow2(e)) * pow2(
            (MANTISSA_BITS - e) as nat,
        )) as u32
    }
}

/// The leading-digit exponent is characterized by 2^e <= n < 2^(e+1).
pub proof fn lemma_lead_exp_bounds(n: nat)
    requires
        n >= 1,
    ensures
        pow2(lead_exp(n)) <= n < pow2(lead_exp(n) + 1),
    decreases n,
{
    lemma2_to64();
    lemma_pow2_unfold(lead_exp(n) + 1);
    if n > 1 {
        lemma_lead_exp_bounds(n / 2);
        lemma_pow2_unfold(lead_exp(n));
        assert(lead_exp(n) == 1 + lead_exp(n / 2));
        assert(pow2(lead_exp(n)) == 2 * pow2(lead_exp(n / 2)));
        assert(pow2(lead_exp(n) + 1) == 2 * pow2(lead_exp(n / 2) + 1));
        assert(2 * (n / 2) <= n < 2 * (n / 2) + 2);
    }
}

/// Conversely, the bounds pin the exponent down.
pub proof fn lemma_lead_exp_unique(n: nat, e: nat)
    requires
        pow2(e) <= n < pow2(e + 1),
    ensures
        lead_exp(n) == e,
    decreases n,
{
    lemma2_to64();
    lemma_pow2_pos(e);
    lemma_pow2_unfold(e + 1);
    if e == 0 {
        assert(n == 1);
    } else {
        lemma_pow2_unfold(e);
        lemma_pow2_pos((e - 1) as nat);
        assert(pow2(e) == 2 * pow2((e - 1) as nat));
        assert(n >= 2);
        assert(pow2((e - 1) as nat) <= n / 2 < pow2(e)) by {
            assert(2 * (n / 2) <= n < 2 * (n / 2) + 2);
        }
        lemma_lead_exp_unique(n / 2, (e - 1) as nat);
        assert(lead_exp(n) == 1 + lead_exp(n / 2));
    }
}

/// Small integers have small leading exponents.
pub proof fn lemma_lead_exp_below_24(n: nat)
    requires
        1 <= n < 0x1000000,
    ensures
        lead_exp(n) <= 23,
{
    lemma2_to64();
    lemma_lead_exp_bounds(n);
    if lead_exp(n) > 24 {
        lemma_pow2_strictly_increases(24, lead_exp(n));
    }
}

/// The bit pattern of a nonzero stream integer, unfolded, with the bounds
/// that make the cast in `float_bits_of` lossless: the mantissa field stays
/// below 2^23 and the whole pattern fits in 32 bits.
pub proof fn lemma_float_bits_fits(n: nat)
    requires
        1 <= n < 0x1000000,
    ensures
        ({
            let e = lead_exp(n);
            &&& e <= 23
            &&& (n - pow2(e)) * pow2((MANTISSA_BITS - e) as nat) < pow2(23)
            &&& (EXP_BIAS + e) * pow2(23) + (n - pow2(e)) * pow2((MANTISSA_BITS - e) as nat)
                < 0x100000000
            &&& float_bits_of(n) == (EXP_BIAS + e) * pow2(23) + (n - pow2(e)) * pow2(
                (MANTISSA_BITS - e) as nat,
            )
        }),
{
    let e = lead_exp(n);
    lemma_lead_exp_below_24(n);
    lemma_lead_exp_bounds(n);
    lemma_pow2_unfold(e + 1);
    let m = (n - pow2(e)) as nat;
    assert(m < pow2(e));
    lemma_pow2_pos((MANTISSA_BITS - e) as nat);
    vstd::arithmetic::mul::lemma_mul_strict_inequality(
        m as int,
        pow2(e) as int,
        pow2((MANTISSA_BITS - e) as nat) as int,
    );
    lemma_pow2_adds(e, (MANTISSA_BITS - e) as nat);
    assert(m * pow2((MANTISSA_BITS - e) as nat) < pow2(23));
    lemma2_to64();
    assert((EXP_BIAS + e) * pow2(23) <= 150 * 0x800000) by (nonlinear_arith)
        requires
            e <= 23,
            pow2(23) == 0x800000,
    ;
}

/// Below 2^24 the bit pattern determines the integer: the conversion is
/// injective on the values a stream can carry.
pub proof fn lemma_float_bits_of_injective(a: nat, b: nat)
    requires
        a < 0x1000000,
        b < 0x1000000,
        float_bits_of(a) == float_bits_of(b),
    ensures
        a == b,
{
    lemma2_to64();
    if a != 0 && b == 0 {
        lemma_float_bits_fits(a);
        lemma_lead_exp_bounds(a);
        let e = lead_exp(a) as int;
        assert((127 + e) * 0x800000 >= 0x800000) by (nonlinear_arith)
            requires
                e >= 0,
        ;
        assert((EXP_BIAS + lead_exp(a)) * pow2(23) == (127 + e) * 0x800000);
        vstd::arithmetic::mul::lemma_mul_nonnegative(
            (a - pow2(lead_exp(a))) as int,
            pow2((MANTISSA_BITS - lead_exp(a)) as nat) as int,
        );
    } else if a == 0 && b != 0 {
        lemma_float_bits_fits(b);
        lemma_lead_exp_bounds(b);
        let e = lead_exp(b) as int;
        assert((127 + e) * 0x800000 >= 0x800000) by (nonlinear_arith)
            requires
                e >= 0,
        ;
        assert((EXP_BIAS + lead_exp(b)) * pow2(23) == (127 + e) * 0x800000);
        vstd::arithmetic::mul::lemma_mul_nonnegative(
            (b - pow2(lead_exp(b))) as int,
            pow2((MANTISSA_BITS - lead_exp(b)) as nat) as int,
        );
    } else if a != 0 && b != 0 {
        lemma_float_bits_fits(a);
        lemma_float_bits_fits(b);
        let ea = lead_exp(a);
        let eb = lead_exp(b);
        let ma = (a - pow2(ea)) * pow2((MANTISSA_BITS - ea) as nat);
        let mb = (b - pow2(eb)) * pow2((MANTISSA_BITS - eb) as nat);
        // The exponent field is the bits divided by 2^23, so it agrees.
        lemma_lead_exp_bounds(a);
        lemma_lead_exp_bounds(b);
        vstd::arithmetic::mul::lemma_mul_nonnegative(
            (a - pow2(ea)) as int,
            pow2((MANTISSA_BITS - ea) as nat) as int,
        );
        vstd::arithmetic::mul::lemma_mul_nonnegative(
            (b - pow2(eb)) as int,
            pow2((MANTISSA_BITS - eb) as nat) as int,
        );
        assert(0 <= ma < pow2(23));
        assert(0 <= mb < pow2(23));
        assert(float_bits_of(a) == (EXP_BIAS + ea) * pow2(23) + ma);
        assert(float_bits_of(b) == (EXP_BIAS + eb) * pow2(23) + mb);
        vstd::arithmetic::div_mod::lemma_fundamental_div_mod_converse(
            float_bits_of(a) as int,
            pow2(23) as int,
            (EXP_BIAS + ea) as int,
            ma as int,
        );
        vstd::arithmetic::div_mod::lemma_fundamental_div_mod_converse(
            float_bits_of(b) as int,
            pow2(23) as int,
            (EXP_BIAS + eb) as int,
            mb as int,
        );
        assert(ea == eb);
        assert(ma == mb);
        // The mantissa field is the offset above 2^ea, scaled by a fixed
        // nonzero power, so the offsets agree too.
        lemma_pow2_pos((MANTISSA_BITS - ea) as nat);
        let scale = pow2((MANTISSA_BITS - ea) as nat) as int;
        assert(scale * ((a - pow2(ea)) as int) == scale * ((b - pow2(ea)) as int)) by (
        nonlinear_arith)
            requires
                ((a - pow2(ea)) as int) * scale == ((b - pow2(ea)) as int) * scale,
        ;
        vstd::arithmetic::mul::lemma_mul_equality_converse(
            scale,
            (a - pow2(ea)) as int,
            (b - pow2(ea)) as int,
        );
    }
}

/// The bit patterns of the first few integers, which serve as opcodes and
/// bracket markers: all distinct.
pub proof fn lemma_float_bits_small()
    ensures
        float_bits_of(0) == 0x0000_0000,
        float_bits_of(1) == 0x3F80_0000,
        float_bits_of(2) == 0x4000_0000,
        float_bits_of(3) == 0x4040_0000,
        float_bits_of(4) == 0x4080_0000,
        float_bits_of(5) == 0x40A0_0000,
        float_bits_of(6) == 0x40C0_0000,
        float_bits_of(7) == 0x40E0_0000,
        float_bits_of(8) == 0x4100_0000,
        float_bits_of(9) == 0x4110_0000,
        float_bits_of(10) == 0x4120_0000,
        float_bits_of(11) == 0x4130_0000,
        float_bits_of(12) == 0x4140_0000,
        float_bits_of(13) == 0x4150_0000,
{
    reveal_with_fuel(lead_exp, 6);
    lemma2_to64();
    assert(lead_exp(1) == 0);
    assert(lead_exp(2) == 1);
    assert(lead_exp(3) == 1);
    assert(lead_exp(4) == 2);
    assert(lead_exp(5) == 2);
    assert(lead_exp(6) == 2);
    assert(lead_exp(7) == 2);
    assert(lead_exp(8) == 3);
    assert(lead_exp(9) == 3);
    assert(lead_exp(10) == 3);
    assert(lead_exp(11) == 3);
    assert(lead_exp(12) == 3);
    assert(lead_exp(13) == 3);
    assert((EXP_BIAS + 0) * pow2(23) == 0x3F80_0000);
    assert((EXP_BIAS + 1) * pow2(23) == 0x4000_0000);
    assert((EXP_BIAS + 2) * pow2(23) == 0x4080_0000);
    assert((EXP_BIAS + 3) * pow2(23) == 0x4100_0000);
    assert((3 - pow2(1)) * pow2(22) == 0x40_0000);
    assert((5 - pow2(2)) * pow2(21) == 0x20_0000);
    assert((6 - pow2(2)) * pow2(21) == 0x40_0000);
    assert((7 - pow2(2)) * pow2(21) == 0x60_0000);
    assert((9 - pow2(3)) * pow2(20) == 0x10_0000);
    assert((10 - pow2(3)) * pow2(20) == 0x20_0000);
    assert((11 - pow2(3)) * pow2(20) == 0x30_0000);
    assert((12 - pow2(3)) * pow2(20) == 0x40_0000);
    assert((13 - pow2(3)) * pow2(20) == 0x50_0000);
}

/// Computes the single-precision bit pattern of `v`.
pub fn float_bits(v: u32) -> (r: u32)
    requires
        v < 0x1000000,
    ensures
        r == float_bits_of(v as nat),
{
    if v == 0 {
        return 0;
    }
    proof {
        lemma2_to64();
        lemma_float_bits_fits(v as nat);
    }
    let mut e: u32 = 0;
    let mut p: u32 = 1;
    let mut q: u32 = 0x800000;
    while 2 * p <= v
        invariant
            1 <= v < 0x1000000,
            e <= 23,
            p == pow2(e as nat),
            q == pow2((MANTISSA_BITS - e) as nat),
            p <= v,
        decreases v - p,
    {
        proof {
            if e == 23 {
                lemma2_to64();
                assert(false);
            }
            lemma_pow2_unfold((e + 1) as nat);
            lemma_pow2_unfold((MANTISSA_BITS - e) as nat);
            lemma_pow2_pos((MANTISSA_BITS - e - 1) as nat);
            lemma_pow2_adds(e as nat, (MANTISSA_BITS - e) as nat);
            lemma2_to64();
        }
        e = e + 1;
        p = 2 * p;
        q = q / 2;
    }
    proof {
        lemma_lead_exp_unique(v as nat, e as nat);
        lemma_pow2_unfold((e + 1) as nat);
        let m = (v - p) as nat;
        vstd::arithmetic::mul::lemma_mul_strict_inequality(
            m as int,
            pow2(e as nat) as int,
            pow2((MANTISSA_BITS - e) as nat) as int,
        );
        lemma_pow2_adds(e as nat, (MANTISSA_BITS - e) as nat);
        lemma2_to64();
    }
    (EXP_BIAS + e) * 0x800000 + (v - p) * q
}

} // verus!
