//! Half and single precision numbers, held by their bits.
use crate::gguf::bytes::number_at;
use vstd::arithmetic::power2::{lemma2_to64, lemma_pow2_adds, lemma_pow2_pos, lemma_pow2_unfold, pow2};
use vstd::prelude::*;

verus! {

/// The sign bit of a single precision number.
pub open spec fn sign32(b: u32) -> int {
    b as int / 0x8000_0000
}

/// The exponent field of a single precision number.
pub open spec fn exp32(b: u32) -> int {
    (b as int / 0x80_0000) % 0x100
}

/// The fraction field of a single precision number.
pub open spec fn frac32(b: u32) -> int {
    b as int % 0x80_0000
}

/// The single precision number of a sign, an exponent and a fraction.
pub open spec fn make32(sign: int, exp: int, frac: int) -> int {
    sign * 0x8000_0000 + exp * 0x80_0000 + frac
}

/// The sign bit of a half precision number.
pub open spec fn sign16(h: u16) -> int {
    h as int / 0x8000
}

/// The exponent field of a half precision number.
pub open spec fn exp16(h: u16) -> int {
    (h as int / 0x400) % 0x20
}

/// The fraction field of a half precision number.
pub open spec fn frac16(h: u16) -> int {
    h as int % 0x400
}

/// The significand of a finite single precision number.
pub open spec fn significand32(b: u32) -> int {
    if exp32(b) == 0 {
        frac32(b)
    } else {
        0x80_0000 + frac32(b)
    }
}

/// The size of a finite single precision number, counted in units of 2^-150.
pub open spec fn size32(b: u32) -> int {
    if exp32(b) == 0 {
        frac32(b) * 2
    } else {
        (0x80_0000 + frac32(b)) * pow2(exp32(b) as nat)
    }
}

/// The size of a finite half precision number, counted in units of 2^-150.
pub open spec fn size16(h: u16) -> int {
    if exp16(h) == 0 {
        frac16(h) * pow2(126)
    } else {
        (0x400 + frac16(h)) * pow2((exp16(h) + 125) as nat)
    }
}

/// What [`f16_to_f32`] gives: the same number, infinity for infinity, and one
/// number that is not a number for all of those.
pub open spec fn widens(h: u16, r: u32) -> bool {
    if exp16(h) == 31 {
        if frac16(h) == 0 {
            r == make32(sign16(h), 255, 0)
        } else {
            r == 0x7fc0_0000
        }
    } else {
        &&& exp32(r) < 255
        &&& sign32(r) == sign16(h)
        &&& size32(r) == size16(h)
    }
}

/// The quotient of `n` by 2^`k`, rounded to the nearest, to the even one of
/// two nearest.
pub open spec fn nearest(n: int, k: nat) -> int {
    let q = n / pow2(k) as int;
    let rest = n % pow2(k) as int;
    if 2 * rest > pow2(k) || (2 * rest == pow2(k) && q % 2 == 1) {
        q + 1
    } else {
        q
    }
}

/// The half precision number nearest to a single precision number, the even
/// one of two nearest; infinity for what is too large.
pub open spec fn narrowed(b: u32) -> int {
    let sign = sign32(b) * 0x8000;
    if exp32(b) == 255 {
        sign + (if frac32(b) == 0 {
            0x7c00int
        } else {
            0x7e00
        })
    } else {
        let e = exp32(b) - 112;
        let low = if e >= 1 {
            (e - 1) * 0x400 + nearest(significand32(b), 13)
        } else {
            nearest(significand32(b), (14 - e) as nat)
        };
        sign + (if low > 0x7c00 {
            0x7c00
        } else {
            low
        })
    }
}

/// What [`f32_to_f16_bits_fast`] gives: halves are rounded up, small numbers
/// become zero, and a fraction that rounds up to a whole raises the exponent
/// by one, to infinity where that is too large.
pub open spec fn narrowed_fast(b: u32) -> int {
    let sign = sign32(b) * 0x8000;
    if exp32(b) == 255 {
        sign + 0x7c00 + (if frac32(b) != 0 {
            0x200int
        } else {
            0
        })
    } else {
        let e = exp32(b) - 112;
        let f = (frac32(b) + 0x1000) / 0x2000;
        if e >= 31 {
            sign + 0x7c00
        } else if e <= 0 {
            sign
        } else if f < 0x400 {
            sign + e * 0x400 + f
        } else {
            sign + (e + 1) * 0x400
        }
    }
}

/// What [`f16_bits_to_f32_fast`] gives: small numbers become zero.
pub open spec fn widened_fast(h: u16) -> int {
    if exp16(h) == 0 {
        make32(sign16(h), 0, 0)
    } else if exp16(h) == 31 {
        make32(sign16(h), 255, frac16(h) * 0x2000)
    } else {
        make32(sign16(h), exp16(h) + 112, frac16(h) * 0x2000)
    }
}

/// Reads little-endian single precision numbers, as their bits, into `y`.
pub fn dequant_f32(data: &[u8], y: &mut Vec<u32>)
    requires
        data@.len() == old(y)@.len() * 4,
    ensures
        final(y)@.len() == old(y)@.len(),
        forall|i: int|
            0 <= i < final(y)@.len() ==> #[trigger] final(y)@[i] == number_at(data@, i * 4, 4),
{
    let n: usize = y.len();
    let mut i: usize = 0;
    while i < n
        invariant
            i <= n == y@.len() == old(y)@.len(),
            data@.len() == n * 4,
            forall|k: int| 0 <= k < i ==> #[trigger] y@[k] == number_at(data@, k * 4, 4),
        decreases n - i,
    {
        assert(data.len() == data@.len());
        let at: usize = i * 4;
        let v: u32 = data[at] as u32 + data[at + 1] as u32 * 0x100 + data[at + 2] as u32 * 0x1_0000
            + data[at + 3] as u32 * 0x100_0000;
        proof {
            let b = data@.subrange(at as int, at + 4);
            reveal_with_fuel(crate::gguf::bytes::little_endian, 5);
            assert(b.drop_first()[0] == data@[at + 1]);
            assert(b.drop_first().drop_first()[0] == data@[at + 2]);
            assert(b.drop_first().drop_first().drop_first()[0] == data@[at + 3]);
            assert(v == number_at(data@, i * 4, 4));
        }
        y.set(i, v);
        i = i + 1;
    }
}

/// The bits of the single precision number that equals a half precision one.
pub fn f16_to_f32(bits: u16) -> (r: u32)
    ensures
        widens(bits, r),
{
    let sign: u32 = bits as u32 / 0x8000;
    let exponent: u32 = (bits as u32 / 0x400) % 0x20;
    let fraction: u32 = bits as u32 % 0x400;
    if exponent == 31 {
        if fraction == 0 {
            return sign * 0x8000_0000 + 0x7f80_0000;
        }
        return 0x7fc0_0000;
    }
    if exponent == 0 {
        if fraction == 0 {
            return sign * 0x8000_0000;
        }
        let mut f: u32 = fraction;
        let mut e: u32 = 113;
        proof {
            lemma_pow2_adds(113, 13);
            lemma2_to64();
            assert(fraction * 1 == fraction);
            assert(fraction * pow2(126) == fraction * 0x2000 * pow2(113)) by (nonlinear_arith)
                requires
                    pow2(126) == pow2(113) * 0x2000,
            ;
        }
        while f < 0x400
            invariant
                0 < f < 0x800,
                e <= 113,
                fraction < 0x400,
                fraction > 0,
                f == fraction * pow2((113 - e) as nat),
                f * 0x2000 * pow2(e as nat) == fraction * pow2(126),
                103 <= e,
            decreases 0x800 - f,
        {
            proof {
                if e == 103 {
                    lemma2_to64();
                    assert(fraction * 0x400 >= 0x400) by (nonlinear_arith)
                        requires
                            fraction >= 1,
                    ;
                }
                lemma_pow2_unfold(e as nat);
                lemma_pow2_unfold((114 - e) as nat);
                let p = pow2((e - 1) as nat) as int;
                let q = pow2((113 - e) as nat) as int;
                assert(f * 0x2000 * (2 * p) == (2 * f) * 0x2000 * p) by (nonlinear_arith);
                assert(fraction * (2 * q) == 2 * (fraction * q)) by (nonlinear_arith);
            }
            f = f * 2;
            e = e - 1;
        }
        let r: u32 = sign * 0x8000_0000 + e * 0x80_0000 + (f - 0x400) * 0x2000;
        proof {
            assert(exp32(r) == e);
            assert(frac32(r) == (f - 0x400) * 0x2000);
            assert(0x80_0000 + frac32(r) == f * 0x2000);
        }
        return r;
    }
    let r: u32 = sign * 0x8000_0000 + (exponent + 112) * 0x80_0000 + fraction * 0x2000;
    proof {
        assert(exp32(r) == exponent + 112);
        assert(frac32(r) == fraction * 0x2000);
        lemma_pow2_adds((exponent + 112) as nat, 13);
        lemma2_to64();
        let p = pow2((exponent + 112) as nat) as int;
        assert((0x400 + fraction) * (p * 0x2000) == (0x80_0000 + fraction * 0x2000) * p)
            by (nonlinear_arith);
    }
    r
}

/// `n` by 2^`k`, rounded to the nearest, to the even one of two nearest.
fn divide_nearest(n: u32, k: u32) -> (r: u32)
    requires
        1 <= k <= 24,
        n < 0x100_0000,
    ensures
        r == nearest(n as int, k as nat),
        r <= n / 2 + 1,
{
    proof {
        lemma2_to64();
        vstd::bits::lemma_u32_pow2_no_overflow(k as nat);
        assert(1 * pow2(k as nat) == pow2(k as nat));
        vstd::bits::lemma_u32_shl_is_mul(1, k);
        if k < 24 {
            vstd::arithmetic::power2::lemma_pow2_strictly_increases(k as nat, 24);
        }
        if k > 1 {
            vstd::arithmetic::power2::lemma_pow2_strictly_increases(1, k as nat);
        }
    }
    let unit: u32 = 1u32 << k;
    let q: u32 = n / unit;
    let rest: u32 = n % unit;
    proof {
        vstd::arithmetic::div_mod::lemma_div_is_ordered_by_denominator(n as int, 2, unit as int);
    }
    if 2 * rest > unit || (2 * rest == unit && q % 2 == 1) {
        q + 1
    } else {
        q
    }
}

/// Rounding never misses by more than half a unit.
pub proof fn law_nearest(n: int, k: nat)
    requires
        n >= 0,
    ensures
        -(pow2(k) as int) <= 2 * (n - nearest(n, k) * pow2(k)) <= pow2(k),
{
    lemma_pow2_pos(k);
    let u = pow2(k) as int;
    vstd::arithmetic::div_mod::lemma_fundamental_div_mod(n, u);
    let q = n / u;
    assert((q + 1) * u == u * q + u) by (nonlinear_arith);
    assert(q * u == u * q) by (nonlinear_arith);
}

proof fn lemma_nearest_bound(n: int, k: nat)
    requires
        0 <= n < 0x100_0000,
        k >= 25,
    ensures
        nearest(n, k) == 0,
{
    lemma2_to64();
    if k > 25 {
        vstd::arithmetic::power2::lemma_pow2_strictly_increases(25, k);
    }
    vstd::arithmetic::div_mod::lemma_basic_div(n, pow2(k) as int);
    vstd::arithmetic::div_mod::lemma_small_mod(n as nat, pow2(k));
}

/// The half precision number nearest to the single precision number of those
/// bits.
pub fn f32_to_f16(bits: u32) -> (r: u16)
    ensures
        r == narrowed(bits),
{
    let sign: u32 = (bits / 0x8000_0000) * 0x8000;
    let exponent: u32 = (bits / 0x80_0000) % 0x100;
    let fraction: u32 = bits % 0x80_0000;
    if exponent == 255 {
        return (sign + if fraction == 0 {
            0x7c00
        } else {
            0x7e00
        }) as u16;
    }
    let whole: u32 = if exponent == 0 {
        fraction
    } else {
        0x80_0000 + fraction
    };
    if exponent >= 113 {
        let rounded: u32 = divide_nearest(whole, 13);
        let low: u32 = (exponent - 113) * 0x400 + rounded;
        (sign + if low > 0x7c00 {
            0x7c00
        } else {
            low
        }) as u16
    } else if exponent < 102 {
        proof {
            lemma_nearest_bound(whole as int, (126 - exponent) as nat);
        }
        sign as u16
    } else {
        let rounded: u32 = divide_nearest(whole, 126 - exponent);
        proof {
            lemma2_to64();
            vstd::arithmetic::power2::lemma_pow2_strictly_increases(13, (126 - exponent) as nat);
            vstd::arithmetic::div_mod::lemma_div_is_ordered_by_denominator(
                whole as int,
                0x2000,
                pow2((126 - exponent) as nat) as int,
            );
        }
        (sign + rounded) as u16
    }
}

/// The half precision bits that pack files are expanded with.
pub fn f32_to_f16_bits_fast(x: u32) -> (r: u16)
    ensures
        r == narrowed_fast(x),
{
    let sign: u32 = (x / 0x8000_0000) * 0x8000;
    let exp: u32 = (x / 0x80_0000) % 0x100;
    let mant: u32 = x % 0x80_0000;
    if exp == 255 {
        return (sign + 0x7c00 + if mant != 0 {
            0x200
        } else {
            0
        }) as u16;
    }
    if exp >= 143 {
        return (sign + 0x7c00) as u16;
    }
    if exp <= 112 {
        return sign as u16;
    }
    let e: u32 = exp - 112;
    let f: u32 = (mant + 0x1000) / 0x2000;
    (sign + e * 0x400 + f) as u16
}

/// The single precision bits of half precision bits of a pack file.
pub fn f16_bits_to_f32_fast(h: u16) -> (r: u32)
    ensures
        r == widened_fast(h),
{
    let sign: u32 = (h as u32 / 0x8000) * 0x8000_0000;
    let exp: u32 = (h as u32 / 0x400) % 0x20;
    let mant: u32 = h as u32 % 0x400;
    if exp == 0 {
        sign
    } else if exp == 31 {
        sign + 0x7f80_0000 + mant * 0x2000
    } else {
        sign + (exp + 112) * 0x80_0000 + mant * 0x2000
    }
}

/// Of numbers that are normal in half precision, the quick narrowing gives the
/// nearest one too; halfway between an even one and the next it gives the next.
pub proof fn law_fast_matches_normals(b: u32)
    requires
        112 < exp32(b) < 143,
    ensures
        narrowed_fast(b) == narrowed(b) + (if frac32(b) % 0x4000 == 0x1000 {
            1int
        } else {
            0
        }),
{
    lemma2_to64();
}

/// Two significands of the same length tell the exponents apart.
proof fn lemma_same_scale(a: int, e: nat, b: int, k: nat)
    requires
        0x80_0000 <= a < 0x100_0000,
        0x80_0000 <= b < 0x100_0000,
        a * pow2(e) == b * pow2(k),
    ensures
        e == k,
        a == b,
{
    if e < k {
        lemma_scale_apart(a, e, b, k);
    } else if k < e {
        lemma_scale_apart(b, k, a, e);
    } else {
        lemma_pow2_pos(e);
        let p = pow2(e) as int;
        assert(a == b) by (nonlinear_arith)
            requires
                a * p == b * p,
                p > 0,
        ;
    }
}

proof fn lemma_scale_apart(a: int, e: nat, b: int, k: nat)
    requires
        0x80_0000 <= a < 0x100_0000,
        0x80_0000 <= b < 0x100_0000,
        e < k,
    ensures
        a * pow2(e) < b * pow2(k),
{
    lemma_pow2_unfold(e + 1);
    if e + 1 < k {
        vstd::arithmetic::power2::lemma_pow2_strictly_increases(e + 1, k);
    }
    lemma_pow2_pos(e);
    let p = pow2(e) as int;
    let q = pow2(k) as int;
    assert(a * p < b * q) by (nonlinear_arith)
        requires
            p > 0,
            q >= 2 * p,
            0x80_0000 <= a < 0x100_0000,
            0x80_0000 <= b < 0x100_0000,
    ;
}

/// A quotient without a rest is not rounded.
proof fn lemma_nearest_exact(n: int, k: nat)
    requires
        n >= 0,
    ensures
        nearest(n * pow2(k), k) == n,
{
    lemma_pow2_pos(k);
    vstd::arithmetic::div_mod::lemma_div_by_multiple(n, pow2(k) as int);
    vstd::arithmetic::div_mod::lemma_mod_multiples_basic(n, pow2(k) as int);
}

/// A half precision number that is widened and narrowed again is the number
/// it was, unless it is none.
pub proof fn law_half_round_trip(h: u16, r: u32)
    requires
        widens(h, r),
        !(exp16(h) == 31 && frac16(h) != 0),
    ensures
        narrowed(r) == h,
{
    lemma2_to64();
    if exp16(h) == 31 {
        assert(exp32(r) == 255 && frac32(r) == 0);
    } else if exp16(h) == 0 {
        lemma_round_trip_small(h, r);
    } else {
        let k = (exp16(h) + 112) as nat;
        let b = (0x400 + frac16(h)) * 0x2000;
        lemma_pow2_adds(k, 13);
        let p = pow2(k) as int;
        assert((0x400 + frac16(h)) * (p * 0x2000) == b * p) by (nonlinear_arith)
            requires
                b == (0x400 + frac16(h)) * 0x2000,
        ;
        if exp32(r) == 0 {
            lemma_pow2_pos(k);
            assert(p >= 0x100_0000) by {
                if k > 24 {
                    vstd::arithmetic::power2::lemma_pow2_strictly_increases(24, k);
                }
            }
            assert(b * p >= 0x80_0000 * 0x100_0000) by (nonlinear_arith)
                requires
                    b >= 0x80_0000,
                    p >= 0x100_0000,
            ;
        }
        lemma_same_scale(significand32(r), exp32(r) as nat, b, k);
        lemma_nearest_exact(0x400 + frac16(h), 13);
    }
}

proof fn lemma_round_trip_small(h: u16, r: u32)
    requires
        widens(h, r),
        exp16(h) == 0,
    ensures
        narrowed(r) == h,
{
    lemma2_to64();
    let f = frac16(h);
    let e = exp32(r);
    let p126 = pow2(126) as int;
    vstd::arithmetic::power2::lemma_pow2_strictly_increases(64, 126);
    if f == 0 {
        assert(0 * p126 == 0);
        if e != 0 {
            lemma_pow2_pos(e as nat);
            let pe = pow2(e as nat) as int;
            assert(significand32(r) * pe > 0) by (nonlinear_arith)
                requires
                    significand32(r) > 0,
                    pe > 0,
            ;
        }
        assert(significand32(r) == 0);
        lemma_nearest_bound(0, 126);
    } else {
        assert(f * p126 >= p126) by (nonlinear_arith)
            requires
                f >= 1,
                p126 > 0,
        ;
        assert(e != 0);
        let s = significand32(r);
        let pe = pow2(e as nat) as int;
        lemma_pow2_pos(e as nat);
        // The exponent lies between the two ends of the small numbers.
        if e >= 113 {
            if e > 113 {
                vstd::arithmetic::power2::lemma_pow2_strictly_increases(113, e as nat);
            }
            lemma_pow2_adds(113, 13);
            let p113 = pow2(113) as int;
            assert(f * (p113 * 0x2000) < s * pe) by (nonlinear_arith)
                requires
                    f < 0x400,
                    p113 > 0,
                    pe >= p113,
                    s >= 0x80_0000,
            ;
        }
        if e <= 102 {
            if e < 102 {
                vstd::arithmetic::power2::lemma_pow2_strictly_increases(e as nat, 102);
            }
            lemma_pow2_adds(102, 24);
            let p102 = pow2(102) as int;
            assert(s * pe < f * (p102 * 0x100_0000)) by (nonlinear_arith)
                requires
                    f >= 1,
                    p102 > 0,
                    0 < pe <= p102,
                    0 < s < 0x100_0000,
            ;
        }
        let k = (126 - e) as nat;
        lemma_pow2_adds(e as nat, k);
        let pk = pow2(k) as int;
        assert(s == f * pk) by (nonlinear_arith)
            requires
                s * pe == f * (pe * pk),
                pe > 0,
        ;
        lemma_nearest_exact(f, k);
    }
}

/// Single precision numbers grow with their bits, by steps that double with the
/// exponent; the sign does not change the size, and zero has none.
pub proof fn law_size_steps(b: u32)
    requires
        b < 0x7f7f_ffff,
    ensures
        size32(0) == 0,
        size32((b + 0x8000_0000) as u32) == size32(b),
        size32((b + 1) as u32) - size32(b) == pow2(
            if exp32(b) == 0 {
                1
            } else {
                exp32(b) as nat
            },
        ),
        b as int == exp32(b) * 0x80_0000 + frac32(b),
        0 <= frac32(b) < 0x80_0000,
{
    lemma2_to64();
    let e = exp32(b);
    let c = (b + 1) as u32;
    if frac32(b) == 0x7f_ffff {
        assert(frac32(c) == 0 && exp32(c) == e + 1);
        if e == 0 {
            assert(pow2(1) == 2);
        } else {
            vstd::arithmetic::power2::lemma_pow2_unfold((e + 1) as nat);
            assert(0x80_0000 * (2 * pow2(e as nat)) - 0xff_ffff * pow2(e as nat) == pow2(e as nat))
                by (nonlinear_arith);
        }
    } else {
        assert(frac32(c) == frac32(b) + 1 && exp32(c) == e);
        let f = frac32(b);
        let p = pow2(e as nat) as int;
        assert((0x80_0000 + (f + 1)) * p - (0x80_0000 + f) * p == p) by (nonlinear_arith);
    }
}

/// Half precision numbers grow with their bits in the same way.
pub proof fn law_half_size_steps(h: u16)
    requires
        h < 0x7bff,
    ensures
        size16(0) == 0,
        size16((h + 0x8000) as u16) == size16(h),
        size16((h + 1) as u16) - size16(h) == pow2(
            if exp16(h) == 0 {
                126
            } else {
                (exp16(h) + 125) as nat
            },
        ),
        h as int == exp16(h) * 0x400 + frac16(h),
        0 <= frac16(h) < 0x400,
{
    let e = exp16(h);
    let g = (h + 1) as u16;
    assert(0 * pow2(126) == 0) by (nonlinear_arith);
    let other = (h + 0x8000) as u16;
    assert(exp16(other) == e && frac16(other) == frac16(h));
    let f = frac16(h);
    if f == 0x3ff {
        assert(frac16(g) == 0 && exp16(g) == e + 1);
        let p = pow2(
            if e == 0 {
                126
            } else {
                (e + 125) as nat
            },
        ) as int;
        if e == 0 {
            assert(0x400 * p - 0x3ff * p == p) by (nonlinear_arith);
        } else {
            vstd::arithmetic::power2::lemma_pow2_unfold((e + 126) as nat);
            assert(0x400 * (2 * p) - 0x7ff * p == p) by (nonlinear_arith);
        }
    } else {
        assert(frac16(g) == f + 1 && exp16(g) == e);
        let p = pow2(
            if e == 0 {
                126
            } else {
                (e + 125) as nat
            },
        ) as int;
        assert((0x400 + (f + 1)) * p - (0x400 + f) * p == p) by (nonlinear_arith);
        assert((f + 1) * p - f * p == p) by (nonlinear_arith);
    }
}

/// A quotient that lies in the middle of two whole numbers becomes the even one.
pub proof fn law_nearest_ties(n: int, k: nat)
    requires
        n >= 0,
        2 * (n % pow2(k) as int) == pow2(k),
    ensures
        nearest(n, k) % 2 == 0,
{
}

/// What narrowing gives: a number of the common range lies within half a step of the
/// wide one, larger ones become infinity, and what is no number stays none. The sign
/// stays.
pub proof fn law_narrowed_is_near(b: u32)
    ensures
        ({
            let low = narrowed(b) - sign32(b) * 0x8000;
            let wide = b as int - sign32(b) * 0x8000_0000;
            &&& 0 <= low < 0x8000
            &&& 113 <= exp32(b) <= 142 && low < 0x7c00 ==> -0x1000 <= low * 0x2000 + 112 * 0x80_0000
                - wide <= 0x1000
            &&& 143 <= exp32(b) <= 254 ==> low == 0x7c00
            &&& exp32(b) == 255 && frac32(b) == 0 ==> low == 0x7c00
            &&& exp32(b) == 255 && frac32(b) != 0 ==> low > 0x7c00
            &&& exp32(b) < 102 ==> low == 0
        }),
{
    lemma2_to64();
    let e = exp32(b) - 112;
    let n = significand32(b);
    if exp32(b) < 255 {
        if e >= 1 {
            law_nearest(n, 13);
            assert(pow2(13) == 0x2000);
        } else {
            let k = (14 - e) as nat;
            law_nearest(n, k);
            vstd::arithmetic::power2::lemma_pow2_pos(k);
            vstd::arithmetic::div_mod::lemma_div_pos_is_pos(n, pow2(k) as int);
            if exp32(b) < 102 {
                lemma_nearest_bound(n, k);
            } else {
                assert(pow2(14) == 0x4000);
                if k > 14 {
                    vstd::arithmetic::power2::lemma_pow2_strictly_increases(14, k);
                }
                vstd::arithmetic::div_mod::lemma_div_is_ordered_by_denominator(
                    n,
                    0x4000,
                    pow2(k) as int,
                );
            }
        }
    }
}

/// The quick ways: widening is exact on normal numbers, and small ones become zero of
/// the same sign; narrowing gives zero below the normal numbers and infinity above.
pub proof fn law_quick_ways(h: u16, b: u32)
    ensures
        1 <= exp16(h) <= 30 ==> widens(h, widened_fast(h) as u32),
        exp16(h) == 0 ==> widened_fast(h) == sign16(h) * 0x8000_0000,
        exp32(b) <= 112 ==> narrowed_fast(b) == sign32(b) * 0x8000,
        143 <= exp32(b) <= 254 ==> narrowed_fast(b) == sign32(b) * 0x8000 + 0x7c00,
{
    if 1 <= exp16(h) <= 30 {
        let r = widened_fast(h);
        let e = exp16(h);
        let f = frac16(h);
        assert(0 <= sign16(h) <= 1);
        assert(r == sign16(h) * 0x8000_0000 + (e + 112) * 0x80_0000 + f * 0x2000);
        assert(0 <= r < 0x1_0000_0000);
        let w = r as u32;
        assert(exp32(w) == e + 112);
        assert(frac32(w) == f * 0x2000);
        assert(sign32(w) == sign16(h));
        vstd::arithmetic::power2::lemma_pow2_adds((e + 112) as nat, 13);
        lemma2_to64();
        let p = pow2((e + 112) as nat) as int;
        assert((0x80_0000 + f * 0x2000) * p == (0x400 + f) * (p * 0x2000)) by (nonlinear_arith);
    }
}

} // verus!
