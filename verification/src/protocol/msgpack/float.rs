use vstd::prelude::*;

verus! {

/// 2 to the power `n`.
pub open spec fn two_pow(n: nat) -> nat
    decreases n,
{
    if n == 0 {
        1
    } else {
        2 * two_pow((n - 1) as nat)
    }
}

/// The position of the highest set bit of a positive number.
pub open spec fn log2_floor(m: nat) -> nat
    decreases m,
{
    if m < 2 {
        0
    } else {
        1 + log2_floor(m / 2)
    }
}

/// The double-precision bit pattern of the single-precision number with bit
/// pattern `bits`: the exact same number (a NaN stays a quiet NaN with its
/// payload kept in the high mantissa bits and its quiet bit set).
pub open spec fn widen_f32_bits(bits: u32) -> u64 {
    let sign = bits as int / 0x8000_0000;
    let exp = (bits as int / 0x80_0000) % 0x100;
    let man = bits as int % 0x80_0000;
    let high = sign * 0x8000_0000_0000_0000;
    let value: int = if exp == 0xff {
        if man == 0 {
            0x7ff * 0x10_0000_0000_0000int
        } else {
            let quiet = if man >= 0x40_0000 { man } else { man + 0x40_0000 };
            0x7ff * 0x10_0000_0000_0000int + quiet * 0x2000_0000
        }
    } else if exp == 0 {
        if man == 0 {
            0int
        } else {
            let k = log2_floor(man as nat);
            (k + 874) * 0x10_0000_0000_0000 + (man - two_pow(k)) * two_pow((52 - k) as nat)
        }
    } else {
        (exp + 896) * 0x10_0000_0000_0000 + man * 0x2000_0000
    };
    (high + value) as u64
}

proof fn lemma_two_pow_positive(n: nat)
    ensures
        two_pow(n) >= 1,
    decreases n,
{
    if n > 0 {
        lemma_two_pow_positive((n - 1) as nat);
    }
}

proof fn lemma_two_pow_monotone(a: nat, b: nat)
    requires
        a <= b,
    ensures
        two_pow(a) <= two_pow(b),
        two_pow(a) >= 1,
    decreases b,
{
    lemma_two_pow_positive(a);
    if b > 0 {
        if a < b {
            lemma_two_pow_monotone(a, (b - 1) as nat);
        }
    }
}

proof fn lemma_log2_floor(m: nat, k: nat)
    requires
        two_pow(k) <= m < 2 * two_pow(k),
    ensures
        log2_floor(m) == k,
    decreases k,
{
    lemma_two_pow_monotone(0, k);
    if k == 0 {
    } else {
        assert(two_pow(k) == 2 * two_pow((k - 1) as nat));
        assert(two_pow((k - 1) as nat) <= m / 2 < 2 * two_pow((k - 1) as nat));
        lemma_log2_floor(m / 2, (k - 1) as nat);
    }
}

/// Converts a single-precision bit pattern to the double-precision bit
/// pattern of the same number.
pub fn widen_f32(bits: u32) -> (r: u64)
    ensures
        r == widen_f32_bits(bits),
{
    let sign = (bits / 0x8000_0000) as u64;
    let exp = ((bits / 0x80_0000) % 0x100) as u64;
    let man = (bits % 0x80_0000) as u64;
    let high = sign * 0x8000_0000_0000_0000u64;
    let value: u64 = if exp == 0xff {
        if man == 0 {
            0x7ff * 0x10_0000_0000_0000u64
        } else {
            let quiet = if man >= 0x40_0000 { man } else { man + 0x40_0000 };
            0x7ff * 0x10_0000_0000_0000u64 + quiet * 0x2000_0000u64
        }
    } else if exp == 0 {
        if man == 0 {
            0
        } else {
            let mut k: u64 = 0;
            let mut p: u64 = 1;
            while p * 2 <= man
                invariant
                    1 <= p <= man < 0x80_0000,
                    p == two_pow(k as nat),
                    k <= 22,
                decreases man - p,
            {
                proof {
                    if k >= 22 {
                        lemma_two_pow_monotone(22, k as nat);
                        lemma_two_pow_constants();
                        assert(false);
                    }
                    assert(two_pow((k + 1) as nat) == 2 * two_pow(k as nat));
                }
                p = p * 2;
                k = k + 1;
            }
            proof {
                lemma_log2_floor(man as nat, k as nat);
            }
            proof {
                lemma_two_pow_constants();
                lemma_two_pow_monotone(0, (52 - k) as nat);
                lemma_two_pow_monotone((52 - k) as nat, 52);
            }
            let mut q: u64 = 1;
            let mut j: u64 = 0;
            while j < 52 - k
                invariant
                    k <= 22,
                    j <= 52 - k,
                    q == two_pow(j as nat),
                    q <= two_pow((52 - k) as nat),
                    two_pow((52 - k) as nat) <= 0x10_0000_0000_0000,
                decreases 52 - k - j,
            {
                proof {
                    assert(two_pow((j + 1) as nat) == 2 * two_pow(j as nat));
                    lemma_two_pow_monotone((j + 1) as nat, (52 - k) as nat);
                }
                q = q * 2;
                j = j + 1;
            }
            proof {
                lemma_two_pow_constants();
                lemma_two_pow_monotone((52 - k) as nat, 52);
                assert((man - p) * q < p * q) by (nonlinear_arith)
                    requires
                        man - p < p,
                        q >= 1,
                ;
                assert(p * q == two_pow(52)) by {
                    lemma_two_pow_add(k as nat, (52 - k) as nat);
                }
            }
            assert(man - p < p);
            assert((man - p) * q < 0x10_0000_0000_0000);
            (k + 874) * 0x10_0000_0000_0000u64 + (man - p) * q
        }
    } else {
        assert(exp < 0xff);
        (exp + 896) * 0x10_0000_0000_0000u64 + man * 0x2000_0000u64
    };
    assert(value < 0x8000_0000_0000_0000);
    assert(sign <= 1);
    high + value
}

proof fn lemma_two_pow_constants()
    ensures
        two_pow(22) == 0x40_0000,
        two_pow(52) == 0x10_0000_0000_0000,
{
    reveal_with_fuel(two_pow, 53);
}

proof fn lemma_two_pow_add(a: nat, b: nat)
    ensures
        two_pow(a) * two_pow(b) == two_pow(a + b),
    decreases a,
{
    if a > 0 {
        lemma_two_pow_add((a - 1) as nat, b);
        assert(two_pow(a + b) == 2 * two_pow((a - 1 + b) as nat));
        assert(two_pow(a) * two_pow(b) == 2 * (two_pow((a - 1) as nat) * two_pow(b))) by (nonlinear_arith)
            requires
                two_pow(a) == 2 * two_pow((a - 1) as nat),
        ;
    } else {
        assert(two_pow(a) == 1);
    }
}

} // verus!
