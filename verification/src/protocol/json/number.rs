use vstd::prelude::*;

use crate::util::text::{decimal, push_char, push_decimal};

verus! {

/// Two to the power `e`.
pub open spec fn p2(e: nat) -> nat
    decreases e,
{
    if e == 0 {
        1
    } else {
        2 * p2((e - 1) as nat)
    }
}

/// Ten to the power `k`.
pub open spec fn p10(k: nat) -> nat
    decreases k,
{
    if k == 0 {
        1
    } else {
        10 * p10((k - 1) as nat)
    }
}

/// The number of binary digits of `n`.
pub open spec fn bitlen(n: nat) -> nat
    decreases n,
{
    if n == 0 {
        0
    } else {
        1 + bitlen(n / 2)
    }
}

/// The double-precision number nearest to `n`, ties going to the even
/// significand.
pub open spec fn round53(n: nat) -> nat {
    if bitlen(n) <= 53 {
        n
    } else {
        let e = (bitlen(n) - 53) as nat;
        let q = n / p2(e);
        let r = n % p2(e);
        let h = p2((e - 1) as nat);
        let q2 = if r > h || (r == h && q % 2 == 1) {
            q + 1
        } else {
            q
        };
        q2 * p2(e)
    }
}

/// For a double `v` above 2^53: how far below and above it the numbers
/// still read back as `v` reach, and whether the ends count (they do when
/// the significand is even).
pub open spec fn read_back_range(v: nat) -> (nat, nat, bool) {
    let e = (bitlen(v) - 53) as nat;
    let m = v / p2(e);
    if m == p2(52) && e >= 2 {
        (p2((e - 2) as nat), p2((e - 1) as nat), true)
    } else {
        (p2((e - 1) as nat), p2((e - 1) as nat), m % 2 == 0)
    }
}

/// `t` followed by `k` zeros reads back as the double `v`.
pub open spec fn reads_back(v: nat, k: nat, t: nat) -> bool {
    let (lo, hi, incl) = read_back_range(v);
    let x = t * p10(k);
    t >= 1 && if incl {
        v - lo <= x <= v + hi
    } else {
        v - lo < x < v + hi
    }
}

/// The digits, with `k` zeros to follow, nearest to `v` that read back as
/// `v`, if any: the multiples of 10^k next to `v`, the nearer one when both
/// read back, the upper one on a tie.
pub open spec fn digits_at(v: nat, k: nat) -> Option<nat> {
    let d = v / p10(k);
    let u = d + 1;
    let fd = reads_back(v, k, d);
    let fu = reads_back(v, k, u);
    if fd && fu {
        if v - d * p10(k) < u * p10(k) - v {
            Some(d)
        } else {
            Some(u)
        }
    } else if fd {
        Some(d)
    } else if fu {
        Some(u)
    } else {
        None
    }
}

/// The shortest digits that read back as `v`, trying `k` zeros and fewer.
pub open spec fn shortest_from(v: nat, k: nat) -> (nat, nat)
    decreases k,
{
    match digits_at(v, k) {
        Some(t) => (t, k),
        None => if k == 0 {
            (v, 0)
        } else {
            shortest_from(v, (k - 1) as nat)
        },
    }
}

/// `k` zeros.
pub open spec fn zeros(k: nat) -> Seq<char> {
    Seq::new(k, |i: int| '0')
}

/// How a whole number prints once turned into a double: the shortest
/// digits that read back as the double, padded with zeros; exactly the
/// number up to 2^53.
pub open spec fn display_number(n: nat) -> Seq<char> {
    let v = round53(n);
    if v <= p2(53) {
        decimal(v)
    } else {
        let (t, k) = shortest_from(v, 20);
        decimal(t) + zeros(k)
    }
}

proof fn lemma_p2_add(a: nat, b: nat)
    ensures
        p2(a + b) == p2(a) * p2(b),
    decreases b,
{
    if b > 0 {
        lemma_p2_add(a, (b - 1) as nat);
        assert(p2(a + b) == 2 * p2((a + b - 1) as nat));
        assert(p2(a) * p2(b) == p2(a) * (2 * p2((b - 1) as nat)));
        assert(p2(a) * (2 * p2((b - 1) as nat)) == 2 * (p2(a) * p2((b - 1) as nat))) by (nonlinear_arith);
    } else {
        assert(p2(0) == 1);
        assert(p2(a) * 1 == p2(a));
    }
}

proof fn lemma_p2_pos(a: nat)
    ensures
        p2(a) >= 1,
    decreases a,
{
    if a > 0 {
        lemma_p2_pos((a - 1) as nat);
    }
}

proof fn lemma_p2_mono(a: nat, b: nat)
    requires
        a <= b,
    ensures
        p2(a) <= p2(b),
    decreases b,
{
    lemma_p2_pos(b);
    if a < b {
        lemma_p2_mono(a, (b - 1) as nat);
    }
}

proof fn lemma_p10_pos(k: nat)
    ensures
        p10(k) >= 1,
    decreases k,
{
    if k > 0 {
        lemma_p10_pos((k - 1) as nat);
    }
}

/// `n` lies between the powers of two that its bit length names.
proof fn lemma_bitlen(n: nat)
    requires
        n >= 1,
    ensures
        p2((bitlen(n) - 1) as nat) <= n < p2(bitlen(n)),
        bitlen(n) >= 1,
    decreases n,
{
    if n >= 2 {
        lemma_bitlen(n / 2);
        let x = bitlen(n / 2);
        assert(bitlen(n) == 1 + x);
        assert(p2(x) == 2 * p2((x - 1) as nat));
        assert(p2((x + 1) as nat) == 2 * p2(x));
    } else {
        assert(bitlen(0) == 0);
        assert(bitlen(1) == 1);
        assert(p2(1) == 2 * p2(0));
    }
}

/// A number below 2^b has at most b bits.
proof fn lemma_bitlen_bound(n: nat, b: nat)
    requires
        n < p2(b),
    ensures
        bitlen(n) <= b,
    decreases n,
{
    if n >= 1 {
        lemma_bitlen(n);
        if bitlen(n) > b {
            lemma_p2_mono(b, (bitlen(n) - 1) as nat);
        }
    }
}

/// The number of binary digits of `n`.
fn bit_length(n: u64) -> (r: u32)
    ensures
        r == bitlen(n as nat),
        r <= 64,
{
    let mut x = n;
    let mut c: u32 = 0;
    proof {
        lemma_p2_64();
        lemma_bitlen_bound(n as nat, 64);
    }
    while x > 0
        invariant
            bitlen(n as nat) == c + bitlen(x as nat),
            bitlen(n as nat) <= 64,
        decreases x,
    {
        x = x / 2;
        c = c + 1;
    }
    c
}

/// Two to the power `e`.
fn pow2(e: u32) -> (r: u128)
    requires
        e < 128,
    ensures
        r == p2(e as nat),
{
    let mut r: u128 = 1;
    let mut i: u32 = 0;
    while i < e
        invariant
            i <= e,
            e < 128,
            r == p2(i as nat),
        decreases e - i,
    {
        proof {
            lemma_p2_mono((i + 1) as nat, 127);
            lemma_p2_127();
        }
        r = r * 2;
        i = i + 1;
    }
    r
}

/// Ten to the power `k`.
fn pow10(k: u32) -> (r: u128)
    requires
        k <= 20,
    ensures
        r == p10(k as nat),
{
    let mut r: u128 = 1;
    let mut i: u32 = 0;
    while i < k
        invariant
            i <= k,
            k <= 20,
            r == p10(i as nat),
            r <= 100_000_000_000_000_000_000,
        decreases k - i,
    {
        proof {
            lemma_p10_le(i as nat + 1, 20);
            lemma_p10_20();
        }
        r = r * 10;
        i = i + 1;
    }
    r
}

proof fn lemma_p10_le(a: nat, b: nat)
    requires
        a <= b,
    ensures
        p10(a) <= p10(b),
    decreases b,
{
    lemma_p10_pos(b);
    if a < b {
        lemma_p10_le(a, (b - 1) as nat);
    }
}

proof fn lemma_p2_16()
    ensures
        p2(16) == 0x1_0000,
{
    reveal_with_fuel(p2, 17);
}

proof fn lemma_p2_64()
    ensures
        p2(64) == 0x1_0000_0000_0000_0000,
        p2(32) == 0x1_0000_0000,
{
    lemma_p2_16();
    lemma_p2_add(16, 16);
    assert(p2(32) == 0x1_0000 * 0x1_0000);
    lemma_p2_add(32, 32);
    assert(p2(64) == 0x1_0000_0000 * 0x1_0000_0000);
}

proof fn lemma_p2_127()
    ensures
        p2(127) == 0x8000_0000_0000_0000_0000_0000_0000_0000,
{
    lemma_p2_64();
    lemma_p2_add(64, 32);
    lemma_p2_add(96, 16);
    lemma_p2_add(112, 15);
    reveal_with_fuel(p2, 16);
}

proof fn lemma_p10_20()
    ensures
        p10(20) == 100_000_000_000_000_000_000,
{
    reveal_with_fuel(p10, 21);
}

/// The number of binary digits of `n`.
fn bit_length128(n: u128) -> (r: u32)
    ensures
        r == bitlen(n as nat),
        r <= 128,
{
    let mut x = n;
    let mut c: u32 = 0;
    proof {
        lemma_p2_127();
        lemma_bitlen_bound(n as nat, 128);
    }
    while x > 0
        invariant
            bitlen(n as nat) == c + bitlen(x as nat),
            bitlen(n as nat) <= 128,
        decreases x,
    {
        x = x / 2;
        c = c + 1;
    }
    c
}

/// The double nearest to `n`, ties to even.
fn round_to_double(n: u64) -> (r: u128)
    ensures
        r == round53(n as nat),
        r <= p2(64),
{
    proof {
        lemma_p2_64();
    }
    let bl = bit_length(n);
    if bl <= 53 {
        proof {
            lemma_p2_mono(53, 64);
        }
        return n as u128;
    }
    let e = bl - 53;
    let p = pow2(e);
    let h = pow2(e - 1);
    let nn = n as u128;
    proof {
        lemma_p2_pos(e as nat);
    }
    let q = nn / p;
    let r = nn % p;
    proof {
        lemma_bitlen(n as nat);
        lemma_p2_add(53, e as nat);
        assert(nn < p2(53) * p);
        assert(q < p2(53)) by (nonlinear_arith)
            requires
                nn < p2(53) * p,
                p > 0,
                q == nn / p,
        ;
        lemma_p2_mono(bl as nat, 64);
    }
    let q2 = if r > h || (r == h && q % 2 == 1) {
        q + 1
    } else {
        q
    };
    proof {
        assert(q2 * p <= p2(53) * p) by (nonlinear_arith)
            requires
                q2 <= p2(53),
                p > 0,
        ;
    }
    q2 * p
}

/// `t` followed by `k` zeros reads back as `v`, given its range.
fn reads_back_exec(v: u128, p10k: u128, t: u128, lo: u128, hi: u128, incl: bool) -> (r: bool)
    requires
        lo <= v,
        v + hi <= u128::MAX,
        t * p10k <= u128::MAX,
    ensures
        r == (t >= 1 && if incl {
            v - lo <= t * p10k <= v + hi
        } else {
            v - lo < t * p10k < v + hi
        }),
{
    let x = t * p10k;
    t >= 1 && if incl {
        v - lo <= x && x <= v + hi
    } else {
        v - lo < x && x < v + hi
    }
}

/// The length of a text, counted up to two.
pub open spec fn len_up_to_2(s: Seq<char>) -> nat {
    if s.len() >= 2 {
        2
    } else {
        s.len()
    }
}

/// The decimal notation has at least two digits from ten on.
pub proof fn lemma_decimal_len(n: nat)
    ensures
        decimal(n).len() >= 1,
        n >= 10 ==> decimal(n).len() >= 2,
        n < 10 ==> decimal(n).len() == 1,
    decreases n,
{
    if n >= 10 {
        lemma_decimal_len(n / 10);
    }
}

/// Appends how a whole number prints once turned into a double; gives how
/// many characters that is, counted up to two.
pub fn push_number(s: &mut String, n: u64) -> (r: u8)
    ensures
        final(s)@ == old(s)@ + display_number(n as nat),
        r == len_up_to_2(display_number(n as nat)),
        r >= 1,
{
    let v = round_to_double(n);
    proof {
        lemma_p2_64();
        lemma_p2_53();
    }
    if v <= 0x20_0000_0000_0000 {
        push_decimal(s, v);
        proof {
            lemma_decimal_len(v as nat);
        }
        return if v >= 10 {
            2
        } else {
            1
        };
    }
    let bl = bit_length128(v);
    proof {
        lemma_bitlen(v as nat);
        lemma_bitlen_bound(v as nat, 65);
        assert(p2(65) == 2 * p2(64));
        if bitlen(v as nat) < 54 {
            lemma_p2_mono((bitlen(v as nat)) as nat, 53);
        }
    }
    let e = bl - 53;
    let pe = pow2(e);
    proof {
        lemma_p2_pos(e as nat);
    }
    let m = v / pe;
    let (lo, hi, incl) = if m == 0x10_0000_0000_0000 && e >= 2 {
        (pow2(e - 2), pow2(e - 1), true)
    } else {
        (pow2(e - 1), pow2(e - 1), m % 2 == 0)
    };
    proof {
        lemma_p2_mono((e - 1) as nat, 12);
        if e >= 2 {
            lemma_p2_mono((e - 2) as nat, 12);
        }
        assert(p2(12) == 4096) by {
            reveal_with_fuel(p2, 13);
        }
        assert((lo as nat, hi as nat, incl) == read_back_range(v as nat));
    }
    let mut k: u32 = 20;
    loop
        invariant
            k <= 20,
            v <= 0x1_0000_0000_0000_0000,
            v > 0x20_0000_0000_0000,
            (lo as nat, hi as nat, incl) == read_back_range(v as nat),
            lo <= 4096,
            hi <= 4096,
            s@ == old(s)@,
            v == round53(n as nat),
            p2(53) == 0x20_0000_0000_0000,
            shortest_from(v as nat, 20) == shortest_from(v as nat, k as nat),
        decreases k,
    {
        let pk = pow10(k);
        proof {
            lemma_p10_pos(k as nat);
            lemma_p10_le(k as nat, 20);
            lemma_p10_20();
        }
        let d = v / pk;
        let u = d + 1;
        proof {
            assert(d * pk <= v) by (nonlinear_arith)
                requires
                    d == v / pk,
                    pk > 0,
            ;
            assert(u * pk <= v + pk && u * pk > v) by (nonlinear_arith)
                requires
                    d == v / pk,
                    u == d + 1,
                    pk > 0,
            ;
        }
        let fd = reads_back_exec(v, pk, d, lo, hi, incl);
        let fu = reads_back_exec(v, pk, u, lo, hi, incl);
        let found = if fd && fu {
            if v - d * pk < u * pk - v {
                Some(d)
            } else {
                Some(u)
            }
        } else if fd {
            Some(d)
        } else if fu {
            Some(u)
        } else {
            None
        };
        assert(found == match digits_at(v as nat, k as nat) {
            Some(t) => Some(t as u128),
            None => None::<u128>,
        });
        match found {
            Some(t) => {
                assert(shortest_from(v as nat, k as nat) == (t as nat, k as nat));
                push_decimal(s, t);
                let ghost mid = s@;
                let mut z: u32 = 0;
                while z < k
                    invariant
                        z <= k,
                        s@ == mid + zeros(z as nat),
                    decreases k - z,
                {
                    push_char(s, '0');
                    z = z + 1;
                    assert(s@ =~= mid + zeros(z as nat));
                }
                assert(s@ =~= old(s)@ + (decimal(t as nat) + zeros(k as nat)));
                proof {
                    lemma_decimal_len(t as nat);
                }
                return if t >= 10 || k >= 1 {
                    2
                } else {
                    1
                };
            },
            None => {
                if k == 0 {
                    push_decimal(s, v);
                    proof {
                        lemma_decimal_len(v as nat);
                    }
                    return 2;
                }
                k = k - 1;
            },
        }
    }
}

proof fn lemma_p2_53()
    ensures
        p2(53) == 0x20_0000_0000_0000,
        p2(52) == 0x10_0000_0000_0000,
{
    lemma_p2_64();
    assert(p2(21) == 0x20_0000 && p2(20) == 0x10_0000) by {
        reveal_with_fuel(p2, 22);
    }
    lemma_p2_add(32, 21);
    lemma_p2_add(32, 20);
    assert(p2(53) == 0x1_0000_0000 * 0x20_0000);
    assert(p2(52) == 0x1_0000_0000 * 0x10_0000);
}

/// Up to 2^53 a whole number prints exactly as its decimal notation.
pub proof fn lemma_display_exact(n: nat)
    requires
        n < 0x20_0000_0000_0000,
    ensures
        display_number(n) == decimal(n),
{
    lemma_p2_53();
    lemma_bitlen_bound(n, 53);
}

} // verus!
