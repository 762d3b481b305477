//! Binary64 arithmetic on numbers that are not negative, exact to the last bit.
//!
//! Sizes and times are rounded as an IEEE 754 double rounds them: to the
//! nearest number with a 53-bit mantissa, a tie to the even one.

use vstd::arithmetic::power2::{
    lemma2_to64, lemma_pow2_adds, lemma_pow2_pos, lemma_pow2_strictly_increases, lemma_pow2_unfold, pow2,
};
use vstd::prelude::*;

verus! {

/// A binary64 number `m * 2^e`: zero, or with a full 53-bit mantissa.
pub struct Bin64 {
    pub m: nat,
    pub e: int,
}

/// `2^52`, the least full mantissa.
pub const MANT_MIN: u64 = 0x10_0000_0000_0000;

/// `2^53`, one above the greatest full mantissa.
pub const MANT_END: u64 = 0x20_0000_0000_0000;

/// Nanoseconds in a second.
pub const NS_PER_SEC: u64 = 1_000_000_000;

/// The least integer to which `2^64` is the nearest binary64 number.
pub const ROUNDS_TO_2_64: u64 = 0xffff_ffff_ffff_fc00;

/// `a / b` to the nearest integer, a tie to the even one.
pub open spec fn round_div(a: nat, b: nat) -> nat {
    let q = a / b;
    let r = a % b;
    if 2 * r > b || (2 * r == b && q % 2 == 1) {
        q + 1
    } else {
        q
    }
}

/// `m * 2^e` for a rounded mantissa, which may have reached `2^53`.
pub open spec fn carried(m: nat, e: int) -> Bin64 {
    if m == MANT_END {
        Bin64 { m: MANT_MIN as nat, e: e + 1 }
    } else {
        Bin64 { m, e }
    }
}

/// `m * 2^e` with the mantissa doubled until it is full.
pub open spec fn filled(m: nat, e: int) -> Bin64
    decreases MANT_END - m,
{
    if m == 0 || m >= MANT_MIN {
        Bin64 { m, e }
    } else {
        filled(2 * m, e - 1)
    }
}

/// By how many bits `n` is longer than a mantissa.
pub open spec fn excess_bits(n: nat) -> nat
    decreases n,
{
    if n < MANT_END {
        0
    } else {
        1 + excess_bits(n / 2)
    }
}

/// The binary64 number nearest to the integer `n`.
pub open spec fn bin64_of(n: nat) -> Bin64 {
    if n < MANT_END {
        filled(n, 0)
    } else {
        let k = excess_bits(n);
        carried(round_div(n, pow2(k)), k as int)
    }
}

/// The binary64 sum of `x` and `y`, of which `y` has the smaller exponent.
pub open spec fn bin64_sum(x: Bin64, y: Bin64) -> Bin64 {
    if x.m == 0 {
        y
    } else if y.m == 0 {
        x
    } else {
        let z = bin64_of(x.m * pow2((x.e - y.e) as nat) + y.m);
        Bin64 { m: z.m, e: z.e + y.e }
    }
}

/// The binary64 quotient of `x` by `y`, which is not zero.
pub open spec fn bin64_quotient(x: Bin64, y: Bin64) -> Bin64 {
    if x.m >= y.m {
        Bin64 { m: round_div(x.m * MANT_MIN as nat, y.m), e: x.e - y.e - 52 }
    } else {
        Bin64 { m: round_div(x.m * MANT_END as nat, y.m), e: x.e - y.e - 53 }
    }
}

/// Whether `x` is at least the integer `k` (up to 1000).
pub open spec fn bin64_at_least(x: Bin64, k: nat) -> bool {
    x.e >= 0 || x.m >= k * pow2((-x.e) as nat)
}

/// Whether `x` is above one.
pub open spec fn bin64_above_one(x: Bin64) -> bool {
    x.m > 0 && (x.e >= 0 || x.m > pow2((-x.e) as nat))
}

/// `x` times `scale`, to the nearest integer, a tie to the even one.
pub open spec fn bin64_scaled(x: Bin64, scale: nat) -> nat {
    if x.e >= 0 {
        x.m * scale * pow2(x.e as nat)
    } else {
        round_div(x.m * scale, pow2((-x.e) as nat))
    }
}

/// `x` to the nearest integer, halves up.
pub open spec fn bin64_half_up(x: Bin64) -> nat {
    if x.e >= 0 {
        x.m * pow2(x.e as nat)
    } else {
        let unit = pow2((-x.e) as nat);
        (2 * x.m + unit) / (2 * unit)
    }
}

/// A span of `ns` nanoseconds in seconds: the binary64 sum of the whole seconds
/// and of the quotient of the nanoseconds above them.
pub open spec fn bin64_secs(ns: nat) -> Bin64 {
    bin64_sum(
        bin64_of(ns / NS_PER_SEC as nat),
        bin64_quotient(bin64_of(ns % NS_PER_SEC as nat), bin64_of(NS_PER_SEC as nat)),
    )
}

/// `x` seconds in nanoseconds, to the nearest one, a tie to the even one.
pub open spec fn bin64_nanos(x: Bin64) -> nat {
    bin64_scaled(x, NS_PER_SEC as nat)
}

pub(crate) proof fn lemma_pow2_values()
    ensures
        pow2(0) == 1,
        pow2(1) == 2,
        pow2(10) == 0x400,
        pow2(11) == 0x800,
        pow2(23) == 0x80_0000,
        pow2(30) == 0x4000_0000,
        pow2(43) == 0x800_0000_0000,
        pow2(52) == MANT_MIN,
        pow2(53) == MANT_END,
        pow2(54) == 0x40_0000_0000_0000,
        pow2(64) == 0x1_0000_0000_0000_0000,
        pow2(84) == 0x10_0000_0000_0000_0000_0000,
        pow2(120) == 0x100_0000_0000_0000_0000_0000_0000_0000,
{
    lemma2_to64();
    lemma_pow2_adds(32, 11);
    lemma_pow2_adds(32, 20);
    lemma_pow2_adds(32, 21);
    lemma_pow2_adds(32, 22);
    lemma_pow2_adds(64, 20);
    lemma_pow2_adds(64, 32);
    lemma_pow2_adds(96, 24);
}

pub(crate) proof fn lemma_pow2_monotone(i: nat, j: nat)
    requires
        i <= j,
    ensures
        1 <= pow2(i) <= pow2(j),
{
    lemma_pow2_pos(i);
    if i < j {
        lemma_pow2_strictly_increases(i, j);
    }
}

/// A mantissa is filled to between `2^52` and `2^53`, by the missing bits.
proof fn lemma_filled(m: nat, e: int, low: nat, high: nat)
    requires
        low <= 52,
        high <= 53,
        pow2(low) <= m < pow2(high),
    ensures
        MANT_MIN <= filled(m, e).m < MANT_END,
        e + low - 52 <= filled(m, e).e <= e + high - 53,
    decreases MANT_END - m,
{
    lemma_pow2_values();
    lemma_pow2_pos(low);
    lemma_pow2_monotone(high, 53);
    if m >= MANT_MIN {
        if high <= 52 {
            lemma_pow2_monotone(high, 52);
        }
    } else {
        if low == 52 {
            assert(false);
        }
        lemma_pow2_unfold(low + 1);
        if high == 53 {
            lemma_filled(2 * m, e - 1, low + 1, 53);
        } else {
            lemma_pow2_unfold(high + 1);
            lemma_filled(2 * m, e - 1, low + 1, high + 1);
        }
    }
}

/// The exact filling of a mantissa that lacks `k` bits.
pub(crate) proof fn lemma_filled_by(m: nat, e: int, k: nat)
    requires
        MANT_MIN <= m * pow2(k) < MANT_END,
    ensures
        filled(m, e) == (Bin64 { m: m * pow2(k), e: e - k }),
    decreases k,
{
    lemma_pow2_values();
    if k == 0 {
        assert(m * 1 == m);
    } else {
        let p = pow2((k - 1) as nat);
        lemma_pow2_unfold(k);
        lemma_pow2_pos((k - 1) as nat);
        assert(m * (2 * p) == (2 * m) * p && m <= m * p && 0 < m) by (nonlinear_arith)
            requires
                p >= 1,
                m * (2 * p) > 0,
        ;
        assert(m * (2 * p) == 2 * (m * p)) by (nonlinear_arith);
        lemma_filled_by(2 * m, e - 1, (k - 1) as nat);
    }
}

/// A number is longer than a mantissa by the bits that leave one.
proof fn lemma_excess(n: nat)
    requires
        n >= MANT_END,
    ensures
        MANT_MIN * pow2(excess_bits(n)) <= n < MANT_END * pow2(excess_bits(n)),
    decreases n,
{
    lemma_pow2_values();
    let k = excess_bits(n / 2);
    lemma_pow2_unfold(k + 1);
    if n / 2 >= MANT_END {
        lemma_excess(n / 2);
    }
}

proof fn lemma_excess_is(n: nat, k: nat)
    requires
        MANT_MIN * pow2(k) <= n < MANT_END * pow2(k),
    ensures
        excess_bits(n) == k,
    decreases k,
{
    lemma_pow2_values();
    if k > 0 {
        lemma_pow2_unfold(k);
        lemma_pow2_pos((k - 1) as nat);
        lemma_excess_is(n / 2, (k - 1) as nat);
    }
}

proof fn lemma_excess_at_most(n: nat, k: nat)
    requires
        n < MANT_END * pow2(k),
    ensures
        excess_bits(n) <= k,
    decreases n,
{
    lemma_pow2_values();
    if n >= MANT_END {
        if k == 0 {
            assert(false);
        }
        lemma_pow2_unfold(k);
        lemma_excess_at_most(n / 2, (k - 1) as nat);
    }
}

/// A rounded quotient of at most `c` is at most `c`, and one of at least `c` is
/// at least `c`.
proof fn lemma_round_div(a: nat, b: nat, c: nat)
    requires
        b > 0,
    ensures
        a <= c * b ==> round_div(a, b) <= c,
        a >= c * b ==> round_div(a, b) >= c,
{
    let q = a / b;
    let r = a % b;
    assert(a == q * b + r && 0 <= r < b) by (nonlinear_arith)
        requires
            b > 0,
            q == a / b,
            r == a % b,
    ;
    if a <= c * b {
        assert(q < c || (q == c && r == 0)) by (nonlinear_arith)
            requires
                a <= c * b,
                a == q * b + r,
                0 <= r < b,
        ;
    }
    if a >= c * b {
        assert(q >= c) by (nonlinear_arith)
            requires
                a >= c * b,
                a == q * b + r,
                0 <= r < b,
        ;
    }
}

/// The nearest number to a positive integer has a full mantissa; its exponent
/// is that of the integer's bits, or one more where it was rounded up to a power
/// of two.
pub(crate) proof fn lemma_of(n: nat, bits: nat)
    requires
        1 <= n < MANT_END * pow2(bits),
    ensures
        MANT_MIN <= bin64_of(n).m < MANT_END,
        -52 <= bin64_of(n).e <= bits + 1,
        bin64_of(n).e == bits + 1 ==> bin64_of(n).m == MANT_MIN,
        n >= MANT_MIN ==> bin64_of(n).e >= 0,
{
    lemma_pow2_values();
    if n < MANT_END {
        lemma_filled(n, 0, 0, 53);
    } else {
        let k = excess_bits(n);
        lemma_excess(n);
        lemma_excess_at_most(n, bits);
        lemma_pow2_pos(k);
        lemma_round_div(n, pow2(k), MANT_MIN as nat);
        lemma_round_div(n, pow2(k), MANT_END as nat);
    }
}

/// The quotient of two full mantissas is rounded to a full mantissa.
proof fn lemma_quotient(x: Bin64, y: Bin64)
    requires
        MANT_MIN <= x.m < MANT_END,
        MANT_MIN <= y.m < MANT_END,
    ensures
        MANT_MIN <= bin64_quotient(x, y).m < MANT_END,
{
    let a = x.m;
    let b = y.m;
    let top = (MANT_END - 1) as nat;
    if a >= b {
        assert(MANT_MIN as nat * b <= a * MANT_MIN as nat <= top * b) by (nonlinear_arith)
            requires
                b <= a <= top,
                MANT_MIN <= b,
                top == MANT_END - 1,
        ;
        lemma_round_div(a * MANT_MIN as nat, b, MANT_MIN as nat);
        lemma_round_div(a * MANT_MIN as nat, b, top);
    } else {
        assert(MANT_MIN as nat * b <= a * MANT_END as nat <= top * b) by (nonlinear_arith)
            requires
                a + 1 <= b <= top,
                MANT_MIN <= a,
                top == MANT_END - 1,
        ;
        lemma_round_div(a * MANT_END as nat, b, MANT_MIN as nat);
        lemma_round_div(a * MANT_END as nat, b, top);
    }
}

/// The nearest number to an integer above one is above one.
pub(crate) proof fn lemma_above_one(n: nat)
    requires
        n > 1,
    ensures
        bin64_above_one(bin64_of(n)),
{
    lemma_pow2_values();
    if n < MANT_END {
        lemma_filled(n, 0, 1, 53);
        let x = filled(n, 0);
        if x.e < 0 {
            lemma_pow2_monotone((-x.e) as nat, 51);
            lemma_pow2_unfold(52);
        }
    } else {
        lemma_excess(n);
        lemma_pow2_pos(excess_bits(n));
        lemma_round_div(n, pow2(excess_bits(n)), MANT_MIN as nat);
    }
}

/// Zero divided by a number is zero.
pub(crate) proof fn lemma_zero_quotient(y: Bin64)
    requires
        y.m > 0,
    ensures
        bin64_quotient(bin64_of(0), y).m == 0,
{
    assert(0nat * MANT_END as nat == 0);
    lemma_round_div(0, y.m, 0);
}

/// Zero is rounded to zero.
pub(crate) proof fn lemma_zero_is_kept(x: Bin64, scale: nat)
    requires
        x.m == 0,
    ensures
        bin64_scaled(x, scale) == 0,
        bin64_half_up(x) == 0,
{
    if x.e >= 0 {
        let p = pow2(x.e as nat);
        assert(x.m * scale * p == 0 && x.m * p == 0) by (nonlinear_arith)
            requires
                x.m == 0,
        ;
    } else {
        let p = pow2((-x.e) as nat);
        lemma_pow2_pos((-x.e) as nat);
        assert(x.m * scale == 0) by (nonlinear_arith)
            requires
                x.m == 0,
        ;
        lemma_round_div(0, p, 0);
        assert((2 * x.m + p) / (2 * p) == 0) by (nonlinear_arith)
            requires
                x.m == 0,
                p > 0,
        ;
    }
}

/// No time is no second.
pub(crate) proof fn lemma_no_time()
    ensures
        bin64_secs(0).m == 0,
{
    lemma_pow2_values();
    lemma_filled_by(NS_PER_SEC as nat, 0, 23);
    lemma_zero_quotient(bin64_of(NS_PER_SEC as nat));
}

/// A 64-bit integer divided by more than one, or by one where it does not round
/// up to `2^64`, stays below `2^64`.
pub(crate) proof fn lemma_quotient_fits(n: nat, y: Bin64)
    requires
        1 <= n <= u64::MAX,
        MANT_MIN <= y.m < MANT_END,
        bin64_above_one(y) || (y == bin64_of(1) && n < ROUNDS_TO_2_64),
    ensures
        MANT_MIN <= bin64_of(n).m < MANT_END,
        -52 <= bin64_of(n).e <= 12,
        bin64_quotient(bin64_of(n), y).e <= 11,
{
    lemma_pow2_values();
    lemma_of(n, 11);
    if n < MANT_END {
        lemma_filled(n, 0, 0, 53);
    }
    if bin64_above_one(y) {
        if y.e < -52 {
            lemma_pow2_monotone(53, (-y.e) as nat);
        }
    } else {
        lemma_filled_by(1, 0, 52);
        assert(y == Bin64 { m: MANT_MIN as nat, e: -52 });
        if n >= MANT_END && bin64_of(n).e == 12 {
            lemma_excess_at_most(n, 11);
            assert(excess_bits(n) == 11);
            assert(round_div(n, 0x800) < MANT_END);
        }
    }
}

/// A summand below a quarter of the last bit of the other changes nothing.
proof fn lemma_sum_of_far(x: Bin64, y: Bin64)
    requires
        MANT_MIN <= x.m < MANT_END,
        0 < y.m < MANT_END,
        x.e - y.e >= 55,
    ensures
        bin64_sum(x, y) == x,
{
    let d = (x.e - y.e) as nat;
    let p = pow2(d);
    let n = x.m * p + y.m;
    lemma_pow2_values();
    lemma_pow2_unfold(55);
    lemma_pow2_monotone(55, d);
    let m = x.m;
    let rest = y.m;
    assert(MANT_MIN * p <= n && n < MANT_END * p && n / p == m && n % p == rest) by (nonlinear_arith)
        requires
            n == m * p + rest,
            MANT_MIN <= m <= MANT_END - 1,
            0 < rest < p,
    ;
    lemma_excess_is(n, d);
    assert(n >= MANT_END) by (nonlinear_arith)
        requires
            n >= MANT_MIN * p,
            p >= 2,
            MANT_END == 2 * MANT_MIN,
    ;
}

/// `2^k`.
fn pow2_u128(k: u64) -> (p: u128)
    requires
        k <= 120,
    ensures
        p == pow2(k as nat),
{
    let mut p: u128 = 1;
    let mut i: u64 = 0;
    proof {
        lemma_pow2_values();
    }
    while i < k
        invariant
            i <= k <= 120,
            p == pow2(i as nat),
        decreases k - i,
    {
        proof {
            lemma_pow2_values();
            lemma_pow2_unfold((i + 1) as nat);
            lemma_pow2_monotone((i + 1) as nat, 120);
        }
        p = p * 2;
        i += 1;
    }
    p
}

fn round_div_u128(a: u128, b: u128) -> (q: u128)
    requires
        a < 0x100_0000_0000_0000_0000_0000_0000_0000,
        1 <= b <= 0x100_0000_0000_0000_0000_0000_0000_0000,
    ensures
        q == round_div(a as nat, b as nat),
{
    let q: u128 = a / b;
    let r: u128 = a % b;
    assert(q <= a) by (nonlinear_arith)
        requires
            q == a / b,
            b >= 1,
    ;
    if 2 * r > b || (2 * r == b && q % 2 == 1) {
        q + 1
    } else {
        q
    }
}

/// An executable [`Bin64`] that is not zero.
pub(crate) struct Float {
    pub(crate) m: u64,
    pub(crate) e: i64,
}

impl Float {
    pub(crate) open spec fn model(self) -> Bin64 {
        Bin64 { m: self.m as nat, e: self.e as int }
    }

    /// A full mantissa, and an exponent far from the limits.
    pub(crate) open spec fn wf(self) -> bool {
        MANT_MIN <= self.m < MANT_END && -1000 <= self.e <= 1000
    }

    /// The number nearest to `n`.
    pub(crate) fn of(n: u128) -> (x: Float)
        requires
            1 <= n < 0x100_0000_0000_0000_0000_0000_0000_0000,
        ensures
            x.wf(),
            x.model() == bin64_of(n as nat),
    {
        proof {
            lemma_pow2_values();
            lemma_pow2_adds(53, 67);
            lemma_of(n as nat, 67);
        }
        if n < MANT_END as u128 {
            let mut m: u64 = n as u64;
            let mut e: i64 = 0;
            while m < MANT_MIN
                invariant
                    1 <= m < MANT_END,
                    e <= 0,
                    -52 <= filled(n as nat, 0).e,
                    filled(m as nat, e as int) == filled(n as nat, 0),
                decreases MANT_END - m,
            {
                proof {
                    lemma_pow2_values();
                    lemma_filled(m as nat, e as int, 0, 53);
                    lemma_filled(2 * m as nat, e - 1, 0, 53);
                }
                m = m * 2;
                e = e - 1;
            }
            Float { m, e }
        } else {
            let mut k: u64 = 0;
            let mut rest: u128 = n;
            proof {
                lemma_excess_at_most(n as nat, 67);
                lemma_excess(n as nat);
                lemma_pow2_monotone(excess_bits(n as nat), 67);
            }
            while rest >= MANT_END as u128
                invariant
                    k + excess_bits(rest as nat) == excess_bits(n as nat),
                    excess_bits(n as nat) <= 67,
                decreases rest,
            {
                rest = rest / 2;
                k += 1;
            }
            let d: u128 = pow2_u128(k);
            proof {
                lemma_pow2_adds(53, 67);
                lemma_round_div(n as nat, d as nat, MANT_END as nat);
            }
            let m: u64 = round_div_u128(n, d) as u64;
            if m == MANT_END {
                Float { m: MANT_MIN, e: k as i64 + 1 }
            } else {
                Float { m, e: k as i64 }
            }
        }
    }

    /// The quotient by `y`.
    pub(crate) fn quotient(&self, y: &Float) -> (x: Float)
        requires
            self.wf(),
            y.wf(),
            -900 <= self.e - y.e <= 1000,
        ensures
            x.wf(),
            x.model() == bin64_quotient(self.model(), y.model()),
    {
        proof {
            lemma_quotient(self.model(), y.model());
        }
        if self.m >= y.m {
            assert(self.m * MANT_MIN < 0x100_0000_0000_0000_0000_0000_0000_0000) by (nonlinear_arith)
                requires
                    self.m < MANT_END,
            ;
            let m: u128 = round_div_u128(self.m as u128 * MANT_MIN as u128, y.m as u128);
            Float { m: m as u64, e: self.e - y.e - 52 }
        } else {
            assert(self.m * MANT_END < 0x100_0000_0000_0000_0000_0000_0000_0000) by (nonlinear_arith)
                requires
                    self.m < MANT_END,
            ;
            let m: u128 = round_div_u128(self.m as u128 * MANT_END as u128, y.m as u128);
            Float { m: m as u64, e: self.e - y.e - 53 }
        }
    }

    /// The sum with `y`, which has no larger exponent.
    fn sum(&self, y: &Float) -> (x: Float)
        requires
            self.wf(),
            y.wf(),
            -100 <= y.e <= self.e <= 100,
        ensures
            x.wf(),
            x.model() == bin64_sum(self.model(), y.model()),
            y.e <= x.e,
            x.e <= self.e || x.e <= y.e + 56,
    {
        if self.e - y.e >= 55 {
            proof {
                lemma_sum_of_far(self.model(), y.model());
            }
            Float { m: self.m, e: self.e }
        } else {
            let d: u64 = (self.e - y.e) as u64;
            let p: u128 = pow2_u128(d);
            proof {
                lemma_pow2_values();
                lemma_pow2_monotone(d as nat, 54);
                lemma_pow2_unfold(55);
                let (m, q) = (self.m as nat, p as nat);
                assert(m <= m * q <= MANT_END * pow2(54)) by (nonlinear_arith)
                    requires
                        m <= MANT_END,
                        1 <= q <= pow2(54),
                ;
                assert(MANT_END * pow2(54) + MANT_END < MANT_END * pow2(55));
                lemma_of(m * q + y.m as nat, 55);
            }
            let z = Float::of(self.m as u128 * p + y.m as u128);
            Float { m: z.m, e: z.e + y.e }
        }
    }

    /// Whether the number is at least `k`.
    pub(crate) fn at_least(&self, k: u64) -> (b: bool)
        requires
            self.wf(),
            self.e >= -100,
            k <= 1000,
        ensures
            b == bin64_at_least(self.model(), k as nat),
    {
        if self.e >= 0 {
            true
        } else {
            let p: u128 = pow2_u128((-self.e) as u64);
            proof {
                lemma_pow2_values();
                lemma_pow2_monotone((-self.e) as nat, 110);
                lemma_pow2_adds(110, 10);
            }
            assert(k * p <= 1000 * p) by (nonlinear_arith)
                requires
                    k <= 1000,
                    p >= 0,
            ;
            self.m as u128 >= k as u128 * p
        }
    }

    /// Whether the number is above one.
    pub(crate) fn above_one(&self) -> (b: bool)
        requires
            self.wf(),
            self.e >= -120,
        ensures
            b == bin64_above_one(self.model()),
    {
        self.e >= 0 || self.m as u128 > pow2_u128((-self.e) as u64)
    }

    /// The number times `scale`, to the nearest integer.
    pub(crate) fn scaled(&self, scale: u64) -> (v: u128)
        requires
            self.wf(),
            self.e <= 12,
            1 <= scale <= NS_PER_SEC,
        ensures
            v == bin64_scaled(self.model(), scale as nat),
            self.e < 0 ==> v <= self.m * scale,
    {
        assert(self.m * scale < 0x8_0000_0000_0000_0000_0000) by (nonlinear_arith)
            requires
                self.m < MANT_END,
                scale <= NS_PER_SEC,
        ;
        let a: u128 = self.m as u128 * scale as u128;
        proof {
            lemma_pow2_values();
        }
        if self.e >= 0 {
            let p: u128 = pow2_u128(self.e as u64);
            proof {
                lemma_pow2_monotone(self.e as nat, 23);
            }
            assert(a * p <= 0x8_0000_0000_0000_0000_0000 * 0x80_0000) by (nonlinear_arith)
                requires
                    a <= 0x8_0000_0000_0000_0000_0000,
                    p <= 0x80_0000,
            ;
            a * p
        } else if self.e <= -84 {
            proof {
                let p = pow2((-self.e) as nat);
                lemma_pow2_monotone(84, (-self.e) as nat);
                assert(a as nat / p == 0 && a as nat % p == a) by (nonlinear_arith)
                    requires
                        a < p,
                ;
            }
            0
        } else {
            let p: u128 = pow2_u128((-self.e) as u64);
            proof {
                lemma_pow2_monotone((-self.e) as nat, 120);
                assert(a <= a * p) by (nonlinear_arith)
                    requires
                        p >= 1,
                ;
                lemma_round_div(a as nat, p as nat, a as nat);
            }
            round_div_u128(a, p)
        }
    }

    /// `ns` nanoseconds in seconds.
    pub(crate) fn secs(ns: u128) -> (x: Float)
        requires
            1 <= ns < 0x1_0000_0000_0000_0000 * NS_PER_SEC,
        ensures
            x.wf(),
            x.model() == bin64_secs(ns as nat),
            -82 <= x.e <= 12,
    {
        let whole: u128 = ns / NS_PER_SEC as u128;
        let part: u128 = ns % NS_PER_SEC as u128;
        proof {
            lemma_pow2_values();
            lemma_filled_by(NS_PER_SEC as nat, 0, 23);
            if part > 0 {
                lemma_filled(part as nat, 0, 0, 30);
            }
            if whole > 0 {
                lemma_of(whole as nat, 11);
            }
            lemma_zero_quotient(bin64_of(NS_PER_SEC as nat));
        }
        if part == 0 {
            return Float::of(whole);
        }
        let y = Float::of(part).quotient(&Float::of(NS_PER_SEC as u128));
        if whole == 0 {
            y
        } else {
            Float::of(whole).sum(&y)
        }
    }

    /// The number of seconds in nanoseconds, to the nearest one.
    pub(crate) fn nanos(&self) -> (ns: u128)
        requires
            self.wf(),
            self.e <= 11,
        ensures
            ns == bin64_nanos(self.model()),
            ns <= u64::MAX * NS_PER_SEC,
    {
        proof {
            lemma_pow2_values();
            let m = self.m as nat;
            if self.e >= 0 {
                let p = pow2(self.e as nat);
                lemma_pow2_monotone(self.e as nat, 11);
                assert(m * NS_PER_SEC as nat * p <= u64::MAX * NS_PER_SEC) by (nonlinear_arith)
                    requires
                        m < MANT_END,
                        p <= 0x800,
                ;
            }
        }
        self.scaled(NS_PER_SEC)
    }

    /// The number to the nearest integer, halves up, or the largest `u64` where
    /// it is larger.
    pub(crate) fn half_up(&self) -> (n: u64)
        requires
            self.wf(),
            -82 <= self.e <= 12,
        ensures
            n == (if bin64_half_up(self.model()) > u64::MAX {
                u64::MAX as nat
            } else {
                bin64_half_up(self.model())
            }),
    {
        proof {
            lemma_pow2_values();
        }
        let n: u128 = if self.e >= 0 {
            let p: u128 = pow2_u128(self.e as u64);
            proof {
                lemma_pow2_monotone(self.e as nat, 23);
            }
            assert(self.m * p <= MANT_END * 0x80_0000) by (nonlinear_arith)
                requires
                    self.m <= MANT_END,
                    p <= 0x80_0000,
            ;
            self.m as u128 * p
        } else {
            let p: u128 = pow2_u128((-self.e) as u64);
            proof {
                lemma_pow2_monotone((-self.e) as nat, 84);
            }
            (2 * self.m as u128 + p) / (2 * p)
        };
        if n > u64::MAX as u128 {
            u64::MAX
        } else {
            n as u64
        }
    }
}

} // verus!
