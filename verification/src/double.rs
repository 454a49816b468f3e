//! Double-precision numbers as bit patterns.
//!
//! A binary64 number is an integer multiple of its smallest positive value,
//! 2^-1074. Counting in that unit makes every finite number, every difference
//! and every rounding step a statement about integers.

use vstd::arithmetic::div_mod::*;
use vstd::arithmetic::mul::*;
use vstd::arithmetic::power2::*;
use vstd::prelude::*;

verus! {

/// Two to the fifty-second: how many numbers share one exponent.
pub const FRACTION_SPAN: u64 = 0x10_0000_0000_0000;

/// A binary64 number, by its bit pattern.
#[derive(Debug, Clone, Copy, PartialEq, Eq, Structural)]
pub struct Double {
    pub bits: u64,
}

/// The number one, counted in units of 2^-1074.
pub open spec fn one() -> nat {
    pow2(1074)
}

/// The gap between neighbouring doubles at magnitude `m`, in units.
pub open spec fn spacing(m: nat) -> nat
    decreases m,
{
    if m < 2 * FRACTION_SPAN {
        1
    } else {
        2 * spacing(m / 2)
    }
}

/// The double nearest to the magnitude `m`; of two equally near ones, the one
/// that is an even multiple of the gap. There is no largest one here: what is
/// taken from a hundred leaves a double, and a hundred more is less than half
/// the gap behind the largest.
pub open spec fn nearest_double(m: nat) -> nat {
    let gap = spacing(m);
    let below = m / gap;
    let rest = m % gap;
    if 2 * rest < gap || (2 * rest == gap && below % 2 == 0) {
        below * gap
    } else {
        (below + 1) * gap
    }
}

/// The integer nearest to the magnitude `m`; halves go up.
pub open spec fn nearest_integer(m: nat) -> nat {
    (m + one() / 2) / one()
}

/// The integer nearest to a signed count of units; halves go away from zero.
pub open spec fn nearest_signed(units: int) -> int {
    if units >= 0 {
        nearest_integer(units as nat) as int
    } else {
        -nearest_integer((-units) as nat)
    }
}

/// The double nearest to a signed count of units.
pub open spec fn nearest_signed_double(units: int) -> int {
    if units >= 0 {
        nearest_double(units as nat) as int
    } else {
        -nearest_double((-units) as nat)
    }
}

/// `value` moved into the range from `low` to `high`.
pub open spec fn clamped(value: int, low: int, high: int) -> int {
    if value < low {
        low
    } else if value > high {
        high
    } else {
        value
    }
}

impl Double {
    /// Whether the sign bit is set.
    pub open spec fn negative(self) -> bool {
        self.bits >= 0x8000_0000_0000_0000
    }

    /// The biased exponent field.
    pub open spec fn exponent(self) -> int {
        (self.bits as int / FRACTION_SPAN as int) % 2048
    }

    /// The fraction field.
    pub open spec fn fraction(self) -> int {
        self.bits as int % FRACTION_SPAN as int
    }

    /// Neither an infinity nor a NaN.
    pub open spec fn finite(self) -> bool {
        self.exponent() != 2047
    }

    /// Not a number.
    pub open spec fn nan(self) -> bool {
        self.exponent() == 2047 && self.fraction() != 0
    }

    /// The absolute value of a finite number, in units.
    pub open spec fn magnitude(self) -> nat {
        if self.exponent() == 0 {
            self.fraction() as nat
        } else {
            ((FRACTION_SPAN + self.fraction()) * pow2((self.exponent() - 1) as nat)) as nat
        }
    }

    /// The value of a finite number, in units.
    pub open spec fn units(self) -> int {
        if self.negative() {
            -self.magnitude()
        } else {
            self.magnitude() as int
        }
    }

    /// Tells whether the number is neither infinite nor a NaN.
    pub fn is_finite(self) -> (answer: bool)
        ensures
            answer == self.finite(),
    {
        (self.bits / FRACTION_SPAN) % 2048 != 2047
    }

    /// Whether the number is greater than or equal to the integer `n`; no NaN
    /// is.
    pub open spec fn reaches(self, n: int) -> bool {
        if self.finite() {
            self.units() >= n * one()
        } else {
            !self.nan() && !self.negative()
        }
    }

    /// Whether the number is less than or equal to the integer `n`; no NaN is.
    pub open spec fn stays_within(self, n: int) -> bool {
        if self.finite() {
            self.units() <= n * one()
        } else {
            !self.nan() && self.negative()
        }
    }

    /// Compares the magnitude of a finite number with an integer: the answers
    /// are whether it is at least `n` and whether it is at most `n`.
    fn magnitude_against(self, n: u32) -> (answer: (bool, bool))
        requires
            self.finite(),
        ensures
            answer.0 == (self.magnitude() >= n * one()),
            answer.1 == (self.magnitude() <= n * one()),
    {
        let exponent: u64 = (self.bits / FRACTION_SPAN) % 2048;
        let fraction: u64 = self.bits % FRACTION_SPAN;
        if exponent >= 1055 {
            proof {
                lemma_beyond_u32(self, n);
            }
            return (true, false);
        }
        if exponent < 1023 {
            proof {
                lemma_below_one(self, n);
            }
            return (n == 0, n > 0 || (exponent == 0 && fraction == 0));
        }
        // From here on the unit is 2^-52.
        let significand: u128 = (FRACTION_SPAN + fraction) as u128;
        let mut scaled: u128 = significand;
        let mut shift: u64 = 1023;
        proof {
            lemma2_to64();
            assert(significand * pow2(0) == significand) by (nonlinear_arith)
                requires
                    pow2(0) == 1,
            ;
        }
        while shift < exponent
            invariant
                1023 <= shift <= exponent < 1055,
                significand < 0x20_0000_0000_0000,
                scaled == significand * pow2((shift - 1023) as nat),
            decreases exponent - shift,
        {
            proof {
                let doubled = pow2((shift - 1022) as nat);
                lemma_pow2_unfold((shift - 1022) as nat);
                lemma_up_to_65((shift - 1022) as nat);
                assert(scaled * 2 == significand * doubled) by (nonlinear_arith)
                    requires
                        scaled == significand * pow2((shift - 1023) as nat),
                        doubled == 2 * pow2((shift - 1023) as nat),
                ;
                lemma_mul_upper_bound(
                    significand as int,
                    0x20_0000_0000_0000,
                    doubled as int,
                    0x2_0000_0000_0000_0000,
                );
            }
            scaled = scaled * 2;
            shift = shift + 1;
        }
        let bound: u128 = n as u128 * FRACTION_SPAN as u128;
        proof {
            let scale = pow2(1022) as int;
            let up = (exponent - 1023) as nat;
            lemma2_to64_rest();
            lemma_pow2_pos(1022);
            lemma_pow2_adds(52, 1022);
            lemma_pow2_adds(up, 1022);
            assert(significand * (pow2(up) * scale) == scaled * scale) by (nonlinear_arith)
                requires
                    scaled == significand * pow2(up),
            ;
            assert(n * (FRACTION_SPAN * scale) == bound * scale) by (nonlinear_arith)
                requires
                    bound == n * FRACTION_SPAN,
            ;
            assert((scaled * scale >= bound * scale) == (scaled >= bound)) by (nonlinear_arith)
                requires
                    scale > 0,
            ;
            assert((scaled * scale <= bound * scale) == (scaled <= bound)) by (nonlinear_arith)
                requires
                    scale > 0,
            ;
        }
        (scaled >= bound, scaled <= bound)
    }

    /// Tells whether the number is greater than or equal to `n`.
    pub fn at_least(self, n: u32) -> (answer: bool)
        ensures
            answer == self.reaches(n as int),
    {
        let negative: bool = self.bits >= 0x8000_0000_0000_0000;
        if !self.is_finite() {
            return self.bits % FRACTION_SPAN == 0 && !negative;
        }
        proof {
            lemma_one_is_large();
            assert(n * one() >= 0) by (nonlinear_arith);
            assert(n > 0 ==> n * one() > 0) by (nonlinear_arith)
                requires
                    one() > 0,
            ;
        }
        if negative {
            n == 0 && self.magnitude_against(0).1
        } else {
            self.magnitude_against(n).0
        }
    }

    /// Tells whether the number is less than or equal to `n`.
    pub fn at_most(self, n: u32) -> (answer: bool)
        ensures
            answer == self.stays_within(n as int),
    {
        let negative: bool = self.bits >= 0x8000_0000_0000_0000;
        if !self.is_finite() {
            return self.bits % FRACTION_SPAN == 0 && negative;
        }
        proof {
            assert(n * one() >= 0) by (nonlinear_arith);
        }
        negative || self.magnitude_against(n).1
    }

    /// Takes the number from a hundred, in double precision, and rounds what
    /// is left to a whole percentage.
    pub fn taken_from_hundred(self) -> (left: u8)
        requires
            self.finite(),
        ensures
            left == hundred_less(self),
    {
        let exponent: u64 = (self.bits / FRACTION_SPAN) % 2048;
        let fraction: u64 = self.bits % FRACTION_SPAN;
        if self.bits >= 0x8000_0000_0000_0000 || exponent < 964 {
            proof {
                lemma_tiny_leaves_hundred(self);
            }
            return 100;
        }
        if exponent >= 1030 {
            proof {
                lemma_overdrawn(self);
            }
            return 0;
        }
        // From here on the unit is 2^-111.
        let significand: u128 = (FRACTION_SPAN + fraction) as u128;
        let mut taken: u128 = significand;
        let mut shift: u64 = 964;
        proof {
            lemma2_to64();
            assert(significand * pow2(0) == significand) by (nonlinear_arith)
                requires
                    pow2(0) == 1,
            ;
        }
        while shift < exponent
            invariant
                964 <= shift <= exponent < 1030,
                significand < 0x20_0000_0000_0000,
                taken == significand * pow2((shift - 964) as nat),
            decreases exponent - shift,
        {
            proof {
                let doubled = pow2((shift - 963) as nat);
                lemma_pow2_unfold((shift - 963) as nat);
                lemma_up_to_65((shift - 963) as nat);
                assert(taken * 2 == significand * doubled) by (nonlinear_arith)
                    requires
                        taken == significand * pow2((shift - 964) as nat),
                        doubled == 2 * pow2((shift - 964) as nat),
                ;
                lemma_mul_upper_bound(
                    significand as int,
                    0x20_0000_0000_0000,
                    doubled as int,
                    0x2_0000_0000_0000_0000,
                );
            }
            taken = taken * 2;
            shift = shift + 1;
        }
        let hundred: u128 = 259614842926741381426524816461004800;
        proof {
            lemma_in_coarse_units(self, taken as nat);
        }
        if taken >= hundred {
            return 0;
        }
        let left: u128 = hundred - taken;
        let rounded: u128 = round_to_double(left);
        proof {
            lemma_nearest_double_scales(left as nat, 963);
            lemma_nearest_integer_scales(rounded as nat);
            lemma_coarse_powers();
        }
        let whole: u128 = (rounded + 1298074214633706907132624082305024)
            / 2596148429267413814265248164610048;
        if whole > 100 {
            100
        } else {
            whole as u8
        }
    }
}

/// Rounds a magnitude to the nearest multiple of the gap between doubles.
fn round_to_double(m: u128) -> (rounded: u128)
    requires
        m < 0x40_0000_0000_0000_0000_0000_0000_0000,
    ensures
        rounded == nearest_double(m as nat),
        rounded < 0x80_0000_0000_0000_0000_0000_0000_0000,
{
    let mut gap: u128 = 1;
    let mut top: u128 = m;
    proof {
        lemma_div_basics(m as int);
    }
    while top >= 0x20_0000_0000_0000
        invariant
            gap >= 1,
            top == m / gap,
            gap * 0x10_0000_0000_0000 <= m || gap == 1,
            m < 0x40_0000_0000_0000_0000_0000_0000_0000,
            spacing(m as nat) == gap * spacing(top as nat),
        decreases top,
    {
        proof {
            lemma_div_denominator(m as int, gap as int, 2);
            lemma_fundamental_div_mod(m as int, gap as int);
            assert(gap * 0x20_0000_0000_0000 <= m) by (nonlinear_arith)
                requires
                    m == gap * top + m as int % gap as int,
                    m as int % gap as int >= 0,
                    top >= 0x20_0000_0000_0000,
                    gap >= 1,
            ;
            assert(spacing(top as nat) == 2 * spacing((top / 2) as nat));
            assert(gap * spacing(top as nat) == (gap * 2) * spacing((top / 2) as nat)) by (
            nonlinear_arith)
                requires
                    spacing(top as nat) == 2 * spacing((top / 2) as nat),
            ;
        }
        gap = gap * 2;
        top = top / 2;
    }
    proof {
        assert(spacing(top as nat) == 1);
        assert(spacing(m as nat) == gap) by (nonlinear_arith)
            requires
                spacing(m as nat) == gap * spacing(top as nat),
                spacing(top as nat) == 1,
        ;
        lemma_nearest_double_error(m as nat);
        lemma_fundamental_div_mod(m as int, gap as int);
        assert(top * gap <= m) by (nonlinear_arith)
            requires
                m == gap * top + m as int % gap as int,
                m as int % gap as int >= 0,
        ;
        assert((top + 1) * gap == top * gap + gap) by (nonlinear_arith);
    }
    let rest: u128 = m % gap;
    if 2 * rest < gap || (2 * rest == gap && top % 2 == 0) {
        top * gap
    } else {
        (top + 1) * gap
    }
}

/// What is left of a hundred when `used` is taken away: the difference as a
/// double, rounded to an integer with halves away from zero, and held between
/// nought and a hundred.
pub open spec fn hundred_less(used: Double) -> int {
    clamped(nearest_signed(nearest_signed_double(100 * one() - used.units())), 0, 100)
}

proof fn lemma_spacing_bounds(m: nat)
    ensures
        spacing(m) >= 1,
        m < spacing(m) * (2 * FRACTION_SPAN),
        m >= 2 * FRACTION_SPAN ==> spacing(m) * FRACTION_SPAN <= m,
        m < 2 * FRACTION_SPAN ==> spacing(m) == 1,
    decreases m,
{
    if m >= 2 * FRACTION_SPAN {
        lemma_spacing_bounds(m / 2);
    }
}

/// Rounding strays from its argument by at most half a gap.
proof fn lemma_nearest_double_error(m: nat)
    ensures
        2 * (nearest_double(m) - m) <= spacing(m),
        2 * (m - nearest_double(m)) <= spacing(m),
{
    lemma_spacing_bounds(m);
    let gap = spacing(m) as int;
    lemma_fundamental_div_mod(m as int, gap);
    let below = m as int / gap;
    assert((below + 1) * gap == gap * below + gap) by (nonlinear_arith);
    assert(below * gap == gap * below) by (nonlinear_arith);
}

/// Rounding commutes with doubling.
proof fn lemma_nearest_double_doubles(m: nat)
    ensures
        nearest_double(2 * m) == 2 * nearest_double(m),
{
    lemma_spacing_bounds(m);
    let gap = spacing(m) as int;
    let below = m as int / gap;
    let rest = m as int % gap;
    if 2 * m < 2 * FRACTION_SPAN {
        lemma_spacing_bounds(2 * m);
        assert(nearest_double(m) == m);
        assert(nearest_double(2 * m) == 2 * m);
    } else {
        assert((2 * m) / 2 == m);
        assert(spacing(2 * m) == 2 * gap);
        lemma_fundamental_div_mod(m as int, gap);
        assert(2 * m == below * (2 * gap) + 2 * rest) by (nonlinear_arith)
            requires
                m == gap * below + rest,
        ;
        lemma_fundamental_div_mod_converse(2 * m as int, 2 * gap, below, 2 * rest);
        assert(below * (2 * gap) == 2 * (below * gap)) by (nonlinear_arith);
        assert((below + 1) * (2 * gap) == 2 * ((below + 1) * gap)) by (nonlinear_arith);
    }
}

/// Rounding commutes with scaling by a power of two.
proof fn lemma_nearest_double_scales(m: nat, k: nat)
    ensures
        nearest_double(m * pow2(k)) == nearest_double(m) * pow2(k),
    decreases k,
{
    if k == 0 {
        lemma2_to64();
        assert(m * 1 == m);
    } else {
        let less = (k - 1) as nat;
        lemma_nearest_double_scales(m, less);
        lemma_nearest_double_doubles(m * pow2(less));
        lemma_pow2_unfold(k);
        assert(m * pow2(k) == 2 * (m * pow2(less))) by (nonlinear_arith)
            requires
                pow2(k) == 2 * pow2(less),
        ;
        assert(nearest_double(m) * pow2(k) == 2 * (nearest_double(m) * pow2(less))) by (
        nonlinear_arith)
            requires
                pow2(k) == 2 * pow2(less),
        ;
    }
}

/// A difference of at least about a hundred stays a hundred.
proof fn lemma_hundred_stays(m: nat)
    requires
        m >= 100 * one() - one() / 4,
    ensures
        nearest_integer(nearest_double(m)) >= 100,
{
    lemma_nearest_double_error(m);
    lemma_spacing_bounds(m);
    lemma_one_is_large();
    let gap = spacing(m) as int;
    let rounded = nearest_double(m) as int;
    assert(m >= 2 * FRACTION_SPAN);
    assert(2 * rounded >= 2 * m - gap);
    assert(gap * FRACTION_SPAN <= m);
    assert(0x20_0000_0000_0000 * rounded >= 0x20_0000_0000_0000 * m - m);
    assert(rounded >= 100 * one() - one() / 2);
    let whole = one() as int;
    lemma_pow2_unfold(1074);
    assert(whole % 2 == 0);
    assert(rounded + whole / 2 >= 100 * whole);
    lemma_div_is_ordered(100 * whole, rounded + whole / 2, whole);
    lemma_div_by_multiple(100, whole);
}

/// A number below 2^-59 leaves a hundred whole.
proof fn lemma_tiny_leaves_hundred(used: Double)
    requires
        used.finite(),
        used.negative() || used.exponent() < 964,
    ensures
        hundred_less(used) == 100,
{
    lemma_one_is_large();
    let taken = used.units();
    if !used.negative() {
        lemma2_to64();
        lemma2_to64_rest();
        lemma_pow2_adds(53, 963);
        lemma_pow2_adds(1016, 58);
        if used.exponent() == 0 {
            assert(pow2(963) >= 1) by { lemma_pow2_pos(963) };
            assert(pow2(53) * pow2(963) >= pow2(53)) by (nonlinear_arith)
                requires
                    pow2(963) >= 1,
            ;
        } else {
            let scale = pow2((used.exponent() - 1) as nat) as int;
            if used.exponent() < 964 {
                lemma_pow2_strictly_increases((used.exponent() - 1) as nat, 963);
            }
            lemma_mul_upper_bound(
                FRACTION_SPAN + used.fraction(),
                0x20_0000_0000_0000,
                scale,
                pow2(963) as int,
            );
        }
        assert(taken <= pow2(1016));
        assert(taken <= one() / 4);
    }
    lemma_hundred_stays((100 * one() - taken) as nat);
}

proof fn lemma_nothing_left(units: int)
    requires
        units <= 0,
    ensures
        nearest_signed(nearest_signed_double(units)) <= 0,
{
    lemma_one_is_large();
    lemma_spacing_bounds(0);
    assert(nearest_double(0) == 0);
    lemma_basic_div(one() as int / 2, one() as int);
    assert(nearest_integer(0) == 0);
}

/// A number of at least 128 leaves nothing.
proof fn lemma_overdrawn(used: Double)
    requires
        used.finite(),
        !used.negative(),
        used.exponent() >= 1030,
    ensures
        hundred_less(used) == 0,
{
    let scale = pow2((used.exponent() - 1) as nat) as int;
    lemma2_to64();
    lemma2_to64_rest();
    lemma_pow2_adds(52, 1029);
    lemma_pow2_adds(1074, 7);
    if used.exponent() > 1030 {
        lemma_pow2_strictly_increases(1029, (used.exponent() - 1) as nat);
    }
    assert((FRACTION_SPAN + used.fraction()) * scale >= pow2(52) * pow2(1029))
        by (nonlinear_arith)
        requires
            FRACTION_SPAN + used.fraction() >= pow2(52),
            scale >= pow2(1029),
            pow2(52) >= 0,
            pow2(1029) >= 0,
    ;
    assert(used.units() >= 128 * one());
    lemma_nothing_left(100 * one() - used.units());
}

proof fn lemma_beyond_u32(x: Double, n: u32)
    requires
        x.finite(),
        x.exponent() >= 1055,
    ensures
        x.magnitude() > n * one(),
{
    let scale = pow2((x.exponent() - 1) as nat) as int;
    lemma2_to64();
    lemma2_to64_rest();
    lemma_pow2_adds(52, 1054);
    lemma_pow2_adds(32, 1074);
    lemma_pow2_pos(1054);
    lemma_pow2_pos(1074);
    if x.exponent() > 1055 {
        lemma_pow2_strictly_increases(1054, (x.exponent() - 1) as nat);
    }
    assert((FRACTION_SPAN + x.fraction()) * scale >= pow2(52) * pow2(1054)) by (nonlinear_arith)
        requires
            FRACTION_SPAN + x.fraction() >= pow2(52),
            scale >= pow2(1054),
            pow2(52) >= 0,
            pow2(1054) >= 0,
    ;
    assert(pow2(32) * one() > n * one()) by (nonlinear_arith)
        requires
            pow2(32) > n,
            one() > 0,
    ;
}

proof fn lemma_below_one(x: Double, n: u32)
    requires
        x.finite(),
        x.exponent() < 1023,
    ensures
        x.magnitude() < one(),
        n == 0 ==> n * one() == 0,
        n > 0 ==> n * one() >= one(),
        x.magnitude() == 0 <==> x.exponent() == 0 && x.fraction() == 0,
{
    lemma_one_is_large();
    lemma2_to64();
    lemma2_to64_rest();
    assert(n > 0 ==> n * one() >= one()) by (nonlinear_arith);
    if x.exponent() > 0 {
        let scale = pow2((x.exponent() - 1) as nat) as int;
        lemma_pow2_pos((x.exponent() - 1) as nat);
        lemma_pow2_adds(53, 1021);
        if x.exponent() < 1022 {
            lemma_pow2_strictly_increases((x.exponent() - 1) as nat, 1021);
        }
        assert((FRACTION_SPAN + x.fraction()) * scale < pow2(53) * pow2(1021)) by (nonlinear_arith)
            requires
                0 < FRACTION_SPAN + x.fraction() < pow2(53),
                0 < scale <= pow2(1021),
        ;
        assert((FRACTION_SPAN + x.fraction()) * scale > 0) by (nonlinear_arith)
            requires
                0 < FRACTION_SPAN + x.fraction(),
                0 < scale,
        ;
    }
}

proof fn lemma_up_to_65(k: nat)
    requires
        k <= 65,
    ensures
        pow2(k) <= 0x2_0000_0000_0000_0000,
{
    lemma2_to64_rest();
    lemma_pow2_unfold(65);
    if k < 65 {
        lemma_pow2_strictly_increases(k, 65);
    }
}

proof fn lemma_coarse_powers()
    ensures
        pow2(110) == 1298074214633706907132624082305024,
        pow2(111) == 2596148429267413814265248164610048,
{
    lemma2_to64();
    lemma2_to64_rest();
    lemma_pow2_adds(64, 46);
    lemma_pow2_unfold(111);
}

/// A number between 2^-59 and 128, and its distance to a hundred, counted in
/// units of 2^-111.
proof fn lemma_in_coarse_units(used: Double, taken: nat)
    requires
        !used.negative(),
        964 <= used.exponent() < 1030,
        taken == (FRACTION_SPAN + used.fraction()) * pow2((used.exponent() - 964) as nat),
    ensures
        100 * one() - used.units() == (100 * pow2(111) - taken) * pow2(963),
        100 * pow2(111) == 259614842926741381426524816461004800,
        taken >= 100 * pow2(111) ==> hundred_less(used) == 0,
{
    let shift = (used.exponent() - 964) as nat;
    let scale = pow2(963) as int;
    lemma_coarse_powers();
    lemma_pow2_adds(111, 963);
    lemma_pow2_adds(shift, 963);
    assert((FRACTION_SPAN + used.fraction()) * (pow2(shift) * scale) == taken * scale)
        by (nonlinear_arith)
        requires
            taken == (FRACTION_SPAN + used.fraction()) * pow2(shift),
    ;
    assert(100 * (pow2(111) * scale) - taken * scale == (100 * pow2(111) - taken) * scale)
        by (nonlinear_arith);
    if taken >= 100 * pow2(111) {
        assert((100 * pow2(111) - taken) * scale <= 0) by (nonlinear_arith)
            requires
                100 * pow2(111) - taken <= 0,
                scale >= 0,
        ;
        lemma_nothing_left(100 * one() - used.units());
    }
}

/// Scaling both sides leaves the nearest integer unchanged.
proof fn lemma_nearest_integer_scales(m: nat)
    ensures
        nearest_integer(m * pow2(963)) == (m + pow2(110)) / pow2(111),
{
    let scale = pow2(963) as int;
    lemma_pow2_pos(963);
    lemma_pow2_pos(111);
    lemma_pow2_adds(111, 963);
    lemma_pow2_unfold(111);
    let whole = pow2(111) as int;
    let half = pow2(110) as int;
    assert(one() == whole * scale);
    assert(one() / 2 == half * scale) by {
        assert(whole * scale == 2 * (half * scale)) by (nonlinear_arith)
            requires
                whole == 2 * half,
        ;
    }
    assert(m * scale + half * scale == scale * (m + half)) by (nonlinear_arith);
    lemma_div_denominator(scale * (m + half), scale, whole);
    lemma_div_multiples_vanish(m + half, scale);
    assert(scale * whole == whole * scale) by (nonlinear_arith);
}

proof fn lemma_one_is_large()
    ensures
        one() >= 0x1_0000_0000_0000_0000,
        one() % 4 == 0,
{
    lemma2_to64_rest();
    lemma_pow2_adds(64, 1010);
    lemma_pow2_pos(1010);
    assert(pow2(64) * pow2(1010) >= pow2(64)) by (nonlinear_arith)
        requires
            pow2(1010) >= 1,
    ;
    lemma_pow2_unfold(1074);
    lemma_pow2_unfold(1073);
}

/// A larger magnitude never rounds to a smaller double.
proof fn lemma_nearest_double_ordered(a: nat, b: nat)
    requires
        a <= b,
    ensures
        nearest_double(a) <= nearest_double(b),
{
    lemma_spacing_ordered(a, b);
    lemma_spacing_bounds(a);
    lemma_spacing_bounds(b);
    let fine = spacing(a) as int;
    let coarse = spacing(b) as int;
    let low = a as int / fine;
    let high = b as int / coarse;
    lemma_fundamental_div_mod(a as int, fine);
    lemma_fundamental_div_mod(b as int, coarse);
    if fine == coarse {
        lemma_div_is_ordered(a as int, b as int, fine);
        if low < high {
            assert((low + 1) * fine <= high * fine) by (nonlinear_arith)
                requires
                    low + 1 <= high,
                    fine >= 1,
            ;
            assert(low * fine <= high * fine) by (nonlinear_arith)
                requires
                    low <= high,
                    fine >= 1,
            ;
        }
        assert((high + 1) * fine == high * fine + fine) by (nonlinear_arith);
        assert((low + 1) * fine == low * fine + fine) by (nonlinear_arith);
    } else {
        let edge = 0x20_0000_0000_0000 * fine;
        assert(low < 0x20_0000_0000_0000) by (nonlinear_arith)
            requires
                a == fine * low + a as int % fine,
                a as int % fine >= 0,
                a < fine * 0x20_0000_0000_0000,
                fine >= 1,
        ;
        assert((low + 1) * fine <= edge) by (nonlinear_arith)
            requires
                low + 1 <= 0x20_0000_0000_0000,
                edge == 0x20_0000_0000_0000 * fine,
                fine >= 1,
        ;
        assert(low * fine <= (low + 1) * fine) by (nonlinear_arith)
            requires
                fine >= 1,
        ;
        assert(high >= 0x10_0000_0000_0000) by (nonlinear_arith)
            requires
                b == coarse * high + b as int % coarse,
                b as int % coarse < coarse,
                coarse * 0x10_0000_0000_0000 <= b,
                coarse >= 1,
        ;
        assert(high * coarse >= edge) by (nonlinear_arith)
            requires
                high >= 0x10_0000_0000_0000,
                coarse >= 2 * fine,
                edge == 0x20_0000_0000_0000 * fine,
                fine >= 1,
        ;
        assert((high + 1) * coarse >= high * coarse) by (nonlinear_arith)
            requires
                coarse >= 1,
        ;
    }
}

proof fn lemma_spacing_ordered(a: nat, b: nat)
    requires
        a <= b,
    ensures
        spacing(a) == spacing(b) || (2 * spacing(a) <= spacing(b) && b >= 2 * FRACTION_SPAN),
    decreases b,
{
    lemma_spacing_bounds(b);
    if a >= 2 * FRACTION_SPAN {
        lemma_spacing_ordered(a / 2, b / 2);
    } else if b >= 2 * FRACTION_SPAN {
        lemma_spacing_bounds(b / 2);
    }
}

/// Taking more away never leaves more.
pub proof fn lemma_hundred_less_ordered(less: Double, more: Double)
    requires
        less.units() <= more.units(),
    ensures
        hundred_less(more) <= hundred_less(less),
{
    let small = 100 * one() - more.units();
    let large = 100 * one() - less.units();
    lemma_one_is_large();
    let whole = one() as int;
    if small >= 0 {
        lemma_nearest_double_ordered(small as nat, large as nat);
        let low = nearest_double(small as nat) as int;
        let high = nearest_double(large as nat) as int;
        lemma_div_is_ordered(low + whole / 2, high + whole / 2, whole);
    } else {
        lemma_nothing_left(small);
    }
}

/// Rounding keeps a whole number as it is.
proof fn lemma_whole_is_kept(k: nat)
    requires
        k < 2 * FRACTION_SPAN,
    ensures
        nearest_integer(nearest_double(k * one())) == k,
{
    lemma_nearest_double_scales(k, 1074);
    lemma_spacing_bounds(k);
    assert(nearest_double(k) == k);
    lemma_one_is_large();
    let whole = one() as int;
    lemma_fundamental_div_mod_converse(k * whole + whole / 2, whole, k as int, whole / 2);
}

/// Taking a whole number from a hundred leaves the rest exactly.
pub proof fn lemma_hundred_less_whole(used: Double, percent: int)
    requires
        used.units() == percent * one(),
        0 <= percent <= 100,
    ensures
        hundred_less(used) == 100 - percent,
{
    let left = 100 - percent;
    assert(100 * one() - percent * one() == left * one()) by (nonlinear_arith)
        requires
            left == 100 - percent,
    ;
    assert(left * one() >= 0) by (nonlinear_arith)
        requires
            left >= 0,
    ;
    lemma_whole_is_kept(left as nat);
}

/// Taking away nothing or less leaves a hundred, a hundred or more nothing.
pub proof fn lemma_hundred_less_beyond(used: Double)
    ensures
        used.units() <= 0 ==> hundred_less(used) == 100,
        used.units() >= 100 * one() ==> hundred_less(used) == 0,
{
    if used.units() <= 0 {
        lemma_one_is_large();
        lemma_hundred_stays((100 * one() - used.units()) as nat);
    }
    if used.units() >= 100 * one() {
        lemma_nothing_left(100 * one() - used.units());
    }
}

/// What is left and what is taken differ from a hundred by at most a half, and
/// by the rounding of the difference.
pub proof fn lemma_hundred_less_near(used: Double)
    requires
        0 <= used.units() <= 100 * one(),
    ensures
        2 * ((100 - hundred_less(used)) * one() - used.units()) <= one() + pow2(1029),
        2 * (used.units() - (100 - hundred_less(used)) * one()) <= one() + pow2(1029),
{
    let whole = one() as int;
    let left = (100 * one() - used.units()) as nat;
    let rounded = nearest_double(left) as int;
    lemma_one_is_large();
    lemma_nearest_double_error(left);
    lemma_spacing_bounds(left);
    lemma2_to64();
    lemma2_to64_rest();
    lemma_pow2_adds(45, 1029);
    lemma_pow2_pos(1029);
    let slack = pow2(1029) as int;
    assert(whole == 0x2000_0000_0000 * slack);
    let gap = spacing(left) as int;
    assert(gap <= slack) by (nonlinear_arith)
        requires
            left < 0x10_0000_0000_0000 || gap * 0x10_0000_0000_0000 <= left || gap == 1,
            left < 0x10_0000_0000_0000 ==> gap == 1,
            left <= 100 * whole,
            whole == 0x2000_0000_0000 * slack,
            slack >= 1,
    ;
    assert(2 * (rounded - left) <= slack && 2 * (left - rounded) <= slack);
    lemma_nearest_double_ordered(left, (100 * one()) as nat);
    lemma_nearest_double_scales(100, 1074);
    lemma_spacing_bounds(100);
    assert(nearest_double(100) == 100);
    assert(rounded <= 100 * whole);
    let near = (rounded + whole / 2) / whole;
    lemma_fundamental_div_mod(rounded + whole / 2, whole);
    lemma_div_is_ordered(rounded + whole / 2, 100 * whole + whole / 2, whole);
    lemma_fundamental_div_mod_converse(100 * whole + whole / 2, whole, 100, whole / 2);
    lemma_div_pos_is_pos(rounded + whole / 2, whole);
    assert(hundred_less(used) == near);
    assert(2 * (near * whole - rounded) <= whole && 2 * (rounded - near * whole) <= whole)
        by (nonlinear_arith)
        requires
            rounded + whole / 2 == whole * near + (rounded + whole / 2) % whole,
            0 <= (rounded + whole / 2) % whole < whole,
            whole % 4 == 0,
    ;
    assert((100 - near) * whole == 100 * whole - near * whole) by (nonlinear_arith);
}

/// Where the difference is a double, it is rounded alone, with halves up.
pub proof fn lemma_hundred_less_exact(used: Double, steps: int)
    requires
        0 <= used.units() <= 100 * one(),
        used.units() == steps * pow2(1029),
    ensures
        hundred_less(used) * (2 * one()) - one() <= 2 * (100 * one() - used.units()),
        2 * (100 * one() - used.units()) < hundred_less(used) * (2 * one()) + one(),
{
    let whole = one() as int;
    let slack = pow2(1029) as int;
    lemma_one_is_large();
    lemma2_to64();
    lemma2_to64_rest();
    lemma_pow2_adds(45, 1029);
    lemma_pow2_pos(1029);
    let rest = 100 * 0x2000_0000_0000 - steps;
    assert(0 <= rest <= 100 * 0x2000_0000_0000 && 100 * whole - used.units() == rest * slack)
        by (nonlinear_arith)
        requires
            0 <= used.units() <= 100 * whole,
            used.units() == steps * slack,
            whole == 0x2000_0000_0000 * slack,
            slack >= 1,
            rest == 100 * 0x2000_0000_0000 - steps,
    ;
    lemma_nearest_double_scales(rest as nat, 1029);
    lemma_spacing_bounds(rest as nat);
    assert(nearest_double(rest as nat) == rest);
    let left = rest * slack;
    let near = (left + whole / 2) / whole;
    lemma_fundamental_div_mod(left + whole / 2, whole);
    lemma_div_is_ordered(left + whole / 2, 100 * whole + whole / 2, whole);
    lemma_fundamental_div_mod_converse(100 * whole + whole / 2, whole, 100, whole / 2);
    lemma_div_pos_is_pos(left + whole / 2, whole);
    assert(hundred_less(used) == near);
    assert(near * (2 * whole) - whole <= 2 * left && 2 * left < near * (2 * whole) + whole)
        by (nonlinear_arith)
        requires
            left + whole / 2 == whole * near + (left + whole / 2) % whole,
            0 <= (left + whole / 2) % whole < whole,
            whole % 4 == 0,
    ;
}

/// The bit pattern of nought is nought, that of one is one, and the sign bit
/// turns the sign and nothing else.
pub proof fn law_sign_and_unit(bits: u64)
    requires
        bits < 0x8000_0000_0000_0000,
    ensures
        (Double { bits: 0 }).units() == 0,
        (Double { bits: 0x3ff0_0000_0000_0000 }).units() == one(),
        one() == pow2(1074),
        (Double { bits }).units() >= 0,
        (Double { bits: (bits + 0x8000_0000_0000_0000) as u64 }).units() == -(Double {
            bits,
        }).units(),
        (Double { bits: (bits + 0x8000_0000_0000_0000) as u64 }).finite() == (Double {
            bits,
        }).finite(),
        (Double { bits }).finite() <==> bits < 0x7ff0_0000_0000_0000,
{
    let other = (bits + 0x8000_0000_0000_0000) as u64;
    let (x, y) = (Double { bits }, Double { bits: other });
    let span = FRACTION_SPAN as int;
    assert(0x8000_0000_0000_0000 == 2048 * span);
    assert(other as int / span == bits as int / span + 2048);
    assert(other as int % span == bits as int % span);
    assert(0 <= bits as int / span < 2048);
    assert(x.exponent() == y.exponent());
    assert((bits as int / span + 2048) % 2048 == (bits as int / span) % 2048);
    lemma2_to64_rest();
    lemma_pow2_adds(52, 1022);
    let unit = Double { bits: 0x3ff0_0000_0000_0000 };
    assert(unit.exponent() == 1023);
    assert(unit.fraction() == 0);
}

proof fn lemma_first_exponent(x: Double)
    requires
        x.exponent() == 1,
    ensures
        x.magnitude() == FRACTION_SPAN + x.fraction(),
{
    lemma2_to64();
    assert((FRACTION_SPAN + x.fraction()) * pow2(0) == FRACTION_SPAN + x.fraction())
        by (nonlinear_arith)
        requires
            pow2(0) == 1,
    ;
}

/// Up to the second exponent each next bit pattern is one unit further; from
/// one exponent to the next every number doubles.
pub proof fn law_patterns_are_evenly_spaced(bits: u64)
    requires
        bits < 0x7fe0_0000_0000_0000,
    ensures
        bits < 0x20_0000_0000_0000 ==> (Double { bits: (bits + 1) as u64 }).units() == (Double {
            bits,
        }).units() + 1,
        bits >= 0x10_0000_0000_0000 ==> (Double {
            bits: (bits + 0x10_0000_0000_0000) as u64,
        }).units() == 2 * (Double { bits }).units(),
{
    let span = FRACTION_SPAN as int;
    lemma2_to64();
    let x = Double { bits };
    assert(x.exponent() == bits as int / span);
    let next = Double { bits: (bits + 1) as u64 };
    assert(next.exponent() == (bits + 1) / span);
    if bits >= 0x10_0000_0000_0000 {
        let far = Double { bits: (bits + 0x10_0000_0000_0000) as u64 };
        assert(far.exponent() == x.exponent() + 1);
        assert(far.fraction() == x.fraction());
        lemma_pow2_unfold(x.exponent() as nat);
        let scale = pow2((x.exponent() - 1) as nat) as int;
        assert((FRACTION_SPAN + x.fraction()) * (2 * scale) == 2 * ((FRACTION_SPAN + x.fraction())
            * scale)) by (nonlinear_arith);
    }
    if bits < 0x20_0000_0000_0000 {
        if bits < 0x10_0000_0000_0000 - 1 {
            assert(next.units() == x.units() + 1);
        } else if bits == 0x10_0000_0000_0000 - 1 {
            assert(next.fraction() == 0 && next.exponent() == 1);
            lemma_first_exponent(next);
        } else if bits < 0x20_0000_0000_0000 - 1 {
            assert(x.exponent() == 1 && next.exponent() == 1);
            lemma_first_exponent(x);
            lemma_first_exponent(next);
        } else {
            lemma_pow2_unfold(1);
            assert(next.fraction() == 0 && next.exponent() == 2);
            assert(x.exponent() == 1);
            lemma_first_exponent(x);
            assert(next.magnitude() == 2 * FRACTION_SPAN);
        }
    }
}

/// A number reaches an integer, stays within it, or both where they are equal;
/// a NaN does neither, and an infinity lies beyond every integer on its side.
pub proof fn law_comparison_with_integers(x: Double, n: int)
    ensures
        x.finite() ==> (x.reaches(n) <==> x.units() >= n * pow2(1074)),
        x.finite() ==> (x.stays_within(n) <==> x.units() <= n * pow2(1074)),
        x.bits == 0x7ff0_0000_0000_0000 ==> x.reaches(n) && !x.stays_within(n),
        x.bits == 0xfff0_0000_0000_0000 ==> !x.reaches(n) && x.stays_within(n),
        0x7ff0_0000_0000_0000 < x.bits < 0x8000_0000_0000_0000 || x.bits > 0xfff0_0000_0000_0000
            ==> !x.reaches(n) && !x.stays_within(n),
{
    let span = FRACTION_SPAN as int;
    if x.bits >= 0x7ff0_0000_0000_0000 && x.bits < 0x8000_0000_0000_0000 {
        assert(x.bits as int / span == 2047);
    }
    if x.bits >= 0xfff0_0000_0000_0000 {
        assert(x.bits as int / span == 4095);
    }
}

/// Doubles stand a unit apart up to 2^53 units, and twice as far apart from each
/// power of two to the next.
pub proof fn law_gaps_double(m: nat)
    ensures
        m < 0x20_0000_0000_0000 ==> spacing(m) == 1,
        m >= 0x10_0000_0000_0000 ==> spacing(2 * m) == 2 * spacing(m) && spacing(2 * m + 1) == 2
            * spacing(m),
{
    if m >= 0x10_0000_0000_0000 {
        assert((2 * m) / 2 == m);
        assert((2 * m + 1) / 2 == m);
    }
}

/// Rounding gives a multiple of the gap, at most half a gap away; halfway between
/// two it gives the even one.
pub proof fn law_rounding_takes_the_nearest(m: nat)
    ensures
        nearest_double(m) % spacing(m) == 0,
        2 * (nearest_double(m) - m) <= spacing(m),
        2 * (m - nearest_double(m)) <= spacing(m),
        2 * (nearest_double(m) - m) == spacing(m) || 2 * (m - nearest_double(m)) == spacing(m)
            ==> (nearest_double(m) / spacing(m)) % 2 == 0,
{
    lemma_nearest_double_error(m);
    lemma_spacing_bounds(m);
    let gap = spacing(m) as int;
    let below = m as int / gap;
    let rest = m as int % gap;
    lemma_fundamental_div_mod(m as int, gap);
    assert((below + 1) * gap == gap * below + gap) by (nonlinear_arith);
    assert(below * gap == gap * below) by (nonlinear_arith);
    lemma_fundamental_div_mod_converse(below * gap, gap, below, 0);
    lemma_fundamental_div_mod_converse((below + 1) * gap, gap, below + 1, 0);
}

/// What is left is the whole number nearest to the difference as a double, with
/// halves up.
pub proof fn lemma_hundred_less_rounds_the_difference(used: Double)
    requires
        0 <= used.units() <= 100 * one(),
    ensures
        ({
            let left = nearest_double((100 * one() - used.units()) as nat);
            hundred_less(used) * (2 * one()) - one() <= 2 * left < hundred_less(used) * (2 * one())
                + one()
        }),
{
    let whole = one() as int;
    let difference = (100 * one() - used.units()) as nat;
    let left = nearest_double(difference) as int;
    lemma_one_is_large();
    lemma_nearest_double_ordered(difference, (100 * one()) as nat);
    lemma_nearest_double_scales(100, 1074);
    lemma_spacing_bounds(100);
    assert(nearest_double(100) == 100);
    let near = (left + whole / 2) / whole;
    lemma_fundamental_div_mod(left + whole / 2, whole);
    lemma_div_is_ordered(left + whole / 2, 100 * whole + whole / 2, whole);
    lemma_fundamental_div_mod_converse(100 * whole + whole / 2, whole, 100, whole / 2);
    lemma_div_pos_is_pos(left + whole / 2, whole);
    assert(hundred_less(used) == near);
    assert(near * (2 * whole) - whole <= 2 * left && 2 * left < near * (2 * whole) + whole)
        by (nonlinear_arith)
        requires
            left + whole / 2 == whole * near + (left + whole / 2) % whole,
            0 <= (left + whole / 2) % whole < whole,
            whole % 4 == 0,
    ;
}

} // verus!
