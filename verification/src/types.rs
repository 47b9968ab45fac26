//! Plain values shared by every module.

use vstd::arithmetic::power2::{
    lemma_pow2_pos, lemma_pow2_strictly_increases, lemma_pow2_unfold, pow2,
};
use vstd::prelude::*;

verus! {

/// A node of Day's tree.
#[derive(Clone, Copy, PartialEq, Eq, Structural, Debug)]
pub struct NodeId(pub u64);

/// Whom an event is addressed to: the window itself, or one node of the tree.
#[derive(Clone, Copy, PartialEq, Eq, Structural, Debug)]
pub enum Target {
    Window,
    Node(NodeId),
}

/// A coordinate, length, angle or ratio: the bits of an IEEE 754 binary64 number. The library
/// carries and orders them; it never computes with them.
#[derive(Clone, Copy, PartialEq, Eq, Structural, Debug)]
pub struct Scalar(pub u64);

/// The bits of positive infinity. Every larger magnitude is not a number.
pub const INFINITY_BITS: u64 = 0x7ff0_0000_0000_0000;

/// The sign bit.
pub const SIGN_BIT: u64 = 0x8000_0000_0000_0000;

/// How many magnitudes share an exponent.
pub const MANTISSAS: u64 = 0x0010_0000_0000_0000;

/// A magnitude's bits as the number they stand for, counted in the smallest positive one.
pub open spec fn magnitude_units(m: u64) -> int {
    if m < MANTISSAS {
        m as int
    } else {
        (MANTISSAS + m % MANTISSAS) * pow2((m / MANTISSAS - 1) as nat)
    }
}

/// Magnitudes order as their bits do.
pub proof fn lemma_magnitudes_increase(a: u64, b: u64)
    requires
        a < b,
    ensures
        magnitude_units(a) < magnitude_units(b),
{
    let (ea, eb) = ((a / MANTISSAS) as int, (b / MANTISSAS) as int);
    let (fa, fb) = (MANTISSAS + a % MANTISSAS, MANTISSAS + b % MANTISSAS);
    if a >= MANTISSAS {
        let (pa, pb) = (pow2((ea - 1) as nat) as int, pow2((eb - 1) as nat) as int);
        lemma_pow2_pos((ea - 1) as nat);
        if ea == eb {
            assert(fa * pa < fb * pa) by (nonlinear_arith)
                requires
                    fa < fb,
                    pa > 0,
            ;
        } else {
            lemma_pow2_unfold(ea as nat);
            let step = pow2(ea as nat) as int;
            assert(step == 2 * pa);
            if ea < eb - 1 {
                lemma_pow2_strictly_increases(ea as nat, (eb - 1) as nat);
            }
            assert(fa * pa < fb * pb) by (nonlinear_arith)
                requires
                    fa < 2 * MANTISSAS,
                    fb >= MANTISSAS,
                    pa > 0,
                    2 * pa <= pb,
            ;
        }
    } else if b >= MANTISSAS {
        let pb = pow2((eb - 1) as nat) as int;
        lemma_pow2_pos((eb - 1) as nat);
        assert(MANTISSAS <= fb * pb) by (nonlinear_arith)
            requires
                fb >= MANTISSAS,
                pb >= 1,
        ;
    }
}

/// The bits of one.
pub const ONE_BITS: u64 = 0x3ff0_0000_0000_0000;

impl Scalar {
    /// The bits without the sign: magnitudes order as they do.
    pub open spec fn magnitude_spec(self) -> u64 {
        if self.0 >= SIGN_BIT {
            (self.0 - SIGN_BIT) as u64
        } else {
            self.0
        }
    }

    pub open spec fn is_number(self) -> bool {
        self.magnitude_spec() <= INFINITY_BITS
    }

    pub fn magnitude(self) -> (r: u64)
        ensures
            r == self.magnitude_spec(),
    {
        if self.0 >= SIGN_BIT {
            self.0 - SIGN_BIT
        } else {
            self.0
        }
    }

    /// Where a number stands on the line: as the signed magnitude of its bits, the two zeros
    /// together.
    pub open spec fn order(self) -> int {
        if self.0 >= SIGN_BIT {
            -(self.magnitude_spec() as int)
        } else {
            self.magnitude_spec() as int
        }
    }

    /// The number itself, exactly, counted in the smallest positive one (two to the -1074th). An
    /// infinity stands past every other number.
    pub open spec fn units(self) -> int {
        if self.0 >= SIGN_BIT {
            -magnitude_units(self.magnitude_spec())
        } else {
            magnitude_units(self.magnitude_spec())
        }
    }

    /// Numerically less.
    pub open spec fn lt_spec(self, other: Scalar) -> bool {
        self.is_number() && other.is_number() && self.order() < other.order()
    }

    pub fn less(self, other: Scalar) -> (r: bool)
        ensures
            r == self.lt_spec(other),
    {
        let (a, b): (u64, u64) = (self.magnitude(), other.magnitude());
        if a > INFINITY_BITS || b > INFINITY_BITS {
            return false;
        }
        if self.0 >= SIGN_BIT {
            if other.0 >= SIGN_BIT {
                b < a
            } else {
                a > 0 || b > 0
            }
        } else if other.0 >= SIGN_BIT {
            false
        } else {
            a < b
        }
    }

    /// Greater than zero.
    pub fn is_positive(self) -> (r: bool)
        ensures
            r == Scalar(0).lt_spec(self),
    {
        Scalar(0).less(self)
    }

    /// Farther from zero than `other`.
    pub fn exceeds(self, other: Scalar) -> (r: bool)
        ensures
            r == (self.is_number() && other.is_number() && self.magnitude_spec()
                > other.magnitude_spec()),
    {
        let (a, b): (u64, u64) = (self.magnitude(), other.magnitude());
        a <= INFINITY_BITS && b <= INFINITY_BITS && a > b
    }

    /// Numerically equal.
    pub open spec fn same_spec(self, other: Scalar) -> bool {
        self.is_number() && other.is_number() && self.order() == other.order()
    }

    pub fn same(self, other: Scalar) -> (r: bool)
        ensures
            r == self.same_spec(other),
    {
        let (a, b): (u64, u64) = (self.magnitude(), other.magnitude());
        a <= INFINITY_BITS && b <= INFINITY_BITS && (self.0 == other.0 || (a == 0 && b == 0))
    }

    /// The greater of two numbers; what is not a number gives way.
    pub open spec fn max_spec(self, other: Scalar) -> Scalar {
        if !self.is_number() || self.lt_spec(other) {
            other
        } else {
            self
        }
    }

    pub fn max(self, other: Scalar) -> (r: Scalar)
        ensures
            r == self.max_spec(other),
    {
        if self.magnitude() > INFINITY_BITS || self.less(other) {
            other
        } else {
            self
        }
    }

    /// The lesser of two numbers; what is not a number gives way.
    pub open spec fn min_spec(self, other: Scalar) -> Scalar {
        if !self.is_number() || other.lt_spec(self) {
            other
        } else {
            self
        }
    }

    pub fn min(self, other: Scalar) -> (r: Scalar)
        ensures
            r == self.min_spec(other),
    {
        if self.magnitude() > INFINITY_BITS || other.less(self) {
            other
        } else {
            self
        }
    }
}

#[derive(Clone, Copy, PartialEq, Eq, Structural, Debug)]
pub struct Point {
    pub x: Scalar,
    pub y: Scalar,
}

#[derive(Clone, Copy, PartialEq, Eq, Structural, Debug)]
pub struct Size {
    pub width: Scalar,
    pub height: Scalar,
}

#[derive(Clone, Copy, PartialEq, Eq, Structural, Debug)]
pub struct Rect {
    pub origin: Point,
    pub size: Size,
}

impl Rect {
    /// Numerically equal on every side.
    pub open spec fn same_spec(self, other: Rect) -> bool {
        self.origin.x.same_spec(other.origin.x) && self.origin.y.same_spec(other.origin.y)
            && self.size.width.same_spec(other.size.width) && self.size.height.same_spec(
            other.size.height,
        )
    }

    pub fn same(self, other: Rect) -> (r: bool)
        ensures
            r == self.same_spec(other),
    {
        self.origin.x.same(other.origin.x) && self.origin.y.same(other.origin.y)
            && self.size.width.same(other.size.width) && self.size.height.same(other.size.height)
    }
}

/// Straight RGBA.
#[derive(Clone, Copy, PartialEq, Eq, Structural, Debug)]
pub struct Color {
    pub r: Scalar,
    pub g: Scalar,
    pub b: Scalar,
    pub a: Scalar,
}

/// Of two numbers one is less or they are the same, and never both; nothing is less than itself, and
/// what is not a number is neither less than, nor the same as, anything.
pub proof fn law_numbers_are_ordered(
    a: Scalar,
    b: Scalar,
    below: bool,
    above: bool,
    same: bool,
    itself: bool,
)
    requires
        call_ensures(Scalar::less, (a, b), below),
        call_ensures(Scalar::less, (b, a), above),
        call_ensures(Scalar::same, (a, b), same),
        call_ensures(Scalar::same, (a, a), itself),
    ensures
        !(below && above) && !(below && same) && !(above && same),
        a.is_number() && b.is_number() ==> below || above || same,
        !a.is_number() || !b.is_number() ==> !below && !above && !same,
        itself <==> a.is_number(),
{
}

/// Bits up to those of infinity, signed or not, are a number. Unsigned ones order as they are, signed ones
/// the other way round, and the two zeros are the same.
pub proof fn law_bits_order_as_numbers(
    a: u64,
    b: u64,
    plus: bool,
    minus: bool,
    across: bool,
    zeros: bool,
    infinite: bool,
)
    requires
        a <= 0x7ff0_0000_0000_0000 && b <= 0x7ff0_0000_0000_0000,
        call_ensures(Scalar::less, (Scalar(a), Scalar(b)), plus),
        call_ensures(
            Scalar::less,
            (
                Scalar((a + 0x8000_0000_0000_0000) as u64),
                Scalar((b + 0x8000_0000_0000_0000) as u64),
            ),
            minus,
        ),
        call_ensures(Scalar::less, (Scalar((a + 0x8000_0000_0000_0000) as u64), Scalar(b)), across),
        call_ensures(Scalar::same, (Scalar(0), Scalar(0x8000_0000_0000_0000)), zeros),
        call_ensures(Scalar::same, (Scalar(0x7ff0_0000_0000_0001), Scalar(0x7ff0_0000_0000_0001)), infinite),
    ensures
        plus <==> a < b,
        minus <==> b < a,
        across <==> a > 0 || b > 0,
        zeros,
        !infinite,
{
}

/// The greater and the lesser of two numbers are one of them each, and nothing lies beyond; beside what is
/// not a number the other one is taken.
pub proof fn law_max_and_min_are_one_of_the_two(
    a: Scalar,
    b: Scalar,
    max: Scalar,
    min: Scalar,
    above: bool,
    below: bool,
)
    requires
        call_ensures(Scalar::max, (a, b), max),
        call_ensures(Scalar::min, (a, b), min),
        call_ensures(Scalar::less, (a, b), below),
        call_ensures(Scalar::less, (b, a), above),
    ensures
        max == a || max == b,
        min == a || min == b,
        below ==> max == b && min == a,
        above ==> max == a && min == b,
        !a.is_number() ==> max == b && min == b,
        a.is_number() && !b.is_number() ==> max == a && min == a,
{
}

/// One number exceeds another where it lies farther from zero, on either side; a positive one lies above
/// zero.
pub proof fn law_magnitude_is_the_distance_from_zero(
    a: Scalar,
    b: Scalar,
    farther: bool,
    positive: bool,
    above: bool,
    m: u64,
)
    requires
        call_ensures(Scalar::exceeds, (a, b), farther),
        call_ensures(Scalar::is_positive, (a,), positive),
        call_ensures(Scalar::less, (Scalar(0), a), above),
        call_ensures(Scalar::magnitude, (a,), m),
    ensures
        positive == above,
        a.0 < 0x8000_0000_0000_0000 ==> m == a.0,
        a.0 >= 0x8000_0000_0000_0000 ==> m == a.0 - 0x8000_0000_0000_0000,
        farther ==> a.is_number() && b.is_number(),
        a.is_number() && b.is_number() && 0 <= b.order() ==> (farther <==> a.order() > b.order()
            || a.order() < -b.order()),
        a.is_number() && b.is_number() && b.order() <= 0 ==> (farther <==> a.order() < b.order()
            || a.order() > -b.order()),
{
}

/// Two frames are the same exactly where all four numbers are.
pub proof fn law_frames_are_compared_side_by_side(
    a: Rect,
    b: Rect,
    r: bool,
    x: bool,
    y: bool,
    w: bool,
    h: bool,
)
    requires
        call_ensures(Rect::same, (a, b), r),
        call_ensures(Scalar::same, (a.origin.x, b.origin.x), x),
        call_ensures(Scalar::same, (a.origin.y, b.origin.y), y),
        call_ensures(Scalar::same, (a.size.width, b.size.width), w),
        call_ensures(Scalar::same, (a.size.height, b.size.height), h),
    ensures
        r <==> x && y && w && h,
{
}

} // verus!
