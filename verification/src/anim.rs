//! Animations: what a change is animated as. The render server runs it; no frame is ticked here.

use crate::types::{Scalar, ONE_BITS};
use vstd::prelude::*;

verus! {

/// The bits of 0.01 and 0.05.
pub const SHORTEST: u64 = 0x3f84_7ae1_47ae_147b;

pub const SHORTEST_SPRING: u64 = 0x3fa9_9999_9999_999a;

/// The least damping, 0.05 too.
pub const LEAST_DAMPING: u64 = 0x3fa9_9999_9999_999a;

#[derive(Clone, Copy, PartialEq, Eq, Structural, Debug)]
pub enum Curve {
    Linear,
    EaseIn,
    EaseOut,
    EaseInOut,
    Spring { damping: Scalar },
}

/// An animation as asked for; times in seconds.
#[derive(Clone, Copy, PartialEq, Eq, Structural, Debug)]
pub struct AnimSpec {
    pub curve: Curve,
    pub duration: Scalar,
    pub delay: Scalar,
}

#[derive(Clone, Copy, PartialEq, Eq, Structural, Debug)]
pub enum Timing {
    Linear,
    EaseIn,
    EaseOut,
    EaseInOut,
}

#[derive(Clone, Copy, PartialEq, Eq, Structural, Debug)]
pub enum AnimPlan {
    /// Not animated: the change is made at once.
    Now,
    /// The duration is authoritative; the damping shapes the bounce.
    Spring { duration: Scalar, delay: Scalar, damping: Scalar },
    Timed { duration: Scalar, delay: Scalar, timing: Timing },
}

/// A spring's damping within its bounds; what is not a number is left as it is.
pub open spec fn damped(damping: Scalar) -> Scalar {
    if damping.lt_spec(Scalar(LEAST_DAMPING)) {
        Scalar(LEAST_DAMPING)
    } else if Scalar(ONE_BITS).lt_spec(damping) {
        Scalar(ONE_BITS)
    } else {
        damping
    }
}

/// The timing of a curve; springs have none of their own.
pub open spec fn timing_of(curve: Curve) -> Timing {
    match curve {
        Curve::Linear => Timing::Linear,
        Curve::EaseIn => Timing::EaseIn,
        Curve::EaseOut => Timing::EaseOut,
        Curve::EaseInOut => Timing::EaseInOut,
        Curve::Spring { .. } => Timing::EaseInOut,
    }
}

pub fn uiview_anim_options(curve: Curve) -> (r: Timing)
    ensures
        r == timing_of(curve),
{
    match curve {
        Curve::Linear => Timing::Linear,
        Curve::EaseIn => Timing::EaseIn,
        Curve::EaseOut => Timing::EaseOut,
        Curve::EaseInOut => Timing::EaseInOut,
        Curve::Spring { .. } => Timing::EaseInOut,
    }
}

pub open spec fn plan_of(anim: Option<AnimSpec>) -> AnimPlan {
    match anim {
        None => AnimPlan::Now,
        Some(a) => match a.curve {
            Curve::Spring { damping } => AnimPlan::Spring {
                duration: a.duration.max_spec(Scalar(SHORTEST_SPRING)),
                delay: a.delay.max_spec(Scalar(0)),
                damping: damped(damping),
            },
            curve => AnimPlan::Timed {
                duration: a.duration.max_spec(Scalar(SHORTEST)),
                delay: a.delay.max_spec(Scalar(0)),
                timing: timing_of(curve),
            },
        },
    }
}

/// What a change is animated as.
pub fn with_uikit_anim(anim: Option<AnimSpec>) -> (r: AnimPlan)
    ensures
        r == plan_of(anim),
{
    match anim {
        None => AnimPlan::Now,
        Some(a) => {
            let delay = a.delay.max(Scalar(0));
            match a.curve {
                Curve::Spring { damping } => {
                    let damping = if damping.less(Scalar(LEAST_DAMPING)) {
                        Scalar(LEAST_DAMPING)
                    } else if Scalar(ONE_BITS).less(damping) {
                        Scalar(ONE_BITS)
                    } else {
                        damping
                    };
                    AnimPlan::Spring {
                        duration: a.duration.max(Scalar(SHORTEST_SPRING)),
                        delay,
                        damping,
                    }
                },
                curve => AnimPlan::Timed {
                    duration: a.duration.max(Scalar(SHORTEST)),
                    delay,
                    timing: uiview_anim_options(curve),
                },
            }
        },
    }
}

/// An animation always takes some time and never starts in the past.
pub proof fn law_animations_take_time(anim: AnimSpec)
    ensures
        match plan_of(Some(anim)) {
            AnimPlan::Now => false,
            AnimPlan::Spring { duration, delay, .. } => Scalar(0).lt_spec(duration)
                && delay.is_number() && !delay.lt_spec(Scalar(0)),
            AnimPlan::Timed { duration, delay, .. } => Scalar(0).lt_spec(duration)
                && delay.is_number() && !delay.lt_spec(Scalar(0)),
        },
{
}

/// A change without an animation is made at once, and one with an animation never is: a spring as a
/// spring, every other curve with its own timing.
pub proof fn law_curve_asked_for_is_run(anim: AnimSpec, now: AnimPlan, r: AnimPlan)
    requires
        call_ensures(with_uikit_anim, (None::<AnimSpec>,), now),
        call_ensures(with_uikit_anim, (Some(anim),), r),
    ensures
        now is Now,
        r is Spring <==> anim.curve is Spring,
        r is Timed <==> !(anim.curve is Spring),
        r matches AnimPlan::Timed { timing, .. } ==> {
            &&& timing == Timing::Linear <==> anim.curve is Linear
            &&& timing == Timing::EaseIn <==> anim.curve is EaseIn
            &&& timing == Timing::EaseOut <==> anim.curve is EaseOut
            &&& timing == Timing::EaseInOut <==> anim.curve is EaseInOut
        },
{
}

/// The platform's option is the curve's own; a spring eases at both ends.
pub proof fn law_option_is_the_curves(curve: Curve, r: Timing)
    requires
        call_ensures(uiview_anim_options, (curve,), r),
    ensures
        r == Timing::Linear <==> curve is Linear,
        r == Timing::EaseIn <==> curve is EaseIn,
        r == Timing::EaseOut <==> curve is EaseOut,
        r == Timing::EaseInOut <==> curve is EaseInOut || curve is Spring,
{
}

/// A time asked for is the time taken, as long as it is not shorter than a hundredth of a second, or for
/// a spring a twentieth; a delay is kept unless it lies in the past.
pub proof fn law_times_asked_for_are_taken(anim: AnimSpec, r: AnimPlan)
    requires
        call_ensures(with_uikit_anim, (Some(anim),), r),
        anim.duration.is_number() && anim.delay.is_number(),
    ensures
        ({
            let (duration, delay, least) = match r {
                AnimPlan::Now => (anim.duration, anim.delay, 0int),
                AnimPlan::Timed { duration, delay, .. } => (
                    duration,
                    delay,
                    0x3f84_7ae1_47ae_147bint,
                ),
                AnimPlan::Spring { duration, delay, .. } => (
                    duration,
                    delay,
                    0x3fa9_9999_9999_999aint,
                ),
            };
            &&& anim.duration.order() >= least ==> duration == anim.duration
            &&& anim.duration.order() < least ==> duration.order() == least
            &&& anim.delay.order() >= 0 ==> delay == anim.delay
            &&& anim.delay.order() < 0 ==> delay.order() == 0
        }),
{
}

/// A spring's damping is kept between a twentieth and one.
pub proof fn law_damping_stays_in_bounds(
    damping: Scalar,
    duration: Scalar,
    delay: Scalar,
    r: AnimPlan,
)
    requires
        damping.is_number(),
        call_ensures(
            with_uikit_anim,
            (Some(AnimSpec { curve: Curve::Spring { damping }, duration, delay }),),
            r,
        ),
    ensures
        r matches AnimPlan::Spring { damping: d, .. } && {
            &&& 0x3fa9_9999_9999_999a <= damping.order() <= 0x3ff0_0000_0000_0000 ==> d == damping
            &&& damping.order() < 0x3fa9_9999_9999_999a ==> d == Scalar(0x3fa9_9999_9999_999a)
            &&& damping.order() > 0x3ff0_0000_0000_0000 ==> d == Scalar(0x3ff0_0000_0000_0000)
        },
{
}

} // verus!
