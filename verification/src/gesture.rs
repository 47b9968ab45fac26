//! Gestures: one recognizer per kind and view, and what each reports.

use crate::event::{Event, Phase};
use crate::types::{Point, Scalar, ONE_BITS};
use std::collections::HashMap;
use vstd::prelude::*;

verus! {

broadcast use vstd::std_specs::hash::group_hash_axioms;

#[derive(Clone, Copy, PartialEq, Eq, Structural, Debug)]
pub enum GestureKind {
    Tap,
    Drag,
    Pan,
    Pinch,
    Hover,
}

#[derive(Clone, Copy, PartialEq, Eq, Structural, Debug)]
pub enum RecognizerState {
    Possible,
    Began,
    Changed,
    Ended,
    Cancelled,
    Failed,
}

/// The recognizer to attach. A pan takes two fingers, so that single-finger drags still reach a
/// drag on the same view; drags and pans answer their own delegate questions.
#[derive(Clone, Copy, PartialEq, Eq, Structural, Debug)]
pub struct Recognizer {
    pub kind: GestureKind,
    pub touches: Option<usize>,
    pub delegate: bool,
}

/// What a recognizer's fire reports, and whether its travel is zeroed so that the next fire
/// reports only the movement since this one.
pub struct GestureFired {
    pub event: Event,
    pub reset: bool,
}

pub open spec fn zero_point() -> Point {
    Point { x: Scalar(0), y: Scalar(0) }
}

pub open spec fn phase_spec(state: RecognizerState) -> Phase {
    match state {
        RecognizerState::Began => Phase::Began,
        RecognizerState::Ended => Phase::Ended,
        RecognizerState::Cancelled => Phase::Ended,
        RecognizerState::Failed => Phase::Ended,
        _ => Phase::Changed,
    }
}

pub fn phase_of(state: RecognizerState) -> (r: Phase)
    ensures
        r == phase_spec(state),
{
    match state {
        RecognizerState::Began => Phase::Began,
        RecognizerState::Ended => Phase::Ended,
        RecognizerState::Cancelled => Phase::Ended,
        RecognizerState::Failed => Phase::Ended,
        _ => Phase::Changed,
    }
}

/// A recognizer fired at `at`. `travel` is a pan recognizer's own movement, `scale` a pinch
/// recognizer's, which counts from its beginning.
pub fn fire(
    kind: GestureKind,
    state: RecognizerState,
    at: Point,
    travel: Option<Point>,
    scale: Option<Scalar>,
) -> (r: GestureFired)
    ensures
        r.reset == (kind == GestureKind::Pan && travel is Some),
        r.event == (match kind {
            GestureKind::Drag => Event::Drag {
                phase: phase_spec(state),
                location: at,
                travel: match travel {
                    Some(t) => t,
                    None => zero_point(),
                },
            },
            GestureKind::Pan => Event::Pan {
                phase: phase_spec(state),
                delta: match travel {
                    Some(t) => t,
                    None => zero_point(),
                },
                location: at,
            },
            GestureKind::Pinch => Event::Pinch {
                phase: phase_spec(state),
                scale: match scale {
                    Some(s) => s,
                    None => Scalar(ONE_BITS),
                },
                location: at,
            },
            GestureKind::Hover => Event::Hover { phase: phase_spec(state), location: at },
            GestureKind::Tap => Event::Tap(at),
        }),
{
    let phase = phase_of(state);
    let moved = match travel {
        Some(t) => t,
        None => Point { x: Scalar(0), y: Scalar(0) },
    };
    match kind {
        GestureKind::Drag => GestureFired {
            event: Event::Drag { phase, location: at, travel: moved },
            reset: false,
        },
        GestureKind::Pan => GestureFired {
            event: Event::Pan { phase, delta: moved, location: at },
            reset: travel.is_some(),
        },
        GestureKind::Pinch => {
            let scale = match scale {
                Some(s) => s,
                None => Scalar(ONE_BITS),
            };
            GestureFired { event: Event::Pinch { phase, scale, location: at }, reset: false }
        },
        GestureKind::Hover => GestureFired {
            event: Event::Hover { phase, location: at },
            reset: false,
        },
        GestureKind::Tap => GestureFired { event: Event::Tap(at), reset: false },
    }
}

/// Drags and pans share their touches with other recognizers.
pub fn recognizes_simultaneously(kind: GestureKind) -> (r: bool)
    ensures
        r == (kind == GestureKind::Drag || kind == GestureKind::Pan),
{
    match kind {
        GestureKind::Drag => true,
        GestureKind::Pan => true,
        _ => false,
    }
}

/// Whether a recognizer may begin: a pan inside a scroll view leaves a mostly vertical movement
/// to the scroll. `velocity` is a pan recognizer's, `None` for any other.
pub fn should_begin(velocity: Option<Point>, inside_scroll: bool) -> (r: bool)
    ensures
        r == !(inside_scroll && velocity is Some && velocity->0.y.is_number()
            && velocity->0.x.is_number() && velocity->0.y.magnitude_spec()
            > velocity->0.x.magnitude_spec()),
{
    match velocity {
        Some(v) => !(inside_scroll && v.y.exceeds(v.x)),
        None => true,
    }
}

/// The gestures enabled on each view.
pub struct Gestures {
    pub kinds: HashMap<usize, Vec<GestureKind>>,
}

impl Gestures {
    /// The kinds enabled on `h`.
    pub open spec fn on(self, h: usize) -> Seq<GestureKind> {
        if self.kinds@.dom().contains(h) {
            self.kinds@[h]@
        } else {
            Seq::empty()
        }
    }

    /// No view has two recognizers of one kind.
    pub open spec fn wf(self) -> bool {
        forall|h: usize| (#[trigger] self.on(h)).no_duplicates()
    }

    /// No view has one.
    pub open spec fn nowhere(self) -> bool {
        forall|h: usize| (#[trigger] self.on(h)).len() == 0
    }

    /// Every view but `h` has what it had.
    pub open spec fn same_elsewhere(self, before: Gestures, h: usize) -> bool {
        forall|o: usize| o != h ==> #[trigger] self.on(o) == before.on(o)
    }

    pub fn new() -> (g: Gestures)
        ensures
            g.wf(),
            g.nowhere(),
    {
        Gestures { kinds: HashMap::new() }
    }

    fn has(&self, h: usize, kind: GestureKind) -> (r: bool)
        ensures
            r == self.on(h).contains(kind),
    {
        match self.kinds.get(&h) {
            None => false,
            Some(kinds) => {
                let n: usize = kinds.len();
                for i in 0..n
                    invariant
                        n == kinds@.len(),
                        kinds@ == self.on(h),
                        forall|j: int| 0 <= j < i ==> kinds@[j] != kind,
                {
                    if kinds[i] == kind {
                        return true;
                    }
                }
                false
            },
        }
    }

    /// Enable `kind` on `h`; the recognizer to attach, unless there is one already.
    pub fn enable(&mut self, h: usize, kind: GestureKind) -> (r: Option<Recognizer>)
        requires
            old(self).wf(),
        ensures
            final(self).wf(),
            r is None == old(self).on(h).contains(kind),
            r matches Some(rec) ==> rec == (Recognizer {
                kind,
                touches: if kind == GestureKind::Pan {
                    Some(2usize)
                } else {
                    None
                },
                delegate: kind == GestureKind::Drag || kind == GestureKind::Pan,
            }),
            final(self).on(h) == (if r is Some {
                old(self).on(h).push(kind)
            } else {
                old(self).on(h)
            }),
            final(self).same_elsewhere(*old(self), h),
    {
        if self.has(h, kind) {
            return None;
        }
        let mut kinds = match self.kinds.remove(&h) {
            Some(kinds) => kinds,
            None => Vec::new(),
        };
        proof {
            assert(kinds@ == old(self).on(h));
            assert(kinds@.no_duplicates());
        }
        kinds.push(kind);
        self.kinds.insert(h, kinds);
        proof {
            assert(self.on(h) == old(self).on(h).push(kind));
            assert(self.on(h).no_duplicates());
            assert forall|o: usize| o != h implies #[trigger] self.on(o) == old(self).on(o) by {}
            assert forall|o: usize| (#[trigger] self.on(o)).no_duplicates() by {
                if o != h {
                    assert(self.on(o) == old(self).on(o));
                }
            }
        }
        let touches = match kind {
            GestureKind::Pan => Some(2usize),
            _ => None,
        };
        let delegate = recognizes_simultaneously(kind);
        Some(Recognizer { kind, touches, delegate })
    }

    /// The view is gone.
    pub fn release(&mut self, h: usize)
        requires
            old(self).wf(),
        ensures
            final(self).wf(),
            final(self).on(h).len() == 0,
            final(self).same_elsewhere(*old(self), h),
    {
        self.kinds.remove(&h);
        proof {
            assert forall|o: usize| o != h implies #[trigger] self.on(o) == old(self).on(o) by {}
            assert forall|o: usize| (#[trigger] self.on(o)).no_duplicates() by {
                if o != h {
                    assert(self.on(o) == old(self).on(o));
                }
            }
        }
    }
}

/// A gesture has begun when its recognizer says so, is over when that has ended in any way, and goes on
/// otherwise.
pub proof fn law_phase_follows_the_recognizer(state: RecognizerState, r: Phase)
    requires
        call_ensures(phase_of, (state,), r),
    ensures
        r == Phase::Began <==> state == RecognizerState::Began,
        r == Phase::Ended <==> state == RecognizerState::Ended || state == RecognizerState::Cancelled
            || state == RecognizerState::Failed,
        r == Phase::Changed <==> state == RecognizerState::Changed || state == RecognizerState::Possible,
{
}

/// Each kind of gesture reports where it is, in the phase of its recognizer, with the movement or scale
/// the recognizer measured; one that measured none has not moved, and is at its first scale. Only a
/// pan that measured its travel starts it anew.
pub proof fn law_gesture_reports_what_was_measured(
    state: RecognizerState,
    at: Point,
    travel: Point,
    scale: Scalar,
    phase: Phase,
    drag: GestureFired,
    pan: GestureFired,
    pinch: GestureFired,
    hover: GestureFired,
    tap: GestureFired,
)
    requires
        call_ensures(phase_of, (state,), phase),
        call_ensures(fire, (GestureKind::Drag, state, at, Some(travel), None::<Scalar>), drag),
        call_ensures(fire, (GestureKind::Pan, state, at, Some(travel), None::<Scalar>), pan),
        call_ensures(fire, (GestureKind::Pinch, state, at, None::<Point>, Some(scale)), pinch),
        call_ensures(fire, (GestureKind::Hover, state, at, None::<Point>, None::<Scalar>), hover),
        call_ensures(fire, (GestureKind::Tap, state, at, None::<Point>, None::<Scalar>), tap),
    ensures
        drag.event == (Event::Drag { phase, location: at, travel }) && !drag.reset,
        pan.event == (Event::Pan { phase, delta: travel, location: at }) && pan.reset,
        pinch.event == (Event::Pinch { phase, scale, location: at }) && !pinch.reset,
        hover.event == (Event::Hover { phase, location: at }) && !hover.reset,
        tap.event == Event::Tap(at) && !tap.reset,
{
}

/// A recognizer that measured nothing reports no movement, and a scale of one.
pub proof fn law_nothing_measured_is_no_movement(
    state: RecognizerState,
    at: Point,
    phase: Phase,
    drag: GestureFired,
    pan: GestureFired,
    pinch: GestureFired,
)
    requires
        call_ensures(phase_of, (state,), phase),
        call_ensures(fire, (GestureKind::Drag, state, at, None::<Point>, None::<Scalar>), drag),
        call_ensures(fire, (GestureKind::Pan, state, at, None::<Point>, None::<Scalar>), pan),
        call_ensures(fire, (GestureKind::Pinch, state, at, None::<Point>, None::<Scalar>), pinch),
    ensures
        drag.event == (Event::Drag {
            phase,
            location: at,
            travel: Point { x: Scalar(0), y: Scalar(0) },
        }),
        pan.event == (Event::Pan { phase, delta: Point { x: Scalar(0), y: Scalar(0) }, location: at })
            && !pan.reset,
        pinch.event == (Event::Pinch { phase, scale: Scalar(0x3ff0_0000_0000_0000), location: at }),
{
}

/// Drags and pans, and no others, share their touches.
pub proof fn law_drags_and_pans_share_touches(kind: GestureKind, r: bool)
    requires
        call_ensures(recognizes_simultaneously, (kind,), r),
    ensures
        r <==> kind == GestureKind::Drag || kind == GestureKind::Pan,
{
}

/// A movement inside a scroll view is the scroll's where it is steeper than it is wide; every other one
/// is the gesture's, and outside a scroll view all are.
pub proof fn law_steep_movement_is_the_scrolls(v: Point, inside: bool, outside: bool, unmoved: bool, any: bool)
    requires
        v.x.is_number() && v.y.is_number(),
        call_ensures(should_begin, (Some(v), true), inside),
        call_ensures(should_begin, (Some(v), false), outside),
        call_ensures(should_begin, (None::<Point>, any), unmoved),
    ensures
        outside && unmoved,
        inside <==> -v.x.magnitude_spec() <= v.y.order() <= v.x.magnitude_spec(),
{
}

/// A gesture enabled is recognized from then on, by one recognizer of its own kind: two fingers for a pan
/// and any number else. Asked for twice it is not attached twice, and no other gesture or view is
/// touched.
pub proof fn law_enabled_gesture_is_attached_once(
    first: &mut Gestures,
    second: &mut Gestures,
    h: usize,
    other: usize,
    kind: GestureKind,
    a: Option<Recognizer>,
    b: Option<Recognizer>,
    shares: bool,
)
    requires
        !old(first).on(h).contains(kind),
        other != h,
        call_ensures(Gestures::enable, (first, h, kind), a),
        *final(first) == *old(second),
        call_ensures(Gestures::enable, (second, h, kind), b),
        call_ensures(recognizes_simultaneously, (kind,), shares),
    ensures
        a matches Some(rec) && rec.kind == kind && rec.delegate == shares && (if kind
            == GestureKind::Pan {
            rec.touches == Some(2usize)
        } else {
            rec.touches is None
        }),
        b is None,
        final(first).on(h).contains(kind),
        final(first).on(h).len() == old(first).on(h).len() + 1,
        forall|k: GestureKind|
            k != kind ==> (#[trigger] final(first).on(h).contains(k) <==> old(first).on(h).contains(k)),
        final(second).on(h) == final(first).on(h),
        final(second).on(other) == old(first).on(other),
{
    let before = old(first).on(h);
    let after = final(first).on(h);
    assert(after[before.len() as int] == kind);
    assert forall|k: GestureKind| k != kind implies (#[trigger] after.contains(k) <==> before.contains(
        k,
    )) by {
        if before.contains(k) {
            let i = choose|i: int| 0 <= i < before.len() && before[i] == k;
            assert(after[i] == k);
        }
        if after.contains(k) {
            let i = choose|i: int| 0 <= i < after.len() && after[i] == k;
            assert(before[i] == k);
        }
    }
    assert(final(first).on(other) == old(first).on(other));
}

/// A released view has no gesture left, and every other view keeps its own.
pub proof fn law_released_view_has_no_gesture(g: &mut Gestures, h: usize, other: usize)
    requires
        other != h,
        call_ensures(Gestures::release, (g, h), ()),
    ensures
        final(g).on(h).len() == 0,
        final(g).on(other) == old(g).on(other),
{
}

/// No view has a gesture at first.
pub proof fn law_no_view_has_a_gesture_at_first(g: Gestures, h: usize)
    requires
        call_ensures(Gestures::new, (), g),
    ensures
        g.on(h).len() == 0,
{
}

} // verus!
