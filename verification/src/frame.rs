//! Where content goes inside a page or the window root: content that absorbs the bars itself
//! takes the whole bounds, everything else is pinned inside the safe area; and the window root
//! reports a size only when its base frame really changed.

use crate::types::{Rect, Target};
use vstd::prelude::*;

verus! {

/// How many wrappers between a page and its leaf are looked through.
pub const LEAF_DEPTH: usize = 6;

/// One level on the way down: how many children the view has, and what its only child is.
#[derive(Clone, Copy, PartialEq, Eq, Structural, Debug)]
pub struct LeafLevel {
    pub children: usize,
    /// The child is the view of a navigation, split or tab controller.
    pub hosted: bool,
    /// The child is a scroll view.
    pub scroll: bool,
}

/// Level `k` ends the walk on content that absorbs the bars: it and everything above it has one
/// child, and the child is a host or a scroll view.
pub open spec fn absorbs_at(levels: Seq<LeafLevel>, k: int) -> bool {
    &&& 0 <= k < levels.len()
    &&& k < LEAF_DEPTH
    &&& (levels[k].hosted || levels[k].scroll)
    &&& forall|j: int| 0 <= j <= k ==> (#[trigger] levels[j]).children == 1
}

/// Some level ends the walk on content that absorbs the bars.
pub open spec fn absorbs(levels: Seq<LeafLevel>) -> bool {
    exists|k: int| absorbs_at(levels, k)
}

/// Whether a page's content is one thing that absorbs the bars itself. `levels` are the views on
/// the way down through single children.
pub fn scroll_leaf(levels: &Vec<LeafLevel>) -> (r: bool)
    ensures
        r == absorbs(levels@),
{
    let mut k: usize = 0;
    while k < levels.len() && k < LEAF_DEPTH
        invariant
            k <= levels@.len(),
            k <= LEAF_DEPTH,
            forall|j: int| 0 <= j < k ==> (#[trigger] levels@[j]).children == 1,
            forall|j: int| 0 <= j < k ==> !absorbs_at(levels@, j),
        decreases LEAF_DEPTH - k,
    {
        if levels[k].children != 1 {
            proof {
                assert forall|j: int| !absorbs_at(levels@, j) by {
                    if j >= k {
                        assert(levels@[k as int].children != 1);
                    }
                }
            }
            return false;
        }
        if levels[k].hosted || levels[k].scroll {
            proof {
                assert(absorbs_at(levels@, k as int));
            }
            return true;
        }
        k = k + 1;
    }
    false
}

/// One connected window as its holder sees it.
#[derive(Clone, Copy, PartialEq, Eq, Structural, Debug)]
pub struct HolderScene {
    pub base: Rect,
    pub target: Target,
}

/// What a layout pass of a window's holder reports: the frame its root takes and remembers, and
/// whom the new size is reported to. The primary window's frame is also the launch frame.
#[derive(Clone, Copy, PartialEq, Eq, Structural, Debug)]
pub struct HolderLayout {
    pub frame: Rect,
    pub target: Target,
    pub primary: bool,
}

/// A layout pass that computed `inner`. Nothing happens before the holder's window is in a scene,
/// nor while its base frame stays what it was: a keyboard that shrinks the root does not change
/// the base.
pub fn holder_layout(scene: Option<HolderScene>, inner: Rect) -> (r: Option<HolderLayout>)
    ensures
        match scene {
            None => r is None,
            Some(s) => if inner.same_spec(s.base) {
                r is None
            } else {
                r == Some(
                    HolderLayout {
                        frame: inner,
                        target: s.target,
                        primary: s.target == Target::Window,
                    },
                )
            },
        },
{
    match scene {
        None => None,
        Some(s) => {
            if inner.same(s.base) {
                return None;
            }
            let primary = match s.target {
                Target::Window => true,
                Target::Node(_) => false,
            };
            Some(HolderLayout { frame: inner, target: s.target, primary })
        },
    }
}

/// A page with two children at any level on the way down keeps the safe-area pin.
pub proof fn law_two_children_never_bleed(levels: Seq<LeafLevel>, j: int, k: int)
    requires
        0 <= j <= k,
        j < levels.len(),
        levels[j].children != 1,
    ensures
        !absorbs_at(levels, k),
{
}

/// A page absorbs the bars where its content is one host or scroll view, looked for through at most six
/// levels of single children; and nowhere else.
pub proof fn law_single_scroll_absorbs_the_bars(levels: &Vec<LeafLevel>, k: int, r: bool)
    requires
        call_ensures(scroll_leaf, (levels,), r),
    ensures
        0 <= k < levels@.len() && k < 6 && (levels@[k].hosted || levels@[k].scroll) && (forall|j: int|
            0 <= j <= k ==> (#[trigger] levels@[j]).children == 1) ==> r,
        levels@.len() == 0 ==> !r,
        levels@.len() > 0 && levels@[0].children != 1 ==> !r,
        (forall|j: int|
            0 <= j < levels@.len() && j < 6 ==> !(#[trigger] levels@[j]).hosted && !levels@[j].scroll)
            ==> !r,
{
    assert(r == absorbs(levels@));
    if 0 <= k < levels@.len() && k < 6 && (levels@[k].hosted || levels@[k].scroll) && (forall|j: int|
        0 <= j <= k ==> (#[trigger] levels@[j]).children == 1) {
        assert(absorbs_at(levels@, k));
    }
    if r {
        let w = choose|w: int| absorbs_at(levels@, w);
        assert(levels@[0].children == 1);
        assert(levels@[w].hosted || levels@[w].scroll);
    }
}

/// A window's root takes the frame laid out for it, and reports it to whom the window reports, exactly
/// when it is another than before; only the window itself is the primary one.
pub proof fn law_root_reports_a_changed_frame(
    scene: HolderScene,
    inner: Rect,
    r: Option<HolderLayout>,
    none: Option<HolderLayout>,
)
    requires
        call_ensures(holder_layout, (Some(scene), inner), r),
        call_ensures(holder_layout, (None::<HolderScene>, inner), none),
        inner.origin.x.is_number() && inner.origin.y.is_number() && inner.size.width.is_number()
            && inner.size.height.is_number(),
    ensures
        none is None,
        inner == scene.base ==> r is None,
        inner.origin.x.order() != scene.base.origin.x.order() || inner.origin.y.order()
            != scene.base.origin.y.order() || inner.size.width.order() != scene.base.size.width.order()
            || inner.size.height.order() != scene.base.size.height.order() ==> r is Some,
        r matches Some(l) ==> l.frame == inner && l.target == scene.target && (l.primary <==> l.target
            is Window),
{
}

} // verus!
