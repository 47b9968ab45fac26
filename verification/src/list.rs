//! The recycling list: reordering under the app's guard, swipe actions, selection and scrolling.

use crate::event::Event;
use crate::types::{Color, NodeId, Scalar};
use vstd::prelude::*;

verus! {

/// The bits of the default row height, 44 points.
pub const DEFAULT_ROW_HEIGHT: u64 = 0x4046_0000_0000_0000;

#[derive(Clone, Copy, PartialEq, Eq, Structural, Debug)]
pub enum RowHeight {
    Uniform(Scalar),
    Automatic,
}

pub open spec fn height_of(h: RowHeight) -> Scalar {
    match h {
        RowHeight::Uniform(h) => h,
        RowHeight::Automatic => Scalar(DEFAULT_ROW_HEIGHT),
    }
}

/// A row's height in points.
pub fn row_height(h: RowHeight) -> (r: Scalar)
    ensures
        r == height_of(h),
{
    match h {
        RowHeight::Uniform(h) => h,
        RowHeight::Automatic => Scalar(DEFAULT_ROW_HEIGHT),
    }
}

/// A row-level change. Each describes the rows as the ones before left them, so each is applied
/// as a batch of its own.
#[derive(Clone, Copy, PartialEq, Eq, Structural, Debug)]
pub enum RowDelta {
    Insert(usize),
    Remove(usize),
    Move(usize, usize),
}

#[derive(Clone, Copy, PartialEq, Eq, Structural, Debug)]
pub struct ListData {
    pub node: NodeId,
    pub row_height: Scalar,
    pub selectable: bool,
}

/// The guard's verdict, or a refusal when the list has no reorder seam.
pub open spec fn verdict_spec(guard: Option<i64>) -> i64 {
    match guard {
        Some(v) => v,
        None => -1i64,
    }
}

/// The guard's verdict for a move: the accepted position, or negative for a refusal.
pub fn reorder_verdict(guard: Option<i64>) -> (r: i64)
    ensures
        r == verdict_spec(guard),
{
    match guard {
        Some(v) => v,
        None => -1,
    }
}

/// Whether a row may be lifted: `guard` is the answer to moving it onto itself.
pub fn can_move_row(guard: Option<i64>) -> (r: bool)
    ensures
        r == (verdict_spec(guard) >= 0),
{
    reorder_verdict(guard) >= 0
}

/// Where a dragged row's gap goes.
#[derive(Clone, Copy, PartialEq, Eq, Structural, Debug)]
pub enum Landing {
    /// Refused: the gap stays home.
    Home,
    /// Where UIKit proposes.
    Proposed,
    /// Elsewhere, as the guard asks.
    At(i64),
}

/// Where a row proposed to land at `to` lands, under the guard's answer.
pub fn target_for_move(guard: Option<i64>, to: usize) -> (r: Landing)
    ensures
        r == (if verdict_spec(guard) < 0 {
            Landing::Home
        } else if verdict_spec(guard) == to {
            Landing::Proposed
        } else {
            Landing::At(verdict_spec(guard))
        }),
{
    let accepted: i64 = reorder_verdict(guard);
    if accepted < 0 {
        Landing::Home
    } else if accepted as u64 == to as u64 {
        Landing::Proposed
    } else {
        Landing::At(accepted)
    }
}

/// A row the table moved: whether the move is committed. A row dropped where it was is not.
pub fn move_row(from: usize, to: usize, seam: bool) -> (commit: bool)
    ensures
        commit == (from != to && seam),
{
    from != to && seam
}

impl ListData {
    /// A row was tapped; it is deselected at once, and reported by a selectable list.
    pub fn did_select(&self, row: i64) -> (r: Option<Event>)
        ensures
            r == (if self.selectable {
                Some(Event::SelectionChanged(row))
            } else {
                None
            }),
    {
        if self.selectable {
            Some(Event::SelectionChanged(row))
        } else {
            None
        }
    }
}

/// Where a list scrolls to.
#[derive(Clone, Copy, PartialEq, Eq, Structural, Debug)]
pub enum ScrollTo {
    /// The last row, at the bottom.
    End,
    /// A row, at the top; past the end it is the last.
    Row(usize),
}

/// The row to scroll to in a list of `n` rows; none in an empty list.
pub fn scroll_row(to: ScrollTo, n: usize) -> (r: Option<usize>)
    ensures
        n == 0 ==> r is None,
        n > 0 ==> r == Some(
            match to {
                ScrollTo::End => (n - 1) as usize,
                ScrollTo::Row(row) => if row < n {
                    row
                } else {
                    (n - 1) as usize
                },
            },
        ),
{
    if n == 0 {
        return None;
    }
    match to {
        ScrollTo::End => Some(n - 1),
        ScrollTo::Row(row) => {
            if row < n {
                Some(row)
            } else {
                Some(n - 1)
            }
        },
    }
}

#[derive(Clone, Copy, PartialEq, Eq, Structural, Debug)]
pub enum SwipeEdge {
    Leading,
    Trailing,
}

/// An action the app offers on a row.
#[derive(Debug)]
pub struct SwipeOffer {
    pub label: String,
    pub destructive: bool,
    pub tint: Option<Color>,
    pub symbol: Option<u64>,
}

/// One action behind a swiped row.
pub enum SwipeAction {
    /// Delete the row: through the seam first, then the table animates it away. Titled by the
    /// app's word, else by the trash glyph.
    Delete { title: Option<String> },
    /// The app's action at position `index` of the offer of `edge`.
    Offer { offer: SwipeOffer, edge: SwipeEdge, index: usize },
}

/// `actions[at..]` are the offers, in order.
pub open spec fn offers(
    actions: Seq<SwipeAction>,
    at: int,
    offered: Seq<SwipeOffer>,
    edge: SwipeEdge,
) -> bool {
    &&& actions.len() == at + offered.len()
    &&& forall|i: int|
        0 <= i < offered.len() ==> #[trigger] actions[at + i] == (SwipeAction::Offer {
            offer: offered[i],
            edge,
            index: i as usize,
        })
}

/// A row's swipe actions on one edge. The trailing edge leads with deletion, when the list has it
/// and the guard allows it for this row: `deletes` says so, and is ignored on the leading edge. A
/// row without actions has none at all.
pub fn swipe_actions(
    edge: SwipeEdge,
    deletes: bool,
    delete_label: &String,
    offered: Vec<SwipeOffer>,
) -> (r: Option<Vec<SwipeAction>>)
    ensures
        ({
            let leads = edge == SwipeEdge::Trailing && deletes;
            &&& r is None == (!leads && offered@.len() == 0)
            &&& r matches Some(actions) ==> {
                &&& leads ==> actions@[0] == (SwipeAction::Delete {
                    title: if delete_label@.len() == 0 {
                        None
                    } else {
                        Some(*delete_label)
                    },
                })
                &&& offers(
                    actions@,
                    if leads {
                        1
                    } else {
                        0
                    },
                    offered@,
                    edge,
                )
            }
        }),
{
    let leads = match edge {
        SwipeEdge::Trailing => deletes,
        SwipeEdge::Leading => false,
    };
    let mut actions: Vec<SwipeAction> = Vec::new();
    let mut title: Option<String> = None;
    if leads {
        if delete_label.as_str().unicode_len() > 0 {
            title = Some(delete_label.clone());
        }
        actions.push(SwipeAction::Delete { title });
    } else if offered.len() == 0 {
        return None;
    }
    let ghost at: int = if leads {
        1
    } else {
        0
    };
    let ghost all = offered@;
    let ghost head = actions@;
    let mut rest = offered;
    let mut back: Vec<SwipeAction> = Vec::new();
    let n: usize = rest.len();
    for k in 0..n
        invariant
            n == all.len(),
            rest@ == all.take(n - k),
            back@.len() == k,
            forall|i: int|
                0 <= i < k ==> #[trigger] back@[i] == (SwipeAction::Offer {
                    offer: all[n - 1 - i],
                    edge,
                    index: (n - 1 - i) as usize,
                }),
    {
        match rest.pop() {
            Some(offer) => {
                proof {
                    assert(offer == all[n - 1 - k]);
                    assert(rest@ =~= all.take(n - 1 - k));
                }
                back.push(SwipeAction::Offer { offer, edge, index: n - 1 - k });
            },
            None => {
                proof {
                    assert(false);
                }
            },
        }
    }
    for k in 0..n
        invariant
            n == all.len(),
            at == head.len(),
            back@.len() == n - k,
            forall|i: int|
                0 <= i < n - k ==> #[trigger] back@[i] == (SwipeAction::Offer {
                    offer: all[n - 1 - i],
                    edge,
                    index: (n - 1 - i) as usize,
                }),
            actions@.len() == at + k,
            forall|i: int| 0 <= i < at ==> actions@[i] == head[i],
            forall|i: int|
                0 <= i < k ==> #[trigger] actions@[at + i] == (SwipeAction::Offer {
                    offer: all[i],
                    edge,
                    index: i as usize,
                }),
    {
        match back.pop() {
            Some(action) => {
                actions.push(action);
            },
            None => {
                proof {
                    assert(false);
                }
            },
        }
    }
    proof {
        assert(leads ==> actions@[0] == head[0]);
        assert(offers(actions@, at, all, edge));
    }
    Some(actions)
}

/// The list after one change.
pub open spec fn row_changed<T>(rows: Seq<T>, delta: RowDelta, fresh: T) -> Seq<T> {
    match delta {
        RowDelta::Insert(i) => rows.insert(i as int, fresh),
        RowDelta::Remove(i) => rows.remove(i as int),
        RowDelta::Move(from, to) => rows.remove(from as int).insert(to as int, rows[from as int]),
    }
}

/// A move puts the row where it was asked to go and loses none: positions are final ones.
pub proof fn law_moved_row_lands_where_asked<T>(rows: Seq<T>, from: usize, to: usize, fresh: T)
    requires
        from < rows.len(),
        to < rows.len(),
    ensures
        row_changed(rows, RowDelta::Move(from, to), fresh).len() == rows.len(),
        row_changed(rows, RowDelta::Move(from, to), fresh)[to as int] == rows[from as int],
        row_changed(rows, RowDelta::Move(from, to), fresh).remove(to as int) == rows.remove(
            from as int,
        ),
{
    let cut = rows.remove(from as int);
    assert(cut.insert(to as int, rows[from as int]).remove(to as int) =~= cut);
}

/// A row is lifted, and lands, only as the guard allows: a refusal keeps it home, an acceptance of the
/// proposed place is that place, and any other place is where the guard says. A list nobody guards
/// refuses every move.
pub proof fn law_rows_land_as_the_guard_allows(
    verdict: i64,
    to: usize,
    lifted: bool,
    landing: Landing,
    unguarded: bool,
    home: Landing,
)
    requires
        call_ensures(can_move_row, (Some(verdict),), lifted),
        call_ensures(target_for_move, (Some(verdict), to), landing),
        call_ensures(can_move_row, (None::<i64>,), unguarded),
        call_ensures(target_for_move, (None::<i64>, to), home),
    ensures
        lifted <==> verdict >= 0,
        landing == Landing::Home <==> verdict < 0,
        landing == Landing::Proposed <==> verdict == to,
        verdict >= 0 && verdict != to ==> landing == Landing::At(verdict),
        !unguarded,
        home == Landing::Home,
{
}

/// A moved row is committed when it really moved and somebody hears of it.
pub proof fn law_moves_are_committed_once_made(from: usize, to: usize, seam: bool, commit: bool)
    requires
        call_ensures(move_row, (from, to, seam), commit),
    ensures
        from == to ==> !commit,
        !seam ==> !commit,
        from != to && seam ==> commit,
{
}

/// A tapped row of a selectable list is reported, and of no other.
pub proof fn law_tapped_row_is_reported(list: &ListData, row: i64, r: Option<Event>)
    requires
        call_ensures(ListData::did_select, (list, row), r),
    ensures
        r is Some <==> list.selectable,
        r matches Some(e) ==> e == Event::SelectionChanged(row),
{
}

/// Scrolling lands on a row there is: the last one, the one asked for, or the last in its place.
pub proof fn law_scrolling_lands_on_a_row(
    row: usize,
    n: usize,
    end: Option<usize>,
    to: Option<usize>,
)
    requires
        call_ensures(scroll_row, (ScrollTo::End, n), end),
        call_ensures(scroll_row, (ScrollTo::Row(row), n), to),
    ensures
        n == 0 ==> end is None && to is None,
        n > 0 ==> (end matches Some(k) && k + 1 == n),
        row < n ==> to == Some(row),
        n > 0 && row >= n ==> to == end,
{
}

/// A row's height is the one it was given, and 44 points when it was given none.
pub proof fn law_row_height_is_its_own(h: Scalar, given: Scalar, none: Scalar)
    requires
        call_ensures(row_height, (RowHeight::Uniform(h),), given),
        call_ensures(row_height, (RowHeight::Automatic,), none),
    ensures
        given == h,
        none.0 == 0x4046_0000_0000_0000,
{
}

/// Behind a swiped row are the app's offers of that edge, each with its own position, in order. The
/// trailing edge leads with deletion where the row may be deleted, titled by the app's word if there
/// is one; the leading edge never does; and a row with nothing behind it has no swipe.
pub proof fn law_swipe_shows_every_offer(
    deletes: bool,
    word: String,
    offered: Vec<SwipeOffer>,
    trailing: Option<Vec<SwipeAction>>,
    leading: Option<Vec<SwipeAction>>,
    i: int,
)
    requires
        call_ensures(swipe_actions, (SwipeEdge::Trailing, deletes, &word, offered), trailing),
        call_ensures(swipe_actions, (SwipeEdge::Leading, deletes, &word, offered), leading),
    ensures
        leading is None <==> offered@.len() == 0,
        trailing is None <==> offered@.len() == 0 && !deletes,
        leading matches Some(acts) ==> acts@.len() == offered@.len() && (0 <= i < offered@.len()
            ==> acts@[i] == (SwipeAction::Offer {
            offer: offered@[i],
            edge: SwipeEdge::Leading,
            index: i as usize,
        })),
        trailing matches Some(acts) ==> {
            let first: int = if deletes {
                1
            } else {
                0
            };
            &&& acts@.len() == offered@.len() + first
            &&& deletes && word@.len() > 0 ==> acts@[0] == (SwipeAction::Delete { title: Some(word) })
            &&& deletes && word@.len() == 0 ==> acts@[0] == (SwipeAction::Delete { title: None })
            &&& 0 <= i < offered@.len() ==> acts@[first + i] == (SwipeAction::Offer {
                offer: offered@[i],
                edge: SwipeEdge::Trailing,
                index: i as usize,
            })
        },
{
    match leading {
        Some(acts) => {
            assert(offers(acts@, 0, offered@, SwipeEdge::Leading));
            if 0 <= i < offered@.len() {
                assert(acts@[0 + i] == acts@[i]);
            }
        },
        None => {},
    }
    match trailing {
        Some(acts) => {
            let first: int = if deletes {
                1
            } else {
                0
            };
            assert(offers(acts@, first, offered@, SwipeEdge::Trailing));
            if 0 <= i < offered@.len() {
                assert(acts@[first + i] == acts@[first + i]);
            }
        },
        None => {},
    }
}

/// A row inserted stands where it was asked to, one removed is gone from there, and every other row
/// keeps its order.
pub proof fn law_changed_rows_keep_their_order<T>(rows: Seq<T>, i: usize, fresh: T)
    requires
        i <= rows.len(),
    ensures
        ({
            let more = row_changed(rows, RowDelta::Insert(i), fresh);
            &&& more.len() == rows.len() + 1
            &&& more[i as int] == fresh
            &&& more.remove(i as int) == rows
        }),
        i < rows.len() ==> row_changed(rows, RowDelta::Remove(i), fresh) == rows.take(i as int)
            + rows.skip(i + 1),
{
    assert(row_changed(rows, RowDelta::Insert(i), fresh).remove(i as int) =~= rows);
    if i < rows.len() {
        assert(row_changed(rows, RowDelta::Remove(i), fresh) =~= rows.take(i as int) + rows.skip(
            i + 1,
        ));
    }
}

/// The guard's answer is the verdict; without a guard every move is refused.
pub proof fn law_guards_answer_is_the_verdict(v: i64, guarded: i64, unguarded: i64)
    requires
        call_ensures(reorder_verdict, (Some(v),), guarded),
        call_ensures(reorder_verdict, (None::<i64>,), unguarded),
    ensures
        guarded == v,
        unguarded < 0,
{
}

} // verus!
