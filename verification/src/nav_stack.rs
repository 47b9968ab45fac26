//! Navigation stacks. UIKit's own report of a stack is the truth; Day keeps only the changes it
//! has been asked for and not yet applied, and the target of the change last applied while its
//! transition still runs. Changes of one turn coalesce into one set: nothing is applied before the
//! turn that asked has ended. A change that arrives while a set is in flight waits for it to settle.

use crate::modal::next_generation;
use crate::types::NodeId;
use vstd::prelude::*;

verus! {

/// An entry of a navigation stack as UIKit reports it: a page's controller, or a navigation
/// controller nested on the stack with its own entries (a merge nests the secondary column).
pub enum Entry {
    Page(usize),
    Nav(usize, Vec<Entry>),
}

/// The column of a split host a page was declared for.
#[derive(Clone, Copy, PartialEq, Eq, Structural, Debug)]
pub enum Pane {
    Sidebar,
    List,
    Detail,
}

/// A Day page: its content view, its controller, and its pane.
#[derive(Clone, Copy, PartialEq, Eq, Structural, Debug)]
pub struct PageVc {
    pub handle: usize,
    pub vc: usize,
    pub pane: Pane,
}

impl Entry {
    /// The controller itself.
    pub open spec fn id_spec(self) -> usize {
        match self {
            Entry::Page(vc) => vc,
            Entry::Nav(nav, _) => nav,
        }
    }

    pub fn id(&self) -> (r: usize)
        ensures
            r == self.id_spec(),
    {
        match self {
            Entry::Page(vc) => *vc,
            Entry::Nav(nav, _) => *nav,
        }
    }

    /// The entries nested inside.
    pub open spec fn inner(self) -> Seq<Entry> {
        match self {
            Entry::Page(_) => Seq::empty(),
            Entry::Nav(_, stack) => stack@,
        }
    }
}

/// A stack flattened: a nested navigation controller reads as its own pages, and the blank
/// `placeholder` root is left out.
pub open spec fn pages_of(stack: Seq<Entry>, placeholder: Option<usize>) -> Seq<usize>
    decreases stack,
{
    if stack.len() == 0 {
        Seq::empty()
    } else {
        pages_of(stack.drop_last(), placeholder) + match stack.last() {
            Entry::Page(vc) => if placeholder == Some(vc) {
                Seq::empty()
            } else {
                seq![vc]
            },
            Entry::Nav(_, inner) => pages_of(inner@, placeholder),
        }
    }
}

/// The pages UIKit reports on `stack`.
pub fn day_pages(stack: &Vec<Entry>, placeholder: Option<usize>) -> (out: Vec<usize>)
    ensures
        out@ == pages_of(stack@, placeholder),
    decreases stack,
{
    let mut out: Vec<usize> = Vec::new();
    let n: usize = stack.len();
    for i in 0..n
        invariant
            n == stack@.len(),
            out@ == pages_of(stack@.take(i as int), placeholder),
    {
        proof {
            assert(stack@.take(i + 1).drop_last() == stack@.take(i as int));
            assert(stack@.take(i + 1).last() == stack@[i as int]);
            assert(decreases_to!(stack@ => stack@[i as int]));
        }
        match &stack[i] {
            Entry::Page(vc) => {
                let blank = match placeholder {
                    Some(p) => p == *vc,
                    None => false,
                };
                if !blank {
                    out.push(*vc);
                }
            },
            Entry::Nav(_, inner) => {
                let mut nested = day_pages(inner, placeholder);
                out.append(&mut nested);
            },
        }
    }
    proof {
        assert(stack@.take(n as int) == stack@);
    }
    out
}

/// The Day page on top of `stack`, through a nested merge. The blank root is no page.
pub open spec fn top_of(stack: Seq<Entry>, placeholder: Option<usize>) -> Option<usize> {
    let pages = pages_of(stack, placeholder);
    if pages.len() == 0 {
        None
    } else {
        Some(pages.last())
    }
}

/// The Day page on top, through a nested merge.
pub fn top_page(stack: &Vec<Entry>, placeholder: Option<usize>) -> (r: Option<usize>)
    ensures
        r == top_of(stack@, placeholder),
{
    let pages = day_pages(stack, placeholder);
    if pages.len() == 0 {
        None
    } else {
        Some(pages[pages.len() - 1])
    }
}

/// The pane of the page `vc` controls; `None` when it is no Day page.
pub open spec fn pane_in(pages: Seq<PageVc>, vc: usize) -> Option<Pane>
    decreases pages.len(),
{
    if pages.len() == 0 {
        None
    } else if pages[0].vc == vc {
        Some(pages[0].pane)
    } else {
        pane_in(pages.skip(1), vc)
    }
}

pub fn pane_of(pages: &Vec<PageVc>, vc: usize) -> (r: Option<Pane>)
    ensures
        r == pane_in(pages@, vc),
{
    let mut i: usize = 0;
    proof {
        assert(pages@.skip(0) == pages@);
    }
    while i < pages.len()
        invariant
            i <= pages@.len(),
            pane_in(pages@, vc) == pane_in(pages@.skip(i as int), vc),
        decreases pages@.len() - i,
    {
        proof {
            assert(pages@.skip(i as int)[0] == pages@[i as int]);
            assert(pages@.skip(i as int).skip(1) == pages@.skip(i + 1));
        }
        if pages[i].vc == vc {
            return Some(pages[i].pane);
        }
        i = i + 1;
    }
    None
}

/// A Day page that is neither the sidebar nor the content list.
pub open spec fn is_detail(pages: Seq<PageVc>, vc: usize) -> bool {
    pane_in(pages, vc) == Some(Pane::Detail)
}

/// The detail pages of a flattened stack, in stack order.
pub open spec fn details_of(stack: Seq<usize>, pages: Seq<PageVc>) -> Seq<usize>
    decreases stack.len(),
{
    if stack.len() == 0 {
        stack
    } else if is_detail(pages, stack.last()) {
        details_of(stack.drop_last(), pages).push(stack.last())
    } else {
        details_of(stack.drop_last(), pages)
    }
}

/// The detail pages on a host's active stack.
pub fn detail_pages(stack: &Vec<Entry>, placeholder: Option<usize>, pages: &Vec<PageVc>) -> (out:
    Vec<usize>)
    ensures
        out@ == details_of(pages_of(stack@, placeholder), pages@),
{
    let all = day_pages(stack, placeholder);
    let mut out: Vec<usize> = Vec::new();
    let n: usize = all.len();
    for i in 0..n
        invariant
            n == all@.len(),
            out@ == details_of(all@.take(i as int), pages@),
    {
        proof {
            assert(all@.take(i + 1).drop_last() == all@.take(i as int));
        }
        match pane_of(pages, all[i]) {
            Some(Pane::Detail) => {
                out.push(all[i]);
            },
            _ => {},
        }
    }
    proof {
        assert(all@.take(n as int) == all@);
    }
    out
}

/// Whether `entry` is `vc`, or directly holds it.
pub open spec fn holds(entry: Entry, vc: usize) -> bool {
    entry.id_spec() == vc || exists|j: int|
        0 <= j < entry.inner().len() && (#[trigger] entry.inner()[j]).id_spec() == vc
}

/// The first position of `vc` in `stack`, searched from `from`.
pub open spec fn position_of(stack: Seq<Entry>, vc: usize, from: int) -> Option<int>
    decreases stack.len() - from,
{
    if from < 0 || from >= stack.len() {
        None
    } else if stack[from].id_spec() == vc {
        Some(from)
    } else {
        position_of(stack, vc, from + 1)
    }
}

/// The entry below position `i`.
pub open spec fn below(stack: Seq<Entry>, i: int) -> Option<usize> {
    if i > 0 {
        Some(stack[i - 1].id_spec())
    } else {
        None
    }
}

/// What position `i` says about who owns `vc`: the stack itself when the entry is `vc`, or is a
/// nested controller rooted at `vc` (it is popped as a whole); else the nested controller that
/// holds it further up.
pub open spec fn owner_at(nav: usize, stack: Seq<Entry>, vc: usize, i: int) -> Option<
    (usize, Option<usize>),
> {
    let entry = stack[i];
    if entry.id_spec() == vc {
        Some((nav, below(stack, i)))
    } else {
        match position_of(entry.inner(), vc, 0) {
            None => None,
            Some(j) => if j == 0 {
                Some((nav, below(stack, i)))
            } else {
                Some((entry.id_spec(), below(entry.inner(), j)))
            },
        }
    }
}

/// The answer of the first position, from `from`, that has one.
pub open spec fn owner_from(nav: usize, stack: Seq<Entry>, vc: usize, from: int) -> Option<
    (usize, Option<usize>),
>
    decreases stack.len() - from,
{
    if from < 0 || from >= stack.len() {
        None
    } else if owner_at(nav, stack, vc, from) is Some {
        owner_at(nav, stack, vc, from)
    } else {
        owner_from(nav, stack, vc, from + 1)
    }
}

fn position(stack: &Vec<Entry>, vc: usize) -> (r: Option<usize>)
    ensures
        match r {
            Some(j) => position_of(stack@, vc, 0) == Some(j as int) && j < stack@.len(),
            None => position_of(stack@, vc, 0) is None,
        },
{
    let mut i: usize = 0;
    while i < stack.len()
        invariant
            i <= stack@.len(),
            position_of(stack@, vc, 0) == position_of(stack@, vc, i as int),
        decreases stack@.len() - i,
    {
        if stack[i].id() == vc {
            return Some(i);
        }
        i = i + 1;
    }
    None
}

/// Which navigation controller directly holds `vc` (`nav` itself, or one nested on its stack) and
/// the entry below it there.
pub fn owner_of(nav: usize, stack: &Vec<Entry>, vc: usize) -> (r: Option<(usize, Option<usize>)>)
    ensures
        r == owner_from(nav, stack@, vc, 0),
{
    let mut i: usize = 0;
    while i < stack.len()
        invariant
            i <= stack@.len(),
            owner_from(nav, stack@, vc, 0) == owner_from(nav, stack@, vc, i as int),
        decreases stack@.len() - i,
    {
        let under = if i > 0 {
            Some(stack[i - 1].id())
        } else {
            None
        };
        if stack[i].id() == vc {
            return Some((nav, under));
        }
        match &stack[i] {
            Entry::Page(_) => {
                proof {
                    assert(position_of(stack@[i as int].inner(), vc, 0) is None);
                }
            },
            Entry::Nav(nested, inner) => match position(inner, vc) {
                None => {},
                Some(j) => {
                    if j == 0 {
                        return Some((nav, under));
                    }
                    return Some((*nested, Some(inner[j - 1].id())));
                },
            },
        }
        i = i + 1;
    }
    None
}

/// A change asked of a stack.
#[derive(Clone, Copy, PartialEq, Eq, Structural, Debug)]
pub enum NavOp {
    Push(usize),
    Pop(usize),
}

/// `stack` without `vc`.
pub open spec fn without(stack: Seq<usize>, vc: usize) -> Seq<usize>
    decreases stack.len(),
{
    if stack.len() == 0 {
        stack
    } else if stack.last() == vc {
        without(stack.drop_last(), vc)
    } else {
        without(stack.drop_last(), vc).push(stack.last())
    }
}

pub open spec fn changed(stack: Seq<usize>, op: NavOp) -> Seq<usize> {
    match op {
        NavOp::Push(vc) => stack.push(vc),
        NavOp::Pop(vc) => without(stack, vc),
    }
}

/// Every change of `ops` made to `base`, in order.
pub open spec fn change_all(base: Seq<usize>, ops: Seq<NavOp>) -> Seq<usize>
    decreases ops.len(),
{
    if ops.len() == 0 {
        base
    } else {
        changed(change_all(base, ops.drop_last()), ops.last())
    }
}

fn remove_all(stack: Vec<usize>, vc: usize) -> (out: Vec<usize>)
    ensures
        out@ == without(stack@, vc),
{
    let mut out: Vec<usize> = Vec::new();
    let n: usize = stack.len();
    for i in 0..n
        invariant
            n == stack@.len(),
            out@ == without(stack@.take(i as int), vc),
    {
        proof {
            assert(stack@.take(i + 1).drop_last() == stack@.take(i as int));
        }
        if stack[i] != vc {
            out.push(stack[i]);
        }
    }
    proof {
        assert(stack@.take(n as int) == stack@);
    }
    out
}

fn copy_of(v: &Vec<usize>) -> (out: Vec<usize>)
    ensures
        out@ == v@,
{
    let mut out: Vec<usize> = Vec::new();
    let n: usize = v.len();
    for i in 0..n
        invariant
            n == v@.len(),
            out@ == v@.take(i as int),
    {
        out.push(v[i]);
        proof {
            assert(v@.take(i as int).push(v@[i as int]) == v@.take(i + 1));
        }
    }
    proof {
        assert(v@.take(n as int) == v@);
    }
    out
}

/// A host's pending changes as a value.
#[verifier::ext_equal]
pub struct QueueState {
    pub ops: Seq<NavOp>,
    pub scheduled: bool,
    pub open: bool,
    pub in_flight: Option<Seq<usize>>,
    pub generation: u64,
}

/// What applying the queue asks for.
pub enum Apply {
    /// The turn still runs, a set is in flight, nothing is queued, or the host is gone.
    Nothing,
    /// A collapsed triple column is driven through UIKit's own column calls: one
    /// [`triple_change`] per op, each against the stack as the previous one left it.
    Columns(Vec<NavOp>),
    /// One `setViewControllers:animated:` of `target`, reported settled under `generation`.
    Replace { generation: u64, target: Vec<usize> },
}

/// [`Apply`] as a value.
pub enum ApplyView {
    Nothing,
    Columns(Seq<NavOp>),
    Replace { generation: u64, target: Seq<usize> },
}

impl View for Apply {
    type V = ApplyView;

    open spec fn view(&self) -> ApplyView {
        match *self {
            Apply::Nothing => ApplyView::Nothing,
            Apply::Columns(ops) => ApplyView::Columns(ops@),
            Apply::Replace { generation, target } => ApplyView::Replace { generation, target: target@ },
        }
    }
}

/// The host a queue applies to, as it stands.
pub enum HostStack {
    /// No host of that handle is registered any more.
    Gone,
    /// A collapsed host of three columns.
    CollapsedTriple,
    /// Any other host: the pages its active stack reports, and the blank root that stack holds while
    /// it has no page, where it must not be empty.
    Stack { pages: Vec<usize>, blank: Option<usize> },
}

/// A stack as it is set: `blank` alone in place of no page at all.
pub open spec fn never_bare(target: Seq<usize>, blank: Option<usize>) -> Seq<usize> {
    match blank {
        Some(vc) if target.len() == 0 => seq![vc],
        _ => target,
    }
}

impl QueueState {
    pub open spec fn fresh(self) -> bool {
        self.ops.len() == 0 && !self.scheduled && !self.open && self.in_flight is None
    }

    /// What is queued is scheduled, and only that.
    pub open spec fn wf(self) -> bool {
        self.scheduled == (self.ops.len() > 0) && (self.open ==> self.scheduled)
    }

    /// `op` queued; whether an application has to be scheduled for it. The first change queued
    /// holds every application back until its turn has ended.
    pub open spec fn asked(self, op: NavOp) -> (QueueState, bool) {
        (
            QueueState {
                ops: self.ops.push(op),
                scheduled: true,
                open: self.open || !self.scheduled,
                ..self
            },
            !self.scheduled,
        )
    }

    /// The turn that asked has ended.
    pub open spec fn turned(self) -> QueueState {
        QueueState { open: false, ..self }
    }

    /// The queue applied to `host`.
    pub open spec fn applied(self, host: HostStack) -> (QueueState, ApplyView) {
        if self.open || self.in_flight is Some {
            (self, ApplyView::Nothing)
        } else {
            let taken = QueueState { ops: Seq::empty(), scheduled: false, ..self };
            if self.ops.len() == 0 {
                (taken, ApplyView::Nothing)
            } else {
                match host {
                    HostStack::Gone => (taken, ApplyView::Nothing),
                    HostStack::CollapsedTriple => (taken, ApplyView::Columns(self.ops)),
                    HostStack::Stack { pages, blank } => {
                        let target = never_bare(change_all(pages@, self.ops), blank);
                        let generation = next_generation(self.generation);
                        (
                            QueueState { in_flight: Some(target), generation, ..taken },
                            ApplyView::Replace { generation, target },
                        )
                    },
                }
            }
        }
    }

    /// The change `generation` settled; whether more waits to be applied.
    pub open spec fn settled(self, generation: u64) -> (QueueState, bool) {
        if self.generation != generation {
            (self, false)
        } else {
            (QueueState { in_flight: None, ..self }, self.ops.len() > 0)
        }
    }
}

pub struct NavQueue {
    pub ops: Vec<NavOp>,
    /// An application of what is queued has been scheduled.
    pub scheduled: bool,
    /// The turn in which the first of the changes was queued has not ended.
    pub open: bool,
    pub in_flight: Option<Vec<usize>>,
    pub generation: u64,
}

impl View for NavQueue {
    type V = QueueState;

    open spec fn view(&self) -> QueueState {
        QueueState {
            ops: self.ops@,
            scheduled: self.scheduled,
            open: self.open,
            in_flight: match self.in_flight {
                Some(target) => Some(target@),
                None => None,
            },
            generation: self.generation,
        }
    }
}

impl NavQueue {
    pub fn new() -> (q: NavQueue)
        ensures
            q@.fresh(),
            q@.wf(),
            q@.generation == 0,
    {
        NavQueue {
            ops: Vec::new(),
            scheduled: false,
            open: false,
            in_flight: None,
            generation: 0,
        }
    }

    /// Queue a change; `true` when the caller has to schedule its application: on the next turn
    /// [`NavQueue::turn_ended`], and behind the modal queue [`NavQueue::apply_ops`].
    pub fn queue_op(&mut self, op: NavOp) -> (schedule: bool)
        ensures
            (final(self)@, schedule) == old(self)@.asked(op),
    {
        self.ops.push(op);
        let first = !self.scheduled;
        self.scheduled = true;
        self.open = self.open || first;
        first
    }

    /// The turn that asked has ended: what is queued may be applied.
    pub fn turn_ended(&mut self)
        ensures
            final(self)@ == old(self)@.turned(),
    {
        self.open = false;
    }

    /// Apply everything queued as one stack change, or hand it out column call by column call.
    pub fn apply_ops(&mut self, host: HostStack) -> (plan: Apply)
        ensures
            (final(self)@, plan@) == old(self)@.applied(host),
    {
        if self.open || self.in_flight.is_some() {
            return Apply::Nothing;
        }
        self.scheduled = false;
        let mut ops: Vec<NavOp> = Vec::new();
        ops.append(&mut self.ops);
        if ops.len() == 0 {
            return Apply::Nothing;
        }
        match host {
            HostStack::Gone => Apply::Nothing,
            HostStack::CollapsedTriple => Apply::Columns(ops),
            HostStack::Stack { pages, blank } => {
                let mut target = fold(pages, &ops);
                match blank {
                    Some(vc) if target.len() == 0 => {
                        target.push(vc);
                        proof {
                            assert(target@ =~= seq![vc]);
                        }
                    },
                    _ => {},
                }
                self.generation = self.generation.wrapping_add(1);
                self.in_flight = Some(copy_of(&target));
                Apply::Replace { generation: self.generation, target }
            },
        }
    }

    /// The change `generation` has settled: UIKit's report is the truth again. `true` when more
    /// was queued meanwhile and the caller has to schedule its application, as for a first change.
    pub fn settle(&mut self, generation: u64) -> (more: bool)
        ensures
            (final(self)@, more) == old(self)@.settled(generation),
    {
        if self.generation != generation {
            return false;
        }
        self.in_flight = None;
        self.ops.len() > 0
    }

    /// The Day page on top as the app will see it: the top of the change in flight if there is
    /// one, else of what UIKit reports. The blank root is no page.
    pub fn current_top(&self, stack: &Vec<Entry>, placeholder: Option<usize>) -> (r: Option<usize>)
        ensures
            r == (match self@.in_flight {
                Some(target) if target.len() > 0 => if placeholder == Some(target.last()) {
                    None
                } else {
                    Some(target.last())
                },
                _ => top_of(stack@, placeholder),
            }),
    {
        match &self.in_flight {
            Some(target) if target.len() > 0 => {
                let top: usize = target[target.len() - 1];
                match placeholder {
                    Some(p) if p == top => None,
                    _ => Some(top),
                }
            },
            _ => top_page(stack, placeholder),
        }
    }
}

fn fold(base: Vec<usize>, ops: &Vec<NavOp>) -> (target: Vec<usize>)
    ensures
        target@ == change_all(base@, ops@),
{
    let ghost start = base@;
    let mut target = base;
    let n: usize = ops.len();
    for i in 0..n
        invariant
            n == ops@.len(),
            target@ == change_all(start, ops@.take(i as int)),
    {
        proof {
            assert(ops@.take(i + 1).drop_last() == ops@.take(i as int));
        }
        match ops[i] {
            NavOp::Push(vc) => {
                target.push(vc);
            },
            NavOp::Pop(vc) => {
                target = remove_all(target, vc);
            },
        }
    }
    proof {
        assert(ops@.take(n as int) == ops@);
    }
    target
}

/// How one set is made.
#[derive(Clone, Copy, PartialEq, Eq, Structural, Debug)]
pub enum SetStack {
    /// The stack already is the target: nothing to do, the change has settled.
    Settled,
    /// Set the stack. Never animated to an empty stack: that transition does not complete.
    Replace { animated: bool },
}

/// Whether, and how, `target` is set on a stack that reports `current`.
pub fn set_stack(current: &Vec<usize>, target: &Vec<usize>) -> (r: SetStack)
    ensures
        r == (if current@ == target@ {
            SetStack::Settled
        } else {
            SetStack::Replace { animated: target@.len() > 0 }
        }),
{
    let mut same = current.len() == target.len();
    if same {
        let n: usize = current.len();
        proof {
            assert(current@.take(0) == target@.take(0));
        }
        for i in 0..n
            invariant
                n == current@.len(),
                n == target@.len(),
                same == (current@.take(i as int) == target@.take(i as int)),
        {
            proof {
                let a = current@.take(i as int);
                let b = target@.take(i as int);
                assert(current@.take(i + 1) == a.push(current@[i as int]));
                assert(target@.take(i + 1) == b.push(target@[i as int]));
                assert(current@.take(i + 1).drop_last() == a);
                assert(target@.take(i + 1).drop_last() == b);
                assert(current@.take(i + 1).last() == current@[i as int]);
                assert(target@.take(i + 1).last() == target@[i as int]);
            }
            if current[i] != target[i] {
                same = false;
            }
        }
        proof {
            assert(current@.take(n as int) == current@);
            assert(target@.take(n as int) == target@);
        }
    }
    if same {
        SetStack::Settled
    } else {
        SetStack::Replace { animated: target.len() > 0 }
    }
}

/// Whether a set whose transition completed is made once more: it was cancelled under Day, and it
/// has not been repeated yet. Otherwise the change has settled.
pub fn set_again(cancelled: bool, retry: bool) -> (r: bool)
    ensures
        r == (cancelled && retry),
{
    cancelled && retry
}

/// One change of a collapsed triple column.
pub enum TripleChange {
    /// The page is already gone.
    Nothing,
    /// Set the secondary column's stack offstage, then show that column.
    Show(Vec<usize>),
    /// Pop `owner` to `to`, or to its root, as Day's own pop.
    Pop { owner: usize, to: Option<usize> },
}

/// The column call for `op`, given the active stack and Day's pages.
pub fn triple_change(
    op: NavOp,
    active: usize,
    stack: &Vec<Entry>,
    placeholder: Option<usize>,
    pages: &Vec<PageVc>,
) -> (r: TripleChange)
    ensures
        match op {
            NavOp::Push(vc) => r matches TripleChange::Show(stack_) && stack_@ == details_of(
                pages_of(stack@, placeholder),
                pages@,
            ).push(vc),
            NavOp::Pop(vc) => match owner_from(active, stack@, vc, 0) {
                None => r is Nothing,
                Some((by, under)) => r matches TripleChange::Pop { owner, to } && owner == by && to
                    == under,
            },
        },
{
    match op {
        NavOp::Push(vc) => {
            let mut details = detail_pages(stack, placeholder, pages);
            details.push(vc);
            TripleChange::Show(details)
        },
        NavOp::Pop(vc) => match owner_of(active, stack, vc) {
            None => TripleChange::Nothing,
            Some((owner, to)) => TripleChange::Pop { owner, to },
        },
    }
}

/// What an observed pop means.
#[derive(Clone, Copy, PartialEq, Eq, Structural, Debug)]
pub enum PopNote {
    /// Day's own pop, or a controller no host owns any more.
    Ignore,
    /// The user's, and already done.
    Confirm,
    /// The user's, once its transition ends without being cancelled.
    Await,
}

/// `day_pop` is the host's flag around Day's own pops, `None` when no host owns the controller.
pub fn note_pop(day_pop: Option<bool>, animating: bool) -> (r: PopNote)
    ensures
        r == (if day_pop != Some(false) {
            PopNote::Ignore
        } else if animating {
            PopNote::Await
        } else {
            PopNote::Confirm
        }),
{
    match day_pop {
        Some(false) => if animating {
            PopNote::Await
        } else {
            PopNote::Confirm
        },
        _ => PopNote::Ignore,
    }
}

/// How many pages of `stack` are Day's.
pub open spec fn day_count(stack: Seq<usize>, pages: Seq<PageVc>) -> nat
    decreases stack.len(),
{
    if stack.len() == 0 {
        0
    } else {
        day_count(stack.drop_last(), pages) + if pane_in(pages, stack.last()) is Some {
            1nat
        } else {
            0nat
        }
    }
}

/// How many levels the user's pop went back: one per Day page that left, those inside a nested
/// controller popped as a whole included. Each is reported as a back already popped.
pub fn confirm_user_pop(popped: &Vec<Entry>, pages: &Vec<PageVc>) -> (levels: usize)
    ensures
        levels == day_count(pages_of(popped@, None), pages@),
{
    let all = day_pages(popped, None);
    let mut levels: usize = 0;
    let n: usize = all.len();
    for i in 0..n
        invariant
            n == all@.len(),
            levels == day_count(all@.take(i as int), pages@),
            levels <= i,
    {
        proof {
            assert(all@.take(i + 1).drop_last() == all@.take(i as int));
        }
        if pane_of(pages, all[i]).is_some() {
            levels = levels + 1;
        }
    }
    proof {
        assert(all@.take(n as int) == all@);
    }
    levels
}

/// What a back affordance does.
#[derive(Clone, Copy, PartialEq, Eq, Structural, Debug)]
pub enum Back {
    /// Nothing to go back to, or a transition runs.
    Refuse,
    /// The guard decides: report a back not yet popped to the host, and pop nothing.
    Ask(NodeId),
    /// Let UIKit pop.
    Pop,
}

/// The back button. A guard with nobody to answer fails open: vetoing there would strand the user.
pub fn should_pop(guarded: bool, host: Option<NodeId>) -> (r: Back)
    ensures
        r == (match host {
            Some(node) if guarded => Back::Ask(node),
            _ => Back::Pop,
        }),
{
    match host {
        Some(node) if guarded => Back::Ask(node),
        _ => Back::Pop,
    }
}

/// The swipe: UIKit's two stock questions, then the button's.
pub fn gesture_should_begin(
    count: usize,
    animating: bool,
    guarded: bool,
    host: Option<NodeId>,
) -> (r: Back)
    ensures
        r == (if count < 2 || animating {
            Back::Refuse
        } else {
            match host {
                Some(node) if guarded => Back::Ask(node),
                _ => Back::Pop,
            }
        }),
{
    if count < 2 || animating {
        Back::Refuse
    } else {
        should_pop(guarded, host)
    }
}

/// The back button's own path, without the button: refused with no item on the bar or nothing
/// below, else what the button does.
pub fn press_back(top_item: bool, count: usize, guarded: bool, host: Option<NodeId>) -> (r: Back)
    ensures
        r == (if !top_item || count < 2 {
            Back::Refuse
        } else {
            match host {
                Some(node) if guarded => Back::Ask(node),
                _ => Back::Pop,
            }
        }),
{
    if !top_item || count < 2 {
        Back::Refuse
    } else {
        should_pop(guarded, host)
    }
}

/// Whether a pressed back did something: handed a guarded back to Day, or popped a page.
pub fn pressed(back: Back, popped: bool) -> (r: bool)
    ensures
        r == (match back {
            Back::Refuse => false,
            Back::Ask(_) => true,
            Back::Pop => popped,
        }),
{
    match back {
        Back::Refuse => false,
        Back::Ask(_) => true,
        Back::Pop => popped,
    }
}

/// A navigation host as a scripted back finds it.
#[derive(Clone, Copy, PartialEq, Eq, Structural, Debug)]
pub struct BackHost {
    pub handle: usize,
    pub shown: bool,
    pub count: usize,
    pub depth: usize,
}

/// Whether a host has a back to press.
pub open spec fn can_go_back(h: BackHost) -> bool {
    h.shown && h.count > 1
}

/// `r` is the host to press: the deepest that can go back, the last of equals, if any can.
pub open spec fn pressed_of(hosts: Seq<BackHost>, r: Option<usize>) -> bool {
    match r {
        None => forall|i: int| 0 <= i < hosts.len() ==> !can_go_back(#[trigger] hosts[i]),
        Some(k) => k < hosts.len() && can_go_back(hosts[k as int]) && forall|i: int|
            0 <= i < hosts.len() && can_go_back(#[trigger] hosts[i]) ==> hosts[i].depth
                < hosts[k as int].depth || (hosts[i].depth == hosts[k as int].depth && i <= k),
    }
}

/// The host a scripted back presses: of those on screen with something to pop, the one nested
/// deepest, the last of equals.
pub fn native_back(hosts: &Vec<BackHost>) -> (r: Option<usize>)
    ensures
        pressed_of(hosts@, r),
{
    let mut best: Option<usize> = None;
    let n: usize = hosts.len();
    for i in 0..n
        invariant
            n == hosts@.len(),
            match best {
                None => forall|j: int| 0 <= j < i ==> !can_go_back(#[trigger] hosts@[j]),
                Some(k) => k < i && can_go_back(hosts@[k as int]) && forall|j: int|
                    0 <= j < i && can_go_back(#[trigger] hosts@[j]) ==> hosts@[j].depth
                        < hosts@[k as int].depth || (hosts@[j].depth == hosts@[k as int].depth && j
                        <= k),
            },
    {
        if hosts[i].shown && hosts[i].count > 1 {
            let better = match best {
                None => true,
                Some(k) => hosts[i].depth >= hosts[k].depth,
            };
            if better {
                best = Some(i);
            }
        }
    }
    best
}

/// Changes coalesce: making `a` and then `b` is making both at once.
pub proof fn law_changes_coalesce(base: Seq<usize>, a: Seq<NavOp>, b: Seq<NavOp>)
    ensures
        change_all(base, a + b) == change_all(change_all(base, a), b),
    decreases b.len(),
{
    if b.len() == 0 {
        assert(a + b == a);
    } else {
        assert((a + b).drop_last() == a + b.drop_last());
        law_changes_coalesce(base, a, b.drop_last());
    }
}

proof fn lemma_without(stack: Seq<usize>, vc: usize)
    ensures
        !without(stack, vc).contains(vc),
        !stack.contains(vc) ==> without(stack, vc) == stack,
        forall|x: usize| x != vc ==> (stack.contains(x) <==> without(stack, vc).contains(x)),
    decreases stack.len(),
{
    if stack.len() > 0 {
        let front = stack.drop_last();
        lemma_without(front, vc);
        assert(stack == front.push(stack.last()));
        assert forall|x: usize| stack.contains(x) <==> (front.contains(x) || x == stack.last()) by {
            if front.contains(x) {
                let i = choose|i: int| 0 <= i < front.len() && front[i] == x;
                assert(stack[i] == x);
            }
            if x == stack.last() {
                assert(stack[stack.len() - 1] == x);
            }
        }
        let rest = without(front, vc);
        let full = rest.push(stack.last());
        assert forall|x: usize| full.contains(x) <==> (rest.contains(x) || x == stack.last()) by {
            if rest.contains(x) {
                let i = choose|i: int| 0 <= i < rest.len() && rest[i] == x;
                assert(full[i] == x);
            }
            if x == stack.last() {
                assert(full[full.len() - 1] == x);
            }
        }
    }
}

/// A popped page is off the stack, and every other page stays.
pub proof fn law_pop_takes_one_page_only(stack: Seq<usize>, vc: usize)
    ensures
        !changed(stack, NavOp::Pop(vc)).contains(vc),
        forall|x: usize|
            x != vc ==> (stack.contains(x) <==> changed(stack, NavOp::Pop(vc)).contains(x)),
{
    lemma_without(stack, vc);
}

/// A page pushed and popped in one turn leaves no trace.
pub proof fn law_push_then_pop_is_nothing(base: Seq<usize>, vc: usize)
    requires
        !base.contains(vc),
    ensures
        change_all(base, seq![NavOp::Push(vc), NavOp::Pop(vc)]) == base,
{
    let ops = seq![NavOp::Push(vc), NavOp::Pop(vc)];
    assert(ops.drop_last() == seq![NavOp::Push(vc)]);
    assert(ops.drop_last().drop_last() == Seq::<NavOp>::empty());
    reveal_with_fuel(change_all, 3);
    assert(base.push(vc).drop_last() == base);
    lemma_without(base, vc);
}

/// The user's back and Day's answer to it never pop twice: removing a page that has already left
/// the stack UIKit reports asks for the very stack there is, which [`set_stack`] leaves alone.
pub proof fn law_removing_a_page_already_gone_changes_nothing(
    q: QueueState,
    pages: Vec<usize>,
    blank: Option<usize>,
    vc: usize,
)
    requires
        q.fresh(),
        !pages@.contains(vc),
    ensures
        q.asked(NavOp::Pop(vc)).0.turned().applied(HostStack::Stack { pages, blank }).1 == (
        ApplyView::Replace {
            generation: next_generation(q.generation),
            target: never_bare(pages@, blank),
        }),
{
    let ops = seq![NavOp::Pop(vc)];
    assert(q.ops.push(NavOp::Pop(vc)) == ops);
    assert(ops.drop_last() == Seq::<NavOp>::empty());
    reveal_with_fuel(change_all, 2);
    lemma_without(pages@, vc);
}

/// A stack that must not be bare never is: with its last page gone it is set to its blank root
/// alone, and with any page left the blank root is not set on it.
pub proof fn law_blank_root_stands_for_no_page(q: QueueState, pages: Vec<usize>, blank: usize)
    requires
        !q.open,
        q.in_flight is None,
        q.ops.len() > 0,
    ensures
        ({
            let left = change_all(pages@, q.ops);
            let (after, plan) = q.applied(HostStack::Stack { pages, blank: Some(blank) });
            &&& plan == (ApplyView::Replace {
                generation: next_generation(q.generation),
                target: if left.len() == 0 {
                    seq![blank]
                } else {
                    left
                },
            })
            &&& plan->target.len() > 0
            &&& after.in_flight == Some(plan->target)
        }),
{
}

/// One set at a time: a set is asked for only when none is in flight, and none is asked for again
/// until that one settles.
pub proof fn law_one_set_at_a_time(q: QueueState, host: HostStack, later: HostStack, op: NavOp)
    requires
        q.applied(host).1 is Replace,
    ensures
        q.in_flight is None,
        q.applied(host).0.in_flight == Some(q.applied(host).1->target),
        q.applied(host).0.applied(later) == (q.applied(host).0, ApplyView::Nothing),
        q.applied(host).0.asked(op).0.applied(later) == (
            q.applied(host).0.asked(op).0,
            ApplyView::Nothing,
        ),
{
}

/// A settle report of an older change changes nothing.
pub proof fn law_stale_settle_is_ignored(q: QueueState, generation: u64)
    requires
        generation != q.generation,
    ensures
        q.settled(generation) == (q, false),
{
}

/// What can happen to a host's queue.
pub enum QueueEvent {
    Ask(NavOp),
    /// The turn ends, and a scheduled application becomes due.
    Turn,
    /// A due application runs.
    Apply(HostStack),
    /// The set of a generation settles.
    Settle(u64),
}

/// A queue, how many applications are scheduled for the next turn and how many are due, and the
/// stacks set so far.
pub struct QueueWorld {
    pub state: QueueState,
    pub scheduled: nat,
    pub due: nat,
    pub sets: Seq<Seq<usize>>,
}

impl QueueWorld {
    pub open spec fn after(self, e: QueueEvent) -> QueueWorld {
        match e {
            QueueEvent::Ask(op) => {
                let (state, schedule) = self.state.asked(op);
                QueueWorld {
                    state,
                    scheduled: self.scheduled + if schedule { 1nat } else { 0nat },
                    ..self
                }
            },
            QueueEvent::Turn => QueueWorld {
                state: self.state.turned(),
                scheduled: 0,
                due: self.due + self.scheduled,
                ..self
            },
            QueueEvent::Apply(host) => {
                let (state, plan) = self.state.applied(host);
                QueueWorld {
                    state,
                    due: (self.due - 1) as nat,
                    sets: match plan {
                        ApplyView::Replace { generation: _, target } => self.sets.push(target),
                        _ => self.sets,
                    },
                    ..self
                }
            },
            QueueEvent::Settle(g) => {
                let (state, more) = self.state.settled(g);
                QueueWorld {
                    state,
                    scheduled: self.scheduled + if more { 1nat } else { 0nat },
                    ..self
                }
            },
        }
    }

    pub open spec fn history(self, events: Seq<QueueEvent>) -> QueueWorld
        decreases events.len(),
    {
        if events.len() == 0 {
            self
        } else {
            self.history(events.drop_last()).after(events.last())
        }
    }

    /// Only due applications run.
    pub open spec fn admits(self, events: Seq<QueueEvent>) -> bool
        decreases events.len(),
    {
        events.len() > 0 ==> self.admits(events.drop_last()) && (events.last() is Apply
            ==> self.history(events.drop_last()).due > 0)
    }
}

/// No change is forgotten: whatever happens, while anything is queued an application of it is
/// scheduled or due, or a set is in flight whose settling schedules one.
pub proof fn law_no_change_is_forgotten(w: QueueWorld, events: Seq<QueueEvent>)
    requires
        w.state.fresh(),
        w.admits(events),
    ensures
        w.history(events).state.wf(),
        w.history(events).state.open ==> w.history(events).scheduled > 0,
        w.history(events).state.ops.len() > 0 ==> w.history(events).scheduled > 0 || w.history(
            events,
        ).due > 0 || w.history(events).state.in_flight is Some,
    decreases events.len(),
{
    if events.len() > 0 {
        law_no_change_is_forgotten(w, events.drop_last());
    }
}

/// The changes asked for by `events`, in order.
pub open spec fn asks(events: Seq<QueueEvent>) -> Seq<NavOp>
    decreases events.len(),
{
    if events.len() == 0 {
        Seq::empty()
    } else {
        match events.last() {
            QueueEvent::Ask(op) => asks(events.drop_last()).push(op),
            _ => asks(events.drop_last()),
        }
    }
}

/// All in one turn: nothing settles and the turn does not end.
pub open spec fn one_turn(events: Seq<QueueEvent>) -> bool {
    forall|i: int| 0 <= i < events.len() ==> #[trigger] events[i] is Ask || events[i] is Apply
}

proof fn lemma_turn_only_queues(w: QueueWorld, events: Seq<QueueEvent>)
    requires
        w.state.fresh(),
        one_turn(events),
    ensures
        ({
            let after = w.history(events);
            &&& after.sets == w.sets
            &&& after.state.ops == asks(events)
            &&& after.state.in_flight is None
            &&& after.state.generation == w.state.generation
            &&& after.state.open == (asks(events).len() > 0)
            &&& after.state.scheduled == (asks(events).len() > 0)
            &&& after.scheduled == w.scheduled + if asks(events).len() > 0 {
                1nat
            } else {
                0nat
            }
        }),
    decreases events.len(),
{
    if events.len() > 0 {
        let front = events.drop_last();
        assert forall|i: int| 0 <= i < front.len() implies #[trigger] front[i] is Ask || front[i] is Apply by {
            assert(front[i] == events[i]);
        }
        lemma_turn_only_queues(w, front);
        assert(events[events.len() - 1] is Ask || events[events.len() - 1] is Apply);
    }
}

/// Changes of one turn are one set. On a host at rest, whatever is asked of it in a turn, and
/// however many applications run in that turn, no stack is set before the turn ends; its end makes
/// one application due, which sets one stack, with every change made in order; and nothing is set
/// again before that one settles.
pub proof fn law_one_turn_is_one_set(
    w: QueueWorld,
    events: Seq<QueueEvent>,
    pages: Vec<usize>,
    blank: Option<usize>,
    later: HostStack,
)
    requires
        w.state.fresh(),
        w.scheduled == 0,
        one_turn(events),
        asks(events).len() > 0,
    ensures
        ({
            let turn = w.history(events);
            let ended = turn.after(QueueEvent::Turn);
            let set = ended.after(QueueEvent::Apply(HostStack::Stack { pages, blank }));
            &&& turn.sets == w.sets
            &&& ended.sets == w.sets
            &&& ended.due == turn.due + 1
            &&& set.sets == w.sets.push(never_bare(change_all(pages@, asks(events)), blank))
            &&& set.after(QueueEvent::Turn).after(QueueEvent::Apply(later)).sets == set.sets
        }),
{
    lemma_turn_only_queues(w, events);
}

/// A merge reads the same however UIKit makes it: entries nested as one controller flatten to
/// the pages they would be if they had been appended.
pub proof fn law_nested_merge_reads_as_appended(
    stack: Seq<Entry>,
    nav: usize,
    inner: Vec<Entry>,
    placeholder: Option<usize>,
)
    ensures
        pages_of(stack.push(Entry::Nav(nav, inner)), placeholder) == pages_of(
            stack + inner@,
            placeholder,
        ),
        pages_of(stack + inner@, placeholder) == pages_of(stack, placeholder) + pages_of(
            inner@,
            placeholder,
        ),
{
    assert(stack.push(Entry::Nav(nav, inner)).drop_last() == stack);
    lemma_pages_append(stack, inner@, placeholder);
}

proof fn lemma_pages_append(a: Seq<Entry>, b: Seq<Entry>, placeholder: Option<usize>)
    ensures
        pages_of(a + b, placeholder) == pages_of(a, placeholder) + pages_of(b, placeholder),
    decreases b.len(),
{
    if b.len() == 0 {
        assert(a + b == a);
    } else {
        assert((a + b).drop_last() == a + b.drop_last());
        lemma_pages_append(a, b.drop_last(), placeholder);
    }
}

/// A page has an owner exactly when the stack, or a controller nested on it, holds it.
pub proof fn law_held_page_has_an_owner(nav: usize, stack: Seq<Entry>, vc: usize)
    ensures
        owner_from(nav, stack, vc, 0) is Some <==> exists|i: int|
            0 <= i < stack.len() && holds(#[trigger] stack[i], vc),
{
    lemma_owner_from(nav, stack, vc, 0);
}

proof fn lemma_owner_from(nav: usize, stack: Seq<Entry>, vc: usize, from: int)
    requires
        0 <= from,
    ensures
        owner_from(nav, stack, vc, from) is Some <==> exists|i: int|
            from <= i < stack.len() && holds(#[trigger] stack[i], vc),
    decreases stack.len() - from,
{
    if from < stack.len() {
        lemma_owner_from(nav, stack, vc, from + 1);
        lemma_position(stack[from].inner(), vc, 0);
        assert(owner_at(nav, stack, vc, from) is Some <==> holds(stack[from], vc));
    }
}

proof fn lemma_position(stack: Seq<Entry>, vc: usize, from: int)
    requires
        0 <= from,
    ensures
        position_of(stack, vc, from) is Some <==> exists|j: int|
            from <= j < stack.len() && (#[trigger] stack[j]).id_spec() == vc,
    decreases stack.len() - from,
{
    if from < stack.len() {
        lemma_position(stack, vc, from + 1);
    }
}

/// Popping by the owner's answer takes exactly the page and what stands above it. A page that first
/// stands at position `i` of a stack is popped to the entry just below it, so that the first `i`
/// entries are left; a root is popped with its whole stack.
pub proof fn law_pop_leaves_everything_below(
    nav: usize,
    stack: Vec<Entry>,
    vc: usize,
    i: int,
    r: Option<(usize, Option<usize>)>,
)
    requires
        call_ensures(owner_of, (nav, &stack, vc), r),
        0 <= i < stack@.len(),
        stack@[i].id_spec() == vc,
        forall|k: int| 0 <= k < i ==> !holds(#[trigger] stack@[k], vc),
    ensures
        i > 0 ==> r == Some((nav, Some(stack@[i - 1].id_spec()))) && stack@.take(i).last()
            == stack@[i - 1],
        i == 0 ==> r == Some((nav, None::<usize>)),
{
    lemma_owner_at(nav, stack@, vc, i, 0);
}

/// The same inside a controller nested on the stack: a page above its root is popped to the entry
/// just below it there, and its root goes with the whole nested controller.
pub proof fn law_nested_pop_leaves_everything_below(
    nav: usize,
    stack: Vec<Entry>,
    vc: usize,
    i: int,
    nested: usize,
    inner: Vec<Entry>,
    j: int,
    r: Option<(usize, Option<usize>)>,
)
    requires
        call_ensures(owner_of, (nav, &stack, vc), r),
        0 <= i < stack@.len(),
        stack@[i] == Entry::Nav(nested, inner),
        nested != vc,
        forall|k: int| 0 <= k < i ==> !holds(#[trigger] stack@[k], vc),
        0 <= j < inner@.len(),
        inner@[j].id_spec() == vc,
        forall|k: int| 0 <= k < j ==> (#[trigger] inner@[k]).id_spec() != vc,
    ensures
        j > 0 ==> r == Some((nested, Some(inner@[j - 1].id_spec()))),
        j == 0 && i > 0 ==> r == Some((nav, Some(stack@[i - 1].id_spec()))),
        j == 0 && i == 0 ==> r == Some((nav, None::<usize>)),
{
    lemma_first_position(inner@, vc, j, 0);
    assert(stack@[i].inner()[j].id_spec() == vc);
    lemma_owner_at(nav, stack@, vc, i, 0);
}

/// A page that nobody on the stack holds has no owner.
pub proof fn law_page_of_no_stack_has_no_owner(
    nav: usize,
    stack: Vec<Entry>,
    vc: usize,
    r: Option<(usize, Option<usize>)>,
)
    requires
        call_ensures(owner_of, (nav, &stack, vc), r),
        forall|k: int| 0 <= k < stack@.len() ==> !holds(#[trigger] stack@[k], vc),
    ensures
        r is None,
{
    law_held_page_has_an_owner(nav, stack@, vc);
}

proof fn lemma_first_position(stack: Seq<Entry>, vc: usize, j: int, from: int)
    requires
        0 <= from <= j < stack.len(),
        stack[j].id_spec() == vc,
        forall|k: int| 0 <= k < j ==> (#[trigger] stack[k]).id_spec() != vc,
    ensures
        position_of(stack, vc, from) == Some(j),
    decreases j - from,
{
    if from < j {
        lemma_first_position(stack, vc, j, from + 1);
    }
}

proof fn lemma_owner_at(nav: usize, stack: Seq<Entry>, vc: usize, i: int, from: int)
    requires
        0 <= from <= i < stack.len(),
        holds(stack[i], vc),
        forall|k: int| 0 <= k < i ==> !holds(#[trigger] stack[k], vc),
    ensures
        owner_from(nav, stack, vc, from) == owner_at(nav, stack, vc, i),
        owner_at(nav, stack, vc, i) is Some,
    decreases i - from,
{
    lemma_position(stack[from].inner(), vc, 0);
    assert(owner_at(nav, stack, vc, from) is Some <==> holds(stack[from], vc));
    if from < i {
        assert(!holds(stack[from], vc));
        lemma_owner_at(nav, stack, vc, i, from + 1);
    }
}

/// An entry is known by its own controller.
pub proof fn law_entry_is_its_controller(vc: usize, inner: Vec<Entry>, page: usize, nested: usize)
    requires
        call_ensures(Entry::id, (&Entry::Page(vc),), page),
        call_ensures(Entry::id, (&Entry::Nav(vc, inner),), nested),
    ensures
        page == vc,
        nested == vc,
{
}

/// Popping a page of a collapsed host of three columns goes back to the entry just below it, and
/// takes nothing below it; a page that is gone asks nothing.
pub proof fn law_column_pop_goes_back_one(
    active: usize,
    stack: Vec<Entry>,
    placeholder: Option<usize>,
    pages: Vec<PageVc>,
    vc: usize,
    i: int,
    r: TripleChange,
)
    requires
        call_ensures(triple_change, (NavOp::Pop(vc), active, &stack, placeholder, &pages), r),
        0 < i < stack@.len(),
        stack@[i].id_spec() == vc,
        forall|k: int| 0 <= k < i ==> !holds(#[trigger] stack@[k], vc),
    ensures
        r == (TripleChange::Pop { owner: active, to: Some(stack@[i - 1].id_spec()) }),
{
    lemma_owner_at(active, stack@, vc, i, 0);
}

/// A page nobody holds is not popped again.
pub proof fn law_column_pop_of_a_page_gone_asks_nothing(
    active: usize,
    stack: Vec<Entry>,
    placeholder: Option<usize>,
    pages: Vec<PageVc>,
    vc: usize,
    r: TripleChange,
)
    requires
        call_ensures(triple_change, (NavOp::Pop(vc), active, &stack, placeholder, &pages), r),
        forall|k: int| 0 <= k < stack@.len() ==> !holds(#[trigger] stack@[k], vc),
    ensures
        r is Nothing,
{
    law_held_page_has_an_owner(active, stack@, vc);
}

/// Pushing a page on a collapsed host of three columns shows it on top of the details there are, in
/// their order, and of nothing else.
pub proof fn law_column_push_shows_on_top(
    active: usize,
    stack: Vec<Entry>,
    placeholder: Option<usize>,
    pages: Vec<PageVc>,
    vc: usize,
    r: TripleChange,
    there: Vec<usize>,
    details: Vec<usize>,
)
    requires
        call_ensures(triple_change, (NavOp::Push(vc), active, &stack, placeholder, &pages), r),
        call_ensures(day_pages, (&stack, placeholder), there),
        call_ensures(detail_pages, (&stack, placeholder, &pages), details),
    ensures
        details@ == there@.filter(|p: usize| is_detail(pages@, p)),
        r matches TripleChange::Show(shown) && shown@ == details@ + seq![vc],
{
    lemma_details_filter(there@, pages@);
    assert(details@.push(vc) =~= details@ + seq![vc]);
}

proof fn lemma_details_filter(stack: Seq<usize>, pages: Seq<PageVc>)
    ensures
        details_of(stack, pages) == stack.filter(|p: usize| is_detail(pages, p)),
    decreases stack.len(),
{
    reveal(Seq::filter);
    if stack.len() > 0 {
        lemma_details_filter(stack.drop_last(), pages);
    }
}

/// A controller's pane is that of the first page it controls; a controller of no page has none. A
/// detail is a page declared for the detail column.
pub proof fn law_pane_is_the_pages_own(pages: Vec<PageVc>, vc: usize, i: int, r: Option<Pane>)
    requires
        call_ensures(pane_of, (&pages, vc), r),
    ensures
        0 <= i < pages@.len() && pages@[i].vc == vc && (forall|k: int|
            0 <= k < i ==> (#[trigger] pages@[k]).vc != vc) ==> r == Some(pages@[i].pane),
        (forall|k: int| 0 <= k < pages@.len() ==> (#[trigger] pages@[k]).vc != vc) ==> r is None,
        is_detail(pages@, vc) <==> r == Some(Pane::Detail),
{
    if 0 <= i < pages@.len() && pages@[i].vc == vc && (forall|k: int|
        0 <= k < i ==> (#[trigger] pages@[k]).vc != vc) {
        lemma_pane_at(pages@, vc, i);
    }
    if forall|k: int| 0 <= k < pages@.len() ==> (#[trigger] pages@[k]).vc != vc {
        lemma_no_pane(pages@, vc);
    }
}

proof fn lemma_pane_at(pages: Seq<PageVc>, vc: usize, i: int)
    requires
        0 <= i < pages.len(),
        pages[i].vc == vc,
        forall|k: int| 0 <= k < i ==> (#[trigger] pages[k]).vc != vc,
    ensures
        pane_in(pages, vc) == Some(pages[i].pane),
    decreases i,
{
    if i > 0 {
        let rest = pages.skip(1);
        assert forall|k: int| 0 <= k < i - 1 implies (#[trigger] rest[k]).vc != vc by {
            assert(rest[k] == pages[k + 1]);
        }
        lemma_pane_at(rest, vc, i - 1);
    }
}

proof fn lemma_no_pane(pages: Seq<PageVc>, vc: usize)
    requires
        forall|k: int| 0 <= k < pages.len() ==> (#[trigger] pages[k]).vc != vc,
    ensures
        pane_in(pages, vc) is None,
    decreases pages.len(),
{
    if pages.len() > 0 {
        let rest = pages.skip(1);
        assert forall|k: int| 0 <= k < rest.len() implies (#[trigger] rest[k]).vc != vc by {
            assert(rest[k] == pages[k + 1]);
        }
        lemma_no_pane(rest, vc);
    }
}

/// A stack reads as its pages, from the bottom up: each page as itself, but for the blank root, and
/// an empty stack as none.
pub proof fn law_stack_reads_as_its_pages(
    vc: usize,
    placeholder: Option<usize>,
    stack: Vec<Entry>,
    bottom: Vec<Entry>,
    empty: Vec<Entry>,
    all: Vec<usize>,
    lower: Vec<usize>,
    none: Vec<usize>,
)
    requires
        stack@ == bottom@.push(Entry::Page(vc)),
        empty@.len() == 0,
        call_ensures(day_pages, (&stack, placeholder), all),
        call_ensures(day_pages, (&bottom, placeholder), lower),
        call_ensures(day_pages, (&empty, placeholder), none),
    ensures
        none@.len() == 0,
        placeholder == Some(vc) ==> all@ == lower@,
        placeholder != Some(vc) ==> all@ == lower@ + seq![vc],
{
    assert(stack@.drop_last() =~= bottom@);
    assert(lower@ + Seq::<usize>::empty() =~= lower@);
}

/// The page on top is the last one a stack reads as, and there is none where it reads as none.
pub proof fn law_top_page_is_the_last(
    stack: Vec<Entry>,
    placeholder: Option<usize>,
    all: Vec<usize>,
    top: Option<usize>,
)
    requires
        call_ensures(day_pages, (&stack, placeholder), all),
        call_ensures(top_page, (&stack, placeholder), top),
    ensures
        all@.len() == 0 <==> top is None,
        all@.len() > 0 ==> top == Some(all@[all@.len() - 1]),
{
}

/// What the app sees on top while a set is in flight is the set's own top; otherwise what UIKit
/// reports. The blank root is never seen.
pub proof fn law_top_in_flight_is_seen(
    q: &NavQueue,
    stack: Vec<Entry>,
    placeholder: Option<usize>,
    r: Option<usize>,
    reported: Option<usize>,
)
    requires
        call_ensures(NavQueue::current_top, (q, &stack, placeholder), r),
        call_ensures(top_page, (&stack, placeholder), reported),
    ensures
        q.in_flight is None ==> r == reported,
        q.in_flight matches Some(target) ==> target@.len() > 0 ==> if placeholder == Some(
            target@[target@.len() - 1],
        ) {
            r is None
        } else {
            r == Some(target@[target@.len() - 1])
        },
{
}

/// A change asked of a host at rest is the set that follows its turn: a pushed page on top of what
/// UIKit reports, a popped page out of it and every other page where it was.
pub proof fn law_change_asked_is_set(
    asked: &mut NavQueue,
    turned: &mut NavQueue,
    applied: &mut NavQueue,
    op: NavOp,
    schedule: bool,
    pages: Vec<usize>,
    plan: Apply,
)
    requires
        old(asked).ops@.len() == 0,
        !old(asked).scheduled,
        old(asked).in_flight is None,
        call_ensures(NavQueue::queue_op, (asked, op), schedule),
        *final(asked) == *old(turned),
        call_ensures(NavQueue::turn_ended, (turned,), ()),
        *final(turned) == *old(applied),
        call_ensures(
            NavQueue::apply_ops,
            (applied, HostStack::Stack { pages, blank: None }),
            plan,
        ),
    ensures
        schedule,
        plan matches Apply::Replace { generation, target } && {
            &&& generation == final(applied).generation
            &&& generation != old(asked).generation
            &&& final(applied).in_flight matches Some(t) && t@ == target@
            &&& op matches NavOp::Push(vc) ==> target@ == pages@ + seq![vc]
            &&& op matches NavOp::Pop(vc) ==> target@ == pages@.filter(|p: usize| p != vc)
        },
        final(applied).ops@.len() == 0,
        !final(applied).scheduled,
{
    let ops = seq![op];
    assert(old(asked).ops@.push(op) =~= ops);
    assert(ops.drop_last() =~= Seq::<NavOp>::empty());
    reveal_with_fuel(change_all, 2);
    match op {
        NavOp::Push(vc) => {
            assert(pages@.push(vc) =~= pages@ + seq![vc]);
        },
        NavOp::Pop(vc) => {
            lemma_without_filters(pages@, vc);
        },
    }
}

proof fn lemma_without_filters(stack: Seq<usize>, vc: usize)
    ensures
        without(stack, vc) == stack.filter(|p: usize| p != vc),
    decreases stack.len(),
{
    reveal(Seq::filter);
    if stack.len() > 0 {
        lemma_without_filters(stack.drop_last(), vc);
    }
}

/// Several changes are made in the order they were asked for: the last one asked is made on what
/// the ones before it leave.
pub proof fn law_last_change_is_made_last(
    q: &mut NavQueue,
    less: &mut NavQueue,
    pages: Vec<usize>,
    plan: Apply,
    before: Apply,
)
    requires
        !old(q).open && !old(less).open,
        old(q).in_flight is None && old(less).in_flight is None,
        old(q).ops@.len() > 1,
        old(less).ops@ == old(q).ops@.drop_last(),
        call_ensures(NavQueue::apply_ops, (q, HostStack::Stack { pages, blank: None }), plan),
        call_ensures(NavQueue::apply_ops, (less, HostStack::Stack { pages, blank: None }), before),
    ensures
        plan matches Apply::Replace { target, .. } && before matches Apply::Replace {
            target: left,
            ..
        } && match old(q).ops@.last() {
            NavOp::Push(vc) => target@ == left@ + seq![vc],
            NavOp::Pop(vc) => target@ == left@.filter(|p: usize| p != vc),
        },
{
    let left = change_all(pages@, old(less).ops@);
    match old(q).ops@.last() {
        NavOp::Push(vc) => {
            assert(left.push(vc) =~= left + seq![vc]);
        },
        NavOp::Pop(vc) => {
            lemma_without_filters(left, vc);
        },
    }
}

/// A set keeps a column that must not be bare on its blank root, and on nothing else there.
pub proof fn law_emptied_column_holds_its_blank_root(
    q: &mut NavQueue,
    free: &mut NavQueue,
    pages: Vec<usize>,
    blank: usize,
    plan: Apply,
    bare: Apply,
)
    requires
        !old(q).open,
        old(q).in_flight is None,
        old(q).ops@.len() > 0,
        *old(q) == *old(free),
        call_ensures(NavQueue::apply_ops, (q, HostStack::Stack { pages, blank: Some(blank) }), plan),
        call_ensures(NavQueue::apply_ops, (free, HostStack::Stack { pages, blank: None }), bare),
    ensures
        plan matches Apply::Replace { target, .. } && bare matches Apply::Replace {
            target: left,
            ..
        } && if left@.len() == 0 {
            target@ == seq![blank]
        } else {
            target@ == left@
        },
{
}

/// A collapsed host of three columns is handed its changes one by one, all of them and in order; a
/// host that is gone is handed none; and either way nothing waits or runs afterwards.
pub proof fn law_columns_take_every_change(
    q: &mut NavQueue,
    gone: &mut NavQueue,
    plan: Apply,
    nothing: Apply,
)
    requires
        !old(q).open && !old(gone).open,
        old(q).in_flight is None && old(gone).in_flight is None,
        old(q).ops@.len() > 0,
        call_ensures(NavQueue::apply_ops, (q, HostStack::CollapsedTriple), plan),
        call_ensures(NavQueue::apply_ops, (gone, HostStack::Gone), nothing),
    ensures
        plan matches Apply::Columns(ops) && ops@ == old(q).ops@,
        final(q).ops@.len() == 0 && !final(q).scheduled && final(q).in_flight is None,
        nothing is Nothing,
        final(gone).ops@.len() == 0 && !final(gone).scheduled && final(gone).in_flight is None,
{
}

/// Nothing is applied while its turn runs or a set is in flight, and nothing queued is lost by
/// trying.
pub proof fn law_application_waits(q: &mut NavQueue, host: HostStack, plan: Apply)
    requires
        old(q).open || old(q).in_flight is Some,
        call_ensures(NavQueue::apply_ops, (q, host), plan),
    ensures
        plan is Nothing,
        final(q)@ == old(q)@,
{
}

/// A change waits behind the ones asked before it, and is scheduled once for all of them; its turn
/// ends without touching it; and the settling of the set in flight leaves what waits to be
/// scheduled.
pub proof fn law_queued_changes_wait_in_order(
    asked: &mut NavQueue,
    op: NavOp,
    schedule: bool,
    turned: &mut NavQueue,
    settled: &mut NavQueue,
    generation: u64,
    more: bool,
)
    requires
        call_ensures(NavQueue::queue_op, (asked, op), schedule),
        call_ensures(NavQueue::turn_ended, (turned,), ()),
        call_ensures(NavQueue::settle, (settled, generation), more),
        generation == old(settled).generation,
    ensures
        final(asked).ops@ == old(asked).ops@ + seq![op],
        schedule == !old(asked).scheduled,
        final(asked).scheduled,
        schedule ==> final(asked).open,
        final(asked)@.in_flight == old(asked)@.in_flight,
        final(turned).ops@ == old(turned).ops@,
        !final(turned).open,
        final(turned).scheduled == old(turned).scheduled,
        final(turned)@.in_flight == old(turned)@.in_flight,
        final(settled).in_flight is None,
        final(settled).ops@ == old(settled).ops@,
        more <==> old(settled).ops@.len() > 0,
{
}

/// A stack is set exactly when it is not already what it should be, and never animated to nothing.
pub proof fn law_set_only_where_it_differs(current: Vec<usize>, target: Vec<usize>, r: SetStack)
    requires
        call_ensures(set_stack, (&current, &target), r),
    ensures
        r is Settled <==> current@ == target@,
        r matches SetStack::Replace { animated } ==> (animated <==> target@.len() > 0),
{
}

/// A set that was cancelled under Day is made once more, and no set twice more.
pub proof fn law_cancelled_set_is_made_again_once(cancelled: bool, first: bool, second: bool)
    requires
        call_ensures(set_again, (cancelled, true), first),
        call_ensures(set_again, (cancelled, false), second),
    ensures
        first == cancelled,
        !second,
{
}

/// Only a pop that is not Day's own, on a stack some host owns, is the user's; it counts once its
/// transition is over.
pub proof fn law_users_pops_are_told_from_days(day_pop: Option<bool>, animating: bool, r: PopNote)
    requires
        call_ensures(note_pop, (day_pop, animating), r),
    ensures
        r == PopNote::Ignore <==> day_pop is None || day_pop == Some(true),
        day_pop == Some(false) && animating ==> r == PopNote::Await,
        day_pop == Some(false) && !animating ==> r == PopNote::Confirm,
{
    match day_pop {
        Some(own) => {
            assert(own || day_pop == Some(false));
        },
        None => {},
    }
}

/// A user's pop is as many levels back as Day pages left: one for each, none for anything else.
pub proof fn law_user_pop_counts_its_pages(
    popped: Vec<Entry>,
    pages: Vec<PageVc>,
    levels: usize,
    left: Vec<usize>,
)
    requires
        call_ensures(confirm_user_pop, (&popped, &pages), levels),
        call_ensures(day_pages, (&popped, None), left),
    ensures
        levels == left@.filter(|p: usize| pane_in(pages@, p) is Some).len(),
{
    lemma_day_count(left@, pages@);
}

proof fn lemma_day_count(stack: Seq<usize>, pages: Seq<PageVc>)
    ensures
        day_count(stack, pages) == stack.filter(|p: usize| pane_in(pages, p) is Some).len(),
    decreases stack.len(),
{
    reveal(Seq::filter);
    if stack.len() > 0 {
        lemma_day_count(stack.drop_last(), pages);
    }
}

/// Every way back asks the guard alike: the button, the swipe and a scripted press of the button pop
/// exactly when nobody guards or nobody answers, and otherwise hand the back to the host. With
/// nothing below, or a transition running, the swipe and the press are refused.
pub proof fn law_every_back_asks_the_guard(
    guarded: bool,
    host: Option<NodeId>,
    count: usize,
    animating: bool,
    top_item: bool,
    button: Back,
    swipe: Back,
    press: Back,
)
    requires
        call_ensures(should_pop, (guarded, host), button),
        call_ensures(gesture_should_begin, (count, animating, guarded, host), swipe),
        call_ensures(press_back, (top_item, count, guarded, host), press),
    ensures
        !guarded || host is None ==> button == Back::Pop,
        guarded && host is Some ==> button == Back::Ask(host->0),
        swipe == Back::Refuse <==> count < 2 || animating,
        swipe != Back::Refuse ==> swipe == button,
        press == Back::Refuse <==> !top_item || count < 2,
        press != Back::Refuse ==> press == button,
{
}

/// A pressed back did something when the guard was asked, or when a page really left.
pub proof fn law_pressed_back_did_something(node: NodeId, popped: bool, a: bool, b: bool, c: bool)
    requires
        call_ensures(pressed, (Back::Refuse, popped), a),
        call_ensures(pressed, (Back::Ask(node), popped), b),
        call_ensures(pressed, (Back::Pop, popped), c),
    ensures
        !a,
        b,
        c == popped,
{
}

/// A scripted back presses a host that is on screen and has something to pop, none deeper than it,
/// and none where there is none.
pub proof fn law_scripted_back_presses_the_deepest(
    hosts: &Vec<BackHost>,
    r: Option<usize>,
    i: int,
)
    requires
        call_ensures(native_back, (hosts,), r),
        0 <= i < hosts@.len(),
        hosts@[i].shown,
        hosts@[i].count > 1,
    ensures
        r matches Some(k) && k < hosts@.len() && hosts@[k as int].shown && hosts@[k as int].count > 1
            && hosts@[i].depth <= hosts@[k as int].depth && (hosts@[i].depth
            == hosts@[k as int].depth ==> i <= k),
{
    assert(pressed_of(hosts@, r));
    assert(can_go_back(hosts@[i]));
}

/// A stack starts with no change queued, scheduled or in flight.
pub proof fn law_stack_starts_settled(q: NavQueue)
    requires
        call_ensures(NavQueue::new, (), q),
    ensures
        q.ops@.len() == 0 && !q.scheduled && !q.open && q.in_flight is None && q.generation == 0,
{
}

} // verus!
