//! The hierarchical tree. Day owns disclosure: a native tap only reports, and the answering patch
//! re-applies a snapshot built from the source's current hierarchy and the recorded disclosure.

use crate::event::Event;
use crate::types::{NodeId, Scalar};
use std::collections::HashSet;
use vstd::prelude::*;

verus! {

broadcast use vstd::std_specs::hash::group_hash_axioms;

pub struct TreeData {
    pub node: NodeId,
    /// Disclosure by token, as last patched: what a rebuilt snapshot restores.
    pub expanded: HashSet<u64>,
    pub row_height: Scalar,
    pub selectable: bool,
}

/// A patch to a tree, and what is done about it a turn later.
pub enum TreePatch {
    Reload,
    Expand(u64, bool),
    Selected(Vec<u64>),
    Reveal(u64),
}

pub enum TreeAct {
    /// Rebuild and apply the snapshot, animated or not.
    Snapshot { animated: bool },
    /// Deselect everything, then select these, as far as they are in the list.
    Select(Vec<u64>),
    /// Scroll this one to the middle, if it is in the list.
    Reveal(u64),
}

/// One level to append to a snapshot: under `parent`, or at the top.
pub struct Level {
    pub parent: Option<u64>,
    pub tokens: Vec<u64>,
}

/// A snapshot on its way: the parents still to be asked, and every token appended so far.
pub struct Walk {
    pub stack: Vec<Option<u64>>,
    pub present: Vec<u64>,
}

impl TreeData {
    pub fn new(node: NodeId, selectable: bool, row_height: Scalar) -> (t: TreeData)
        ensures
            t.node == node,
            t.selectable == selectable,
            t.row_height == row_height,
            t.expanded@ == Set::<u64>::empty(),
    {
        TreeData { node, expanded: HashSet::new(), row_height, selectable }
    }

    /// Apply a patch: disclosure is recorded at once, the rest is done a turn later.
    pub fn patch(&mut self, patch: TreePatch) -> (act: TreeAct)
        ensures
            final(self).node == old(self).node,
            final(self).selectable == old(self).selectable,
            final(self).row_height == old(self).row_height,
            match patch {
                TreePatch::Reload => final(self).expanded@ == old(self).expanded@ && act
                    == (TreeAct::Snapshot { animated: false }),
                TreePatch::Expand(token, on) => final(self).expanded@ == (if on {
                    old(self).expanded@.insert(token)
                } else {
                    old(self).expanded@.remove(token)
                }) && act == (TreeAct::Snapshot { animated: true }),
                TreePatch::Selected(tokens) => final(self).expanded@ == old(self).expanded@ && act
                    == TreeAct::Select(tokens),
                TreePatch::Reveal(token) => final(self).expanded@ == old(self).expanded@ && act
                    == TreeAct::Reveal(token),
            },
    {
        match patch {
            TreePatch::Reload => TreeAct::Snapshot { animated: false },
            TreePatch::Expand(token, on) => {
                if on {
                    self.expanded.insert(token);
                } else {
                    self.expanded.remove(&token);
                }
                TreeAct::Snapshot { animated: true }
            },
            TreePatch::Selected(tokens) => TreeAct::Select(tokens),
            TreePatch::Reveal(token) => TreeAct::Reveal(token),
        }
    }

    /// The selection changed: the full set is reported, or nothing by a tree that has none.
    pub fn report_selection(&self, tokens: Vec<u64>) -> (r: Option<Event>)
        ensures
            r == (if self.selectable {
                Some(Event::TreeSelection(tokens))
            } else {
                None
            }),
    {
        if self.selectable {
            Some(Event::TreeSelection(tokens))
        } else {
            None
        }
    }

    /// The disclosure of a row was tapped while it was `open`: report the opposite, toggle nothing.
    pub fn disclosure_tapped(&self, token: u64, open: bool) -> (r: Event)
        ensures
            r == (Event::TreeExpanded { token, expanded: !open }),
    {
        Event::TreeExpanded { token, expanded: !open }
    }

    /// The tokens of a finished walk that are open.
    pub fn open_tokens(&self, walk: &Walk) -> (r: Vec<u64>)
        ensures
            r@ == open_of(walk.present@, self.expanded@),
    {
        let mut out: Vec<u64> = Vec::new();
        let n: usize = walk.present.len();
        for i in 0..n
            invariant
                n == walk.present@.len(),
                out@ == open_of(walk.present@.take(i as int), self.expanded@),
        {
            proof {
                assert(walk.present@.take(i + 1).drop_last() == walk.present@.take(i as int));
            }
            let t = walk.present[i];
            if self.expanded.contains(&t) {
                out.push(t);
            }
        }
        proof {
            assert(walk.present@.take(n as int) == walk.present@);
        }
        out
    }
}

/// The tokens of `present` whose disclosure is recorded, in order.
pub open spec fn open_of(present: Seq<u64>, expanded: Set<u64>) -> Seq<u64>
    decreases present.len(),
{
    if present.len() == 0 {
        present
    } else if expanded.contains(present.last()) {
        open_of(present.drop_last(), expanded).push(present.last())
    } else {
        open_of(present.drop_last(), expanded)
    }
}

/// The expandable ones among the first `n` of `kids`, as parents still to be asked.
pub open spec fn parents_of(kids: Seq<u64>, expandable: Seq<bool>, n: int) -> Seq<Option<u64>>
    decreases n,
{
    if n <= 0 {
        Seq::empty()
    } else if expandable[n - 1] {
        parents_of(kids, expandable, n - 1).push(Some(kids[n - 1]))
    } else {
        parents_of(kids, expandable, n - 1)
    }
}

impl Walk {
    /// Every parent still to be asked is already in the snapshot.
    pub open spec fn wf(self) -> bool {
        forall|i: int|
            0 <= i < self.stack@.len() ==> match #[trigger] self.stack@[i] {
                None => true,
                Some(p) => self.present@.contains(p),
            }
    }

    /// A walk starts at the top.
    pub fn new() -> (w: Walk)
        ensures
            w.wf(),
            w.stack@ == seq![None::<u64>],
            w.present@.len() == 0,
    {
        Walk { stack: vec![None], present: Vec::new() }
    }

    /// The next parent whose children to read; `None` when the walk is done.
    pub fn next(&mut self) -> (r: Option<Option<u64>>)
        requires
            old(self).wf(),
        ensures
            final(self).wf(),
            final(self).present@ == old(self).present@,
            match r {
                None => old(self).stack@.len() == 0 && final(self).stack@ == old(self).stack@,
                Some(parent) => old(self).stack@.len() > 0 && parent == old(self).stack@.last()
                    && final(self).stack@ == old(self).stack@.drop_last() && match parent {
                    Some(p) => final(self).present@.contains(p),
                    None => true,
                },
            },
    {
        let r = self.stack.pop();
        proof {
            if old(self).stack@.len() > 0 {
                let last = old(self).stack@.len() - 1;
                assert(old(self).stack@[last] == old(self).stack@.last());
                assert forall|i: int| 0 <= i < self.stack@.len() implies match #[trigger] self.stack@[i] {
                    None => true,
                    Some(p) => self.present@.contains(p),
                } by {
                    assert(self.stack@[i] == old(self).stack@[i]);
                }
            }
        }
        r
    }

    /// The children of `parent`, with whether each can be expanded. The level to append; none for
    /// a parent without children.
    pub fn level(&mut self, parent: Option<u64>, kids: Vec<u64>, expandable: Vec<bool>) -> (r:
        Option<Level>)
        requires
            old(self).wf(),
            kids@.len() == expandable@.len(),
        ensures
            final(self).wf(),
            r is None == (kids@.len() == 0),
            r matches Some(l) ==> l.parent == parent && l.tokens == kids,
            final(self).present@ == old(self).present@ + kids@,
            final(self).stack@ == old(self).stack@ + parents_of(
                kids@,
                expandable@,
                kids@.len() as int,
            ),
    {
        let n: usize = kids.len();
        if n == 0 {
            proof {
                assert(self.present@ + kids@ =~= self.present@);
                assert(self.stack@ + parents_of(kids@, expandable@, 0) =~= self.stack@);
            }
            return None;
        }
        for i in 0..n
            invariant
                n == kids@.len(),
                n == expandable@.len(),
                self.present@ == old(self).present@ + kids@.take(i as int),
                self.stack@ == old(self).stack@ + parents_of(kids@, expandable@, i as int),
                self.wf(),
        {
            let ghost before = *self;
            self.present.push(kids[i]);
            proof {
                assert(self.present@ =~= old(self).present@ + kids@.take(i + 1));
                assert(self.present@[before.present@.len() as int] == kids@[i as int]);
                assert forall|x: u64| before.present@.contains(x) implies self.present@.contains(
                    x,
                ) by {
                    let k = choose|k: int| 0 <= k < before.present@.len() && before.present@[k] == x;
                    assert(self.present@[k] == x);
                }
                assert forall|k: int| 0 <= k < self.stack@.len() implies match #[trigger] self.stack@[k] {
                    None => true,
                    Some(p) => self.present@.contains(p),
                } by {
                    assert(self.stack@[k] == before.stack@[k]);
                }
            }
            if expandable[i] {
                let ghost mid = *self;
                self.stack.push(Some(kids[i]));
                proof {
                    assert forall|k: int| 0 <= k < self.stack@.len() implies match #[trigger] self.stack@[k] {
                        None => true,
                        Some(p) => self.present@.contains(p),
                    } by {
                        if k < mid.stack@.len() {
                            assert(self.stack@[k] == mid.stack@[k]);
                        }
                    }
                    assert(self.stack@ =~= old(self).stack@ + parents_of(
                        kids@,
                        expandable@,
                        i + 1,
                    ));
                }
            }
        }
        proof {
            assert(kids@.take(n as int) == kids@);
        }
        Some(Level { parent, tokens: kids })
    }
}

/// A hierarchy as its source answers: the children of each parent, or of the top, and which tokens
/// can be expanded.
pub struct Hierarchy {
    pub kids: spec_fn(Option<u64>) -> Seq<u64>,
    pub expandable: spec_fn(u64) -> bool,
}

impl Hierarchy {
    /// No token stands twice.
    pub open spec fn is_tree(self) -> bool {
        &&& forall|p: Option<u64>| (#[trigger] (self.kids)(p)).no_duplicates()
        &&& forall|p: Option<u64>, q: Option<u64>, t: u64|
            #[trigger] (self.kids)(p).contains(t) && #[trigger] (self.kids)(q).contains(t) ==> p == q
    }

    /// `t` stands `depth` levels below the top, under parents that can be expanded.
    pub open spec fn at_depth(self, t: u64, depth: nat) -> bool
        decreases depth,
    {
        if depth == 0 {
            (self.kids)(None).contains(t)
        } else {
            exists|p: u64|
                self.at_depth(p, (depth - 1) as nat) && (self.expandable)(p)
                    && #[trigger] (self.kids)(Some(p)).contains(t)
        }
    }

    pub open spec fn reachable(self, t: u64) -> bool {
        exists|depth: nat| self.at_depth(t, depth)
    }

    pub open spec fn flags(self, tokens: Seq<u64>) -> Seq<bool> {
        Seq::new(tokens.len(), |i: int| (self.expandable)(tokens[i]))
    }
}

/// A walk as a value, with the parents asked so far.
#[verifier::ext_equal]
pub struct Steps {
    pub stack: Seq<Option<u64>>,
    pub present: Seq<u64>,
    pub asked: Seq<Option<u64>>,
}

impl Steps {
    pub open spec fn start() -> Steps {
        Steps { stack: seq![None], present: Seq::empty(), asked: Seq::empty() }
    }

    /// One [`Walk::next`], and [`Walk::level`] with what the source answers.
    pub open spec fn after(self, source: Hierarchy) -> Steps {
        let parent = self.stack.last();
        let kids = (source.kids)(parent);
        Steps {
            stack: self.stack.drop_last() + parents_of(
                kids,
                source.flags(kids),
                kids.len() as int,
            ),
            present: self.present + kids,
            asked: self.asked.push(parent),
        }
    }

    /// The walk after `n` steps.
    pub open spec fn walked(source: Hierarchy, n: nat) -> Steps
        decreases n,
    {
        if n == 0 {
            Steps::start()
        } else {
            Steps::walked(source, (n - 1) as nat).after(source)
        }
    }

    /// A walk of `n` steps is done: it never ran out before.
    pub open spec fn done(source: Hierarchy, n: nat) -> bool {
        &&& Steps::walked(source, n).stack.len() == 0
        &&& forall|k: nat| k < n ==> (#[trigger] Steps::walked(source, k)).stack.len() > 0
    }
}

/// Asking for the next parent and answering with its level is one step of a walk.
pub proof fn law_next_and_level_make_a_step(
    source: Hierarchy,
    asked: Seq<Option<u64>>,
    before: Walk,
    popped: Walk,
    parent: Option<u64>,
    after: Walk,
)
    requires
        before.stack@.len() > 0,
        parent == before.stack@.last(),
        popped.stack@ == before.stack@.drop_last(),
        popped.present@ == before.present@,
        ({
            let kids = (source.kids)(parent);
            &&& after.present@ == popped.present@ + kids
            &&& after.stack@ == popped.stack@ + parents_of(
                kids,
                source.flags(kids),
                kids.len() as int,
            )
        }),
    ensures
        (Steps { stack: before.stack@, present: before.present@, asked }).after(source) == (Steps {
            stack: after.stack@,
            present: after.present@,
            asked: asked.push(parent),
        }),
{
}

/// The children of `parents`, level after level.
pub open spec fn levels(source: Hierarchy, parents: Seq<Option<u64>>) -> Seq<u64>
    decreases parents.len(),
{
    if parents.len() == 0 {
        Seq::empty()
    } else {
        levels(source, parents.drop_last()) + (source.kids)(parents.last())
    }
}

proof fn lemma_parents(kids: Seq<u64>, flags: Seq<bool>, n: int)
    requires
        0 <= n <= kids.len(),
        flags.len() == kids.len(),
    ensures
        forall|p: Option<u64>|
            parents_of(kids, flags, n).contains(p) <==> exists|i: int|
                0 <= i < n && flags[i] && p == Some(#[trigger] kids[i]),
        kids.no_duplicates() ==> parents_of(kids, flags, n).no_duplicates(),
    decreases n,
{
    if n > 0 {
        lemma_parents(kids, flags, n - 1);
        let front = parents_of(kids, flags, n - 1);
        let all = parents_of(kids, flags, n);
        if flags[n - 1] {
            assert(all == front.push(Some(kids[n - 1])));
            assert forall|p: Option<u64>| all.contains(p) <==> front.contains(p) || p == Some(
                kids[n - 1],
            ) by {
                lemma_push_contains(front, Some(kids[n - 1]), p);
            }
            if kids.no_duplicates() {
                assert(!front.contains(Some(kids[n - 1])));
                lemma_push_unique(front, Some(kids[n - 1]));
            }
        }
    }
}

proof fn lemma_push_contains<T>(s: Seq<T>, x: T, y: T)
    ensures
        s.push(x).contains(y) <==> s.contains(y) || y == x,
{
    let full = s.push(x);
    if s.contains(y) {
        let i = choose|i: int| 0 <= i < s.len() && s[i] == y;
        assert(full[i] == y);
    }
    assert(full[full.len() - 1] == x);
    if full.contains(y) {
        let i = choose|i: int| 0 <= i < full.len() && full[i] == y;
        if i < s.len() {
            assert(s[i] == y);
        }
    }
}

proof fn lemma_push_unique<T>(s: Seq<T>, x: T)
    requires
        s.no_duplicates(),
        !s.contains(x),
    ensures
        s.push(x).no_duplicates(),
{
    let full = s.push(x);
    assert forall|i: int, j: int| 0 <= i < full.len() && 0 <= j < full.len() && i != j implies full[i]
        != full[j] by {
        if i < s.len() && j < s.len() {
            assert(s[i] != s[j]);
        } else if i < s.len() {
            assert(s.contains(s[i]));
        } else {
            assert(s.contains(s[j]));
        }
    }
}

proof fn lemma_both_contain<T>(a: Seq<T>, b: Seq<T>, x: T)
    ensures
        (a + b).contains(x) <==> a.contains(x) || b.contains(x),
{
    let full = a + b;
    if a.contains(x) {
        let i = choose|i: int| 0 <= i < a.len() && a[i] == x;
        assert(full[i] == x);
    }
    if b.contains(x) {
        let i = choose|i: int| 0 <= i < b.len() && b[i] == x;
        assert(full[a.len() + i] == x);
    }
    if full.contains(x) {
        let i = choose|i: int| 0 <= i < full.len() && full[i] == x;
        if i < a.len() {
            assert(a[i] == x);
        } else {
            assert(b[i - a.len()] == x);
        }
    }
}

proof fn lemma_both_unique<T>(a: Seq<T>, b: Seq<T>)
    requires
        a.no_duplicates(),
        b.no_duplicates(),
        forall|x: T| a.contains(x) ==> !b.contains(x),
    ensures
        (a + b).no_duplicates(),
{
    let full = a + b;
    assert forall|i: int, j: int| 0 <= i < full.len() && 0 <= j < full.len() && i != j implies full[i]
        != full[j] by {
        if i < a.len() && j < a.len() {
            assert(a[i] != a[j]);
        } else if i >= a.len() && j >= a.len() {
            assert(b[i - a.len()] != b[j - a.len()]);
        } else if i < a.len() {
            assert(a.contains(a[i]));
            assert(b.contains(b[j - a.len()]));
        } else {
            assert(a.contains(a[j]));
            assert(b.contains(b[i - a.len()]));
        }
    }
}

/// What every walk keeps.
pub open spec fn sound(source: Hierarchy, w: Steps) -> bool {
    &&& w.present == levels(source, w.asked)
    &&& forall|t: u64| w.present.contains(t) <==> exists|p: Option<u64>|
        w.asked.contains(p) && (#[trigger] (source.kids)(p)).contains(t)
    &&& forall|t: u64| w.present.contains(t) ==> #[trigger] source.reachable(t)
    &&& forall|p: Option<u64>|
        #![trigger w.stack.contains(p)]
        #![trigger w.asked.contains(p)]
        w.stack.contains(p) || w.asked.contains(p) <==> match p {
            None => true,
            Some(t) => w.present.contains(t) && (source.expandable)(t),
        }
}

/// What every walk of a tree keeps.
pub open spec fn once(w: Steps) -> bool {
    &&& w.present.no_duplicates()
    &&& w.stack.no_duplicates()
    &&& w.asked.no_duplicates()
    &&& forall|p: Option<u64>| w.stack.contains(p) ==> !(#[trigger] w.asked.contains(p))
}

proof fn lemma_walk(source: Hierarchy, n: nat)
    requires
        forall|k: nat| k < n ==> (#[trigger] Steps::walked(source, k)).stack.len() > 0,
    ensures
        sound(source, Steps::walked(source, n)),
        source.is_tree() ==> once(Steps::walked(source, n)),
        Steps::walked(source, n).asked.len() == n,
        n > 0 ==> Steps::walked(source, n).asked[0] is None,
    decreases n,
{
    if n == 0 {
        let w = Steps::start();
        assert(Steps::walked(source, 0) == w);
        assert(w.stack[0] is None);
        assert(w.stack.contains(None));
    } else {
        let w = Steps::walked(source, (n - 1) as nat);
        assert(w.stack.len() > 0);
        lemma_walk(source, (n - 1) as nat);
        let parent = w.stack.last();
        let kids = (source.kids)(parent);
        let flags = source.flags(kids);
        let more = parents_of(kids, flags, kids.len() as int);
        let rest = w.stack.drop_last();
        let after = w.after(source);
        assert(Steps::walked(source, n) == after);
        assert(after.asked.drop_last() =~= w.asked);
        lemma_parents(kids, flags, kids.len() as int);
        assert(rest.push(parent) =~= w.stack);
        assert(w.stack.contains(parent)) by {
            assert(w.stack[w.stack.len() - 1] == parent);
        }
        assert forall|p: Option<u64>| more.contains(p) <==> (p is Some && kids.contains(p->0)
            && (source.expandable)(p->0)) by {
            if p is Some && kids.contains(p->0) {
                let i = choose|i: int| 0 <= i < kids.len() && kids[i] == p->0;
                assert(flags[i] == (source.expandable)(kids[i]));
            }
        }
        assert forall|t: u64| after.present.contains(t) <==> w.present.contains(t) || kids.contains(
            t,
        ) by {
            lemma_both_contain(w.present, kids, t);
        }
        assert forall|p: Option<u64>| after.asked.contains(p) <==> w.asked.contains(p) || p
            == parent by {
            lemma_push_contains(w.asked, parent, p);
        }
        assert forall|p: Option<u64>| after.stack.contains(p) <==> rest.contains(p)
            || more.contains(p) by {
            lemma_both_contain(rest, more, p);
        }
        assert forall|p: Option<u64>| w.stack.contains(p) <==> rest.contains(p) || p == parent by {
            lemma_push_contains(rest, parent, p);
        }
        assert forall|t: u64| after.present.contains(t) <==> exists|p: Option<u64>|
            after.asked.contains(p) && (#[trigger] (source.kids)(p)).contains(t) by {
            if w.present.contains(t) {
                let p = choose|p: Option<u64>|
                    w.asked.contains(p) && (#[trigger] (source.kids)(p)).contains(t);
                assert(after.asked.contains(p) && (source.kids)(p).contains(t));
            }
            if kids.contains(t) {
                assert(after.asked.contains(parent) && (source.kids)(parent).contains(t));
            }
        }
        assert forall|t: u64| after.present.contains(t) implies #[trigger] source.reachable(t) by {
            if kids.contains(t) {
                match parent {
                    None => {
                        assert(source.at_depth(t, 0));
                    },
                    Some(p) => {
                        assert(w.stack.contains(Some(p)));
                        assert(w.present.contains(p) && (source.expandable)(p));
                        assert(source.reachable(p));
                        let d = choose|d: nat| source.at_depth(p, d);
                        assert((source.kids)(Some(p)).contains(t));
                        assert(source.at_depth(t, d + 1));
                    },
                }
            }
        }
        assert forall|p: Option<u64>|
            #![trigger after.stack.contains(p)]
            #![trigger after.asked.contains(p)]
            after.stack.contains(p) || after.asked.contains(p) <==> match p {
                None => true,
                Some(t) => after.present.contains(t) && (source.expandable)(t),
            } by {
            lemma_both_contain(rest, more, p);
            lemma_push_contains(rest, parent, p);
            lemma_push_contains(w.asked, parent, p);
            if p is Some {
                lemma_both_contain(w.present, kids, p->0);
            }
            assert(more.contains(p) <==> (p is Some && kids.contains(p->0) && (source.expandable)(
                p->0,
            )));
            assert(w.stack.contains(p) || w.asked.contains(p) <==> match p {
                None => true,
                Some(t) => w.present.contains(t) && (source.expandable)(t),
            });
        }
        if source.is_tree() {
            assert forall|t: u64| w.present.contains(t) implies !kids.contains(t) by {
                let p = choose|p: Option<u64>|
                    w.asked.contains(p) && (#[trigger] (source.kids)(p)).contains(t);
                if kids.contains(t) {
                    assert((source.kids)(p).contains(t) && (source.kids)(parent).contains(t));
                    assert(w.asked.contains(parent));
                }
            }
            lemma_both_unique(w.present, kids);
            assert forall|p: Option<u64>| more.contains(p) implies !w.stack.contains(p)
                && !w.asked.contains(p) by {
                assert(!w.present.contains(p->0));
            }
            assert(rest.no_duplicates());
            lemma_both_unique(rest, more);
            assert(!rest.contains(parent)) by {
                if rest.contains(parent) {
                    let i = choose|i: int| 0 <= i < rest.len() && rest[i] == parent;
                    assert(w.stack[i] != w.stack[w.stack.len() - 1]);
                }
            }
            lemma_push_unique(w.asked, parent);
            assert forall|p: Option<u64>| after.stack.contains(p) implies !(
            #[trigger] after.asked.contains(p)) by {
                if more.contains(p) {
                    assert(w.stack.contains(parent));
                }
            }
        }
    }
}

proof fn lemma_all_reached(source: Hierarchy, w: Steps, t: u64, depth: nat)
    requires
        sound(source, w),
        w.stack.len() == 0,
        source.at_depth(t, depth),
    ensures
        w.present.contains(t),
    decreases depth,
{
    if depth == 0 {
        assert(!w.stack.contains(None));
        assert(w.asked.contains(None) && (source.kids)(None).contains(t));
    } else {
        let p = choose|p: u64|
            source.at_depth(p, (depth - 1) as nat) && (source.expandable)(p)
                && #[trigger] (source.kids)(Some(p)).contains(t);
        lemma_all_reached(source, w, p, (depth - 1) as nat);
        assert(!w.stack.contains(Some(p)));
        assert(w.asked.contains(Some(p)) && (source.kids)(Some(p)).contains(t));
    }
}

/// A walk that is done has appended every token the hierarchy reaches, and no other: level after
/// level, the top first, the children of each parent together and in their order, under it. A
/// parent's level comes after the one the parent stands in, and each parent is asked that can be
/// expanded. In a hierarchy where no token stands twice, each is appended once and each parent asked
/// once.
pub proof fn law_walk_visits_every_token(source: Hierarchy, n: nat, t: u64)
    requires
        Steps::done(source, n),
    ensures
        ({
            let w = Steps::walked(source, n);
            &&& w.present == levels(source, w.asked)
            &&& w.asked[0] is None
            &&& w.present.contains(t) <==> source.reachable(t)
            &&& w.asked.contains(Some(t)) <==> source.reachable(t) && (source.expandable)(t)
            &&& source.is_tree() ==> w.present.no_duplicates() && w.asked.no_duplicates()
        }),
{
    lemma_walk(source, n);
    let w = Steps::walked(source, n);
    if source.reachable(t) {
        let d = choose|d: nat| source.at_depth(t, d);
        lemma_all_reached(source, w, t, d);
    }
    assert(!w.stack.contains(Some(t)));
}

/// A level goes under a parent that an earlier level appended.
pub proof fn law_parents_come_first(source: Hierarchy, n: nat)
    requires
        n > 0,
        forall|k: nat| k < n ==> (#[trigger] Steps::walked(source, k)).stack.len() > 0,
    ensures
        ({
            let before = Steps::walked(source, (n - 1) as nat);
            let after = Steps::walked(source, n);
            &&& after.present == before.present + (source.kids)(after.asked.last())
            &&& after.asked.last() matches Some(p) ==> before.present.contains(p)
        }),
{
    let before = Steps::walked(source, (n - 1) as nat);
    lemma_walk(source, (n - 1) as nat);
    assert(before.stack[before.stack.len() - 1] == before.stack.last());
    assert(before.stack.contains(before.stack.last()));
}

/// Snapshots restore disclosure: what was opened and not closed again is open in any snapshot it
/// occurs in, and nothing else is.
pub proof fn law_snapshot_restores_disclosure(present: Seq<u64>, expanded: Set<u64>, token: u64)
    ensures
        open_of(present, expanded).contains(token) <==> present.contains(token)
            && expanded.contains(token),
    decreases present.len(),
{
    if present.len() > 0 {
        let front = present.drop_last();
        law_snapshot_restores_disclosure(front, expanded, token);
        assert(present == front.push(present.last()));
        assert(present.contains(token) <==> front.contains(token) || token == present.last()) by {
            if front.contains(token) {
                let i = choose|i: int| 0 <= i < front.len() && front[i] == token;
                assert(present[i] == token);
            }
            assert(present[present.len() - 1] == present.last());
        }
        let rest = open_of(front, expanded);
        let full = rest.push(present.last());
        assert(full.contains(token) <==> rest.contains(token) || token == present.last()) by {
            if rest.contains(token) {
                let i = choose|i: int| 0 <= i < rest.len() && rest[i] == token;
                assert(full[i] == token);
            }
            assert(full[full.len() - 1] == present.last());
        }
    }
}

/// A tree is made with nothing open. A patch to its disclosure opens or closes that row and no other, and
/// shows it moving; every other patch leaves the disclosure alone and does what it asks.
pub proof fn law_disclosure_is_as_last_patched(
    node: NodeId,
    selectable: bool,
    height: Scalar,
    made: TreeData,
    t: &mut TreeData,
    token: u64,
    on: bool,
    act: TreeAct,
    other: u64,
)
    requires
        call_ensures(TreeData::new, (node, selectable, height), made),
        call_ensures(TreeData::patch, (t, TreePatch::Expand(token, on)), act),
        other != token,
    ensures
        made.node == node && made.selectable == selectable && made.row_height == height,
        !made.expanded@.contains(token),
        act == (TreeAct::Snapshot { animated: true }),
        final(t).expanded@.contains(token) == on,
        final(t).expanded@.contains(other) == old(t).expanded@.contains(other),
        final(t).node == old(t).node && final(t).selectable == old(t).selectable && final(t).row_height
            == old(t).row_height,
{
}

/// A reload shows the rows again at once, a selection selects its own rows, and a reveal reveals its own;
/// none changes the disclosure.
pub proof fn law_tree_does_what_it_is_patched_to(
    a: &mut TreeData,
    b: &mut TreeData,
    c: &mut TreeData,
    tokens: Vec<u64>,
    token: u64,
    reload: TreeAct,
    select: TreeAct,
    reveal: TreeAct,
)
    requires
        call_ensures(TreeData::patch, (a, TreePatch::Reload), reload),
        call_ensures(TreeData::patch, (b, TreePatch::Selected(tokens)), select),
        call_ensures(TreeData::patch, (c, TreePatch::Reveal(token)), reveal),
    ensures
        reload == (TreeAct::Snapshot { animated: false }),
        select == TreeAct::Select(tokens),
        reveal == TreeAct::Reveal(token),
        final(a).expanded@ == old(a).expanded@,
        final(b).expanded@ == old(b).expanded@,
        final(c).expanded@ == old(c).expanded@,
{
}

/// A selectable tree reports the whole selection, another none of it; a tapped disclosure reports the
/// opposite of what it shows.
pub proof fn law_tree_reports_what_was_tapped(
    t: &TreeData,
    tokens: Vec<u64>,
    token: u64,
    open: bool,
    selected: Option<Event>,
    tapped: Event,
)
    requires
        call_ensures(TreeData::report_selection, (t, tokens), selected),
        call_ensures(TreeData::disclosure_tapped, (t, token, open), tapped),
    ensures
        t.selectable ==> selected == Some(Event::TreeSelection(tokens)),
        !t.selectable ==> selected is None,
        tapped matches Event::TreeExpanded { token: of, expanded } && of == token && expanded != open,
{
}

proof fn lemma_open_is_filtered(present: Seq<u64>, expanded: Set<u64>)
    ensures
        open_of(present, expanded) == present.filter(|t: u64| expanded.contains(t)),
    decreases present.len(),
{
    reveal(Seq::filter);
    if present.len() > 0 {
        lemma_open_is_filtered(present.drop_last(), expanded);
    } else {
        assert(present =~= present.filter(|t: u64| expanded.contains(t)));
    }
}

/// The rows of a snapshot that are open are those whose disclosure is recorded, in their order.
pub proof fn law_open_rows_are_the_recorded_ones(t: &TreeData, walk: &Walk, r: Vec<u64>)
    requires
        call_ensures(TreeData::open_tokens, (t, walk), r),
    ensures
        r@ == walk.present@.filter(|token: u64| t.expanded@.contains(token)),
{
    lemma_open_is_filtered(walk.present@, t.expanded@);
    assert(walk.present@.filter(|t1: u64| t.expanded@.contains(t1)) =~= walk.present@.filter(
        |token: u64| t.expanded@.contains(token),
    ));
}

/// The rows of one level, each with whether it can be expanded.
pub open spec fn marked(kids: Seq<u64>, expandable: Seq<bool>, n: nat) -> Seq<(u64, bool)> {
    Seq::new(n, |i: int| (kids[i], expandable[i]))
}

proof fn lemma_parents_are_filtered(kids: Seq<u64>, expandable: Seq<bool>, n: nat)
    ensures
        parents_of(kids, expandable, n as int) == marked(kids, expandable, n).filter(
            |m: (u64, bool)| m.1,
        ).map_values(|m: (u64, bool)| Some(m.0)),
    decreases n,
{
    reveal(Seq::filter);
    let all = marked(kids, expandable, n);
    let keep = |m: (u64, bool)| m.1;
    let name = |m: (u64, bool)| Some(m.0);
    if n > 0 {
        lemma_parents_are_filtered(kids, expandable, (n - 1) as nat);
        assert(all.drop_last() =~= marked(kids, expandable, (n - 1) as nat));
        let front = all.drop_last().filter(keep);
        if expandable[n - 1] {
            assert(all.filter(keep) == front.push(all.last()));
            assert(front.push(all.last()).map_values(name) =~= front.map_values(name).push(
                Some(kids[n - 1]),
            ));
        } else {
            assert(all.filter(keep) == front);
        }
    } else {
        assert(all.filter(keep).map_values(name) =~= Seq::<Option<u64>>::empty());
    }
}

/// A level answered for a parent is appended under it, whole and in order, and each of its rows that can
/// be expanded is asked later; the last of them next.
pub proof fn law_level_goes_under_its_parent(
    w: &mut Walk,
    parent: Option<u64>,
    kids: Vec<u64>,
    expandable: Vec<bool>,
    r: Option<Level>,
)
    requires
        kids@.len() == expandable@.len(),
        call_ensures(Walk::level, (w, parent, kids, expandable), r),
    ensures
        kids@.len() == 0 ==> r is None,
        kids@.len() > 0 ==> (r matches Some(l) && l.parent == parent && l.tokens@ == kids@),
        final(w).present@ == old(w).present@ + kids@,
        final(w).stack@ == old(w).stack@ + marked(kids@, expandable@, kids@.len()).filter(
            |m: (u64, bool)| m.1,
        ).map_values(|m: (u64, bool)| Some(m.0)),
{
    lemma_parents_are_filtered(kids@, expandable@, kids@.len());
}

/// A walk asks for the top first, and then for what was put by last; it is done when nothing is left.
pub proof fn law_walk_asks_until_nothing_is_left(
    made: Walk,
    first: &mut Walk,
    w: &mut Walk,
    top: Option<Option<u64>>,
    r: Option<Option<u64>>,
)
    requires
        call_ensures(Walk::new, (), made),
        *old(first) == made,
        call_ensures(Walk::next, (first,), top),
        call_ensures(Walk::next, (w,), r),
    ensures
        top == Some(None::<u64>),
        final(first).stack@.len() == 0 && made.present@.len() == 0,
        r is None <==> old(w).stack@.len() == 0,
        r matches Some(parent) ==> old(w).stack@ == final(w).stack@.push(parent),
        final(w).present@ == old(w).present@,
{
    if old(w).stack@.len() > 0 {
        assert(old(w).stack@.drop_last().push(old(w).stack@.last()) =~= old(w).stack@);
    }
}

} // verus!
