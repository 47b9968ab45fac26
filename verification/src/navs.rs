//! The navigation tables: hosts and their pending changes, pages, covers, tabs hosts and the rows
//! that wait for one; and the two tree duties that decide where a child goes.

use crate::nav_stack::{Apply, ApplyView, HostStack, NavOp, NavQueue, PageVc, Pane, QueueState};
use crate::split::{NavHost, SplitParts};
use crate::tabs::{MenuRows, NavTabs, TabPage, TabsTable};
use crate::types::NodeId;
use std::collections::HashMap;
use vstd::prelude::*;

verus! {

broadcast use vstd::std_specs::hash::group_hash_axioms;

/// A cover: its controller, and the node its content is.
#[derive(Clone, Copy, PartialEq, Eq, Structural, Debug)]
pub struct Cover {
    pub vc: usize,
    pub node: NodeId,
}

pub struct Navs {
    pub hosts: HashMap<usize, NavHost>,
    pub queues: HashMap<usize, NavQueue>,
    pub pages: Vec<PageVc>,
    pub covers: HashMap<usize, Cover>,
    pub tabs: TabsTable,
    /// The rows of menus realized and not inserted yet.
    pub menu_rows: HashMap<usize, MenuRows>,
}

/// The page of `handle`, from position `from`.
pub open spec fn page_from(pages: Seq<PageVc>, handle: usize, from: int) -> Option<int>
    decreases pages.len() - from,
{
    if from < 0 || from >= pages.len() {
        None
    } else if pages[from].handle == handle {
        Some(from)
    } else {
        page_from(pages, handle, from + 1)
    }
}

/// What surrounds an insertion.
pub struct Around {
    /// The parent is a window's root: what it holds decides whether the window is padded.
    pub holder: bool,
    /// The parent, and every view above it.
    pub chain: Vec<usize>,
    /// The tabs host is wide: its pages bring no navigation controller of their own.
    pub wide: bool,
    /// The nearest controller up the responder chain from the parent.
    pub enclosing_vc: Option<usize>,
}

/// How a page joining a stack is dressed.
#[derive(Clone, Copy, PartialEq, Eq, Structural, Debug)]
pub enum PageDress {
    /// The sidebar of a searchable surface: the search field pinned under a large title.
    Search,
    /// The sidebar of any other surface: left as it is.
    Sidebar,
    /// Any other page: never a large title.
    Plain,
}

/// Where a child goes.
#[derive(Clone, Copy, PartialEq, Eq, Structural, Debug)]
pub enum Place {
    /// The sidebar page of a tabs host, which draws its sidebar from the tabs.
    KeptOut,
    /// A page of a tabs host: the page itself, or wrapped in a navigation controller; the caller
    /// adds it with [`Navs::add_tab`].
    Tab { page: PageVc, wrap: bool },
    /// A child of a tabs host that is no page.
    TabStray,
    /// The content list's page: the root of this column, or kept until there is one.
    ListColumn { column: Option<usize>, vc: usize },
    /// The sidebar page of a split: the root of its primary column.
    SidebarColumn { nav: usize, vc: usize, dress: PageDress },
    /// A page pushed on its host's stack.
    Pushed { vc: usize, dress: PageDress },
    /// A cover's content, which lives in its own controller.
    Cover,
    /// A host's view under a page: its controller moves to the page's first.
    Contained { host_vc: usize, page_vc: usize },
    /// A plain subview.
    Subview,
}

/// What an insertion asks for.
#[derive(Clone, Copy, PartialEq, Eq, Structural, Debug)]
pub struct Insert {
    /// The window's holder lays out again.
    pub relayout: bool,
    /// The tabs host to sync: the child brought its rows.
    pub sync: Option<usize>,
    pub place: Place,
    /// The stack change has to be scheduled.
    pub schedule: bool,
}

/// What a removal asks for.
#[derive(Clone, Copy, PartialEq, Eq, Structural, Debug)]
pub enum Removal {
    /// Take the view out.
    View,
    /// The page's stack change is queued; whether it has to be scheduled.
    Popped { schedule: bool },
    /// A host's child that is no page.
    Nothing,
}

impl Navs {
    /// A view is a page once.
    pub open spec fn wf(self) -> bool {
        forall|i: int, j: int|
            0 <= i < j < self.pages@.len() ==> (#[trigger] self.pages@[i]).handle != (
            #[trigger] self.pages@[j]).handle
    }

    pub open spec fn host(self, h: usize) -> Option<NavHost> {
        if self.hosts@.dom().contains(h) {
            Some(self.hosts@[h])
        } else {
            None
        }
    }

    /// A host's pending changes; a host that never had any is fresh.
    pub open spec fn queue(self, h: usize) -> QueueState {
        if self.queues@.dom().contains(h) {
            self.queues@[h]@
        } else {
            QueueState {
                ops: Seq::empty(),
                scheduled: false,
                open: false,
                in_flight: None,
                generation: 0,
            }
        }
    }

    pub open spec fn page(self, h: usize) -> Option<PageVc> {
        match page_from(self.pages@, h, 0) {
            Some(i) => Some(self.pages@[i]),
            None => None,
        }
    }

    /// Every page but the one of `h` is what it was.
    pub open spec fn other_pages_stay(self, before: Navs, h: usize) -> bool {
        forall|o: usize| o != h ==> #[trigger] self.page(o) == before.page(o)
    }

    /// The controller behind a host's handle: a navigation host's outermost one, or the tab bar.
    pub open spec fn controller(self, h: usize) -> Option<usize> {
        match self.host(h) {
            Some(host) => match host.split {
                Some(parts) => Some(parts.split_vc),
                None => Some(host.nav),
            },
            None => if self.tabs.hosts@.dom().contains(h) {
                Some(self.tabs.hosts@[h].tabbar)
            } else {
                None
            },
        }
    }

    pub fn new() -> (n: Navs)
        ensures
            n.wf(),
            n.hosts@ == Map::<usize, NavHost>::empty(),
            n.queues@ == Map::<usize, NavQueue>::empty(),
            n.pages@.len() == 0,
            n.covers@ == Map::<usize, Cover>::empty(),
            n.tabs.hosts@ == Map::<usize, NavTabs>::empty(),
            n.tabs.page_host@ == Map::<usize, usize>::empty(),
            n.menu_rows@ == Map::<usize, MenuRows>::empty(),
    {
        Navs {
            hosts: HashMap::new(),
            queues: HashMap::new(),
            pages: Vec::new(),
            covers: HashMap::new(),
            tabs: TabsTable::new(),
            menu_rows: HashMap::new(),
        }
    }

    fn find_page(&self, h: usize) -> (r: Option<usize>)
        ensures
            match r {
                Some(i) => page_from(self.pages@, h, 0) == Some(i as int) && i < self.pages@.len()
                    && self.pages@[i as int].handle == h,
                None => page_from(self.pages@, h, 0) is None && forall|i: int|
                    0 <= i < self.pages@.len() ==> (#[trigger] self.pages@[i]).handle != h,
            },
    {
        let mut i: usize = 0;
        while i < self.pages.len()
            invariant
                i <= self.pages@.len(),
                forall|j: int| 0 <= j < i ==> (#[trigger] self.pages@[j]).handle != h,
                page_from(self.pages@, h, 0) == page_from(self.pages@, h, i as int),
            decreases self.pages@.len() - i,
        {
            if self.pages[i].handle == h {
                return Some(i);
            }
            i = i + 1;
        }
        None
    }

    pub fn page_of(&self, h: usize) -> (r: Option<PageVc>)
        ensures
            r == self.page(h),
    {
        match self.find_page(h) {
            Some(i) => Some(self.pages[i]),
            None => None,
        }
    }

    /// Register a page; a page of the same view takes the place of the old one.
    pub fn add_page(&mut self, page: PageVc)
        requires
            old(self).wf(),
        ensures
            final(self).wf(),
            final(self).page(page.handle) == Some(page),
            final(self).other_pages_stay(*old(self), page.handle),
            final(self).hosts == old(self).hosts,
            final(self).queues == old(self).queues,
            final(self).covers == old(self).covers,
            final(self).tabs == old(self).tabs,
            final(self).menu_rows == old(self).menu_rows,
    {
        let ghost before = self.pages@;
        proof {
            lemma_found_by_handle(before, 0);
        }
        match self.find_page(page.handle) {
            Some(i) => {
                self.pages[i] = page;
                proof {
                    let after = before.update(i as int, page);
                    assert(self.pages@ == after);
                    assert(page_from(before, page.handle, 0) == Some(i as int));
                    lemma_page_update(before, i as int, page, 0);
                    assert forall|o: usize| o != page.handle implies #[trigger] self.page(o) == old(
                        self,
                    ).page(o) by {
                        assert(page_from(after, o, 0) == page_from(before, o, 0));
                    }
                    assert(page_from(after, page.handle, 0) == page_from(before, page.handle, 0));
                }
            },
            None => {
                self.pages.push(page);
                proof {
                    let after = before.push(page);
                    lemma_page_push(before, page, 0);
                    assert forall|o: usize| o != page.handle implies #[trigger] self.page(o) == old(
                        self,
                    ).page(o) by {
                        assert(page_from(after, o, 0) == page_from(before, o, 0));
                    }
                    assert(page_from(after, page.handle, 0) == Some(before.len() as int));
                }
            },
        }
    }

    pub fn controller_of(&self, h: usize) -> (r: Option<usize>)
        ensures
            r == self.controller(h),
    {
        match self.hosts.get(&h) {
            Some(host) => Some(host.controller()),
            None => match self.tabs.hosts.get(&h) {
                Some(t) => Some(t.tabbar),
                None => None,
            },
        }
    }

    /// Queue a stack change on `host`; whether its application has to be scheduled: on the next
    /// turn [`Navs::turn_ended`], and behind the modal queue [`Navs::apply_ops`].
    pub fn queue_op(&mut self, host: usize, op: NavOp) -> (schedule: bool)
        ensures
            (final(self).queue(host), schedule) == old(self).queue(host).asked(op),
            forall|o: usize| o != host ==> #[trigger] final(self).queue(o) == old(self).queue(o),
            final(self).hosts == old(self).hosts,
            final(self).pages == old(self).pages,
            final(self).covers == old(self).covers,
            final(self).tabs == old(self).tabs,
            final(self).menu_rows == old(self).menu_rows,
    {
        let mut q = match self.queues.remove(&host) {
            Some(q) => q,
            None => NavQueue::new(),
        };
        proof {
            assert(q@ =~= old(self).queue(host));
        }
        let schedule = q.queue_op(op);
        self.queues.insert(host, q);
        schedule
    }

    /// The turn in which changes were asked of `host` has ended.
    pub fn turn_ended(&mut self, host: usize)
        ensures
            final(self).queue(host) == old(self).queue(host).turned(),
            forall|o: usize| o != host ==> #[trigger] final(self).queue(o) == old(self).queue(o),
            final(self).hosts == old(self).hosts,
            final(self).pages == old(self).pages,
            final(self).covers == old(self).covers,
            final(self).tabs == old(self).tabs,
            final(self).menu_rows == old(self).menu_rows,
    {
        match self.queues.remove(&host) {
            None => {
                proof {
                    assert(self.queues@ =~= old(self).queues@);
                }
            },
            Some(q) => {
                let mut q = q;
                q.turn_ended();
                self.queues.insert(host, q);
            },
        }
    }

    /// Apply everything queued on `host`; `pages` is what its active stack reports.
    pub fn apply_ops(&mut self, host: usize, pages: Vec<usize>) -> (plan: Apply)
        ensures
            ({
                let stack = match old(self).host(host) {
                    None => HostStack::Gone,
                    Some(h) => if h.collapsed_triple() {
                        HostStack::CollapsedTriple
                    } else {
                        HostStack::Stack { pages, blank: h.blank_spec() }
                    },
                };
                (final(self).queue(host), plan@) == old(self).queue(host).applied(stack)
            }),
            forall|o: usize| o != host ==> #[trigger] final(self).queue(o) == old(self).queue(o),
            final(self).hosts == old(self).hosts,
            final(self).pages == old(self).pages,
            final(self).covers == old(self).covers,
            final(self).tabs == old(self).tabs,
            final(self).menu_rows == old(self).menu_rows,
    {
        let stack = match self.hosts.get(&host) {
            None => HostStack::Gone,
            Some(h) => {
                if h.is_collapsed_triple() {
                    HostStack::CollapsedTriple
                } else {
                    HostStack::Stack { pages, blank: h.blank() }
                }
            },
        };
        match self.queues.remove(&host) {
            None => {
                proof {
                    assert(self.queues@ =~= old(self).queues@);
                    assert(self.queue(host) =~= old(self).queue(host).applied(stack).0);
                }
                Apply::Nothing
            },
            Some(q) => {
                let mut q = q;
                let plan = q.apply_ops(stack);
                self.queues.insert(host, q);
                plan
            },
        }
    }

    /// A change of `host` settled; whether more has to be scheduled.
    pub fn settled(&mut self, host: usize, generation: u64) -> (more: bool)
        ensures
            old(self).queues@.dom().contains(host) ==> (final(self).queue(host), more) == old(
                self,
            ).queue(host).settled(generation),
            !old(self).queues@.dom().contains(host) ==> !more && final(self).queue(host) == old(
                self,
            ).queue(host),
            forall|o: usize| o != host ==> #[trigger] final(self).queue(o) == old(self).queue(o),
            final(self).hosts == old(self).hosts,
            final(self).pages == old(self).pages,
            final(self).covers == old(self).covers,
            final(self).tabs == old(self).tabs,
            final(self).menu_rows == old(self).menu_rows,
    {
        match self.queues.remove(&host) {
            None => false,
            Some(q) => {
                let mut q = q;
                let more = q.settle(generation);
                self.queues.insert(host, q);
                more
            },
        }
    }

    /// Mark Day's own pops of `host`, so that they are not taken for the user's.
    pub fn set_day_pop(&mut self, host: usize, on: bool)
        ensures
            final(self).hosts@ == (match old(self).host(host) {
                Some(h) => old(self).hosts@.insert(host, NavHost { day_pop: on, ..h }),
                None => old(self).hosts@,
            }),
            final(self).queues == old(self).queues,
            final(self).pages == old(self).pages,
            final(self).covers == old(self).covers,
            final(self).tabs == old(self).tabs,
            final(self).menu_rows == old(self).menu_rows,
    {
        let found = match self.hosts.get(&host) {
            Some(h) => Some(*h),
            None => None,
        };
        match found {
            Some(h) => {
                self.hosts.insert(host, NavHost { day_pop: on, ..h });
            },
            None => {},
        }
    }

    /// Where a child goes.
    pub open spec fn place(self, parent: usize, child: usize, around: Around) -> Place {
        let page = self.page(child);
        if self.tabs.hosts@.dom().contains(parent) {
            match page {
                None => Place::TabStray,
                Some(p) => if p.pane == Pane::Sidebar {
                    Place::KeptOut
                } else {
                    Place::Tab { page: p, wrap: around.wide }
                },
            }
        } else if page matches Some(p) && p.pane == Pane::List {
            Place::ListColumn {
                column: match self.host(parent) {
                    Some(host) => match host.split {
                        Some(parts) => parts.supplementary_nav,
                        None => None,
                    },
                    None => None,
                },
                vc: page->0.vc,
            }
        } else if self.host(parent) is Some && page is Some {
            let host = self.host(parent)->0;
            let p = page->0;
            let dress = if p.pane != Pane::Sidebar {
                PageDress::Plain
            } else if host.search {
                PageDress::Search
            } else {
                PageDress::Sidebar
            };
            if p.pane == Pane::Sidebar && host.split is Some {
                Place::SidebarColumn { nav: host.split->0.primary_nav, vc: p.vc, dress }
            } else {
                Place::Pushed { vc: p.vc, dress }
            }
        } else if self.covers@.dom().contains(child) {
            Place::Cover
        } else {
            let page_vc = match self.page(parent) {
                Some(p) => Some(p.vc),
                None => around.enclosing_vc,
            };
            match (self.controller(child), page_vc) {
                (Some(host_vc), Some(page_vc)) => Place::Contained { host_vc, page_vc },
                _ => Place::Subview,
            }
        }
    }

    /// The tabs host a child's rows go to: it brought rows, and lands inside a host.
    pub open spec fn rows_host(self, child: usize, around: Around) -> Option<usize> {
        if self.menu_rows@.dom().contains(child) {
            match self.tabs.enclosing_from(around.chain@, 0) {
                Some(hp) if self.tabs.hosts@.dom().contains(hp) => Some(hp),
                _ => None,
            }
        } else {
            None
        }
    }

    fn place_of(&self, parent: usize, child: usize, around: &Around) -> (r: Place)
        ensures
            r == self.place(parent, child, *around),
    {
        let page = self.page_of(child);
        if self.tabs.hosts.contains_key(&parent) {
            return match page {
                None => Place::TabStray,
                Some(p) => {
                    if p.pane == Pane::Sidebar {
                        Place::KeptOut
                    } else {
                        Place::Tab { page: p, wrap: around.wide }
                    }
                },
            };
        }
        let host = match self.hosts.get(&parent) {
            Some(h) => Some(*h),
            None => None,
        };
        match page {
            Some(p) => {
                if p.pane == Pane::List {
                    let column = match host {
                        Some(h) => match h.split {
                            Some(parts) => parts.supplementary_nav,
                            None => None,
                        },
                        None => None,
                    };
                    return Place::ListColumn { column, vc: p.vc };
                }
                match host {
                    Some(h) => {
                        let sidebar = p.pane == Pane::Sidebar;
                        let dress = if !sidebar {
                            PageDress::Plain
                        } else if h.search {
                            PageDress::Search
                        } else {
                            PageDress::Sidebar
                        };
                        return match h.split {
                            Some(parts) if sidebar => Place::SidebarColumn {
                                nav: parts.primary_nav,
                                vc: p.vc,
                                dress,
                            },
                            _ => Place::Pushed { vc: p.vc, dress },
                        };
                    },
                    None => {},
                }
            },
            None => {},
        }
        if self.covers.contains_key(&child) {
            return Place::Cover;
        }
        let page_vc = match self.page_of(parent) {
            Some(p) => Some(p.vc),
            None => around.enclosing_vc,
        };
        match (self.controller_of(child), page_vc) {
            (Some(host_vc), Some(page_vc)) => Place::Contained { host_vc, page_vc },
            _ => Place::Subview,
        }
    }

    /// A child joins a parent.
    pub fn insert(&mut self, parent: usize, child: usize, around: &Around) -> (r: Insert)
        ensures
            r.relayout == around.holder,
            r.sync == old(self).rows_host(child, *around),
            r.place == old(self).place(parent, child, *around),
            final(self).menu_rows@ == old(self).menu_rows@.remove(child),
            final(self).tabs.hosts@.dom() == old(self).tabs.hosts@.dom(),
            forall|o: usize|
                old(self).tabs.hosts@.dom().contains(o) && r.sync != Some(o)
                    ==> #[trigger] final(self).tabs.hosts@[o] == old(self).tabs.hosts@[o],
            r.sync matches Some(hp) ==> {
                let rows = old(self).menu_rows@[child];
                let before = old(self).tabs.hosts@[hp];
                let after = final(self).tabs.hosts@[hp];
                &&& after.titles == rows.titles
                &&& after.icons == rows.icons
                &&& after.menu_node == rows.node
                &&& after.pages@ == before.pages@
                &&& after.tabs@ == before.tabs@
                &&& after.tabbar == before.tabbar
                &&& after.suppress == before.suppress
            },
            final(self).tabs.page_host@ == (if old(self).tabs.hosts@.dom().contains(parent) {
                old(self).tabs.page_host@.insert(child, parent)
            } else {
                old(self).tabs.page_host@
            }),
            final(self).hosts@ == (match (r.place, old(self).host(parent)) {
                (Place::ListColumn { column: _, vc }, Some(host)) => match host.split {
                    Some(parts) => old(self).hosts@.insert(
                        parent,
                        NavHost {
                            split: Some(SplitParts { list_vc: Some(vc), ..parts }),
                            ..host
                        },
                    ),
                    None => old(self).hosts@,
                },
                _ => old(self).hosts@,
            }),
            r.place matches Place::Pushed { vc, dress } ==> (
                final(self).queue(parent),
                r.schedule,
            ) == old(self).queue(parent).asked(NavOp::Push(vc)),
            !(r.place is Pushed) ==> !r.schedule && final(self).queue(parent) == old(self).queue(
                parent,
            ),
            forall|o: usize| o != parent ==> #[trigger] final(self).queue(o) == old(self).queue(o),
            final(self).pages == old(self).pages,
            final(self).covers == old(self).covers,
    {
        let place = self.place_of(parent, child, around);
        let found = match self.tabs.enclosing_tabs_host(&around.chain) {
            Some(hp) => {
                if self.tabs.hosts.contains_key(&hp) {
                    Some(hp)
                } else {
                    None
                }
            },
            None => None,
        };
        let is_tabs_host = self.tabs.hosts.contains_key(&parent);
        let mut sync: Option<usize> = None;
        match self.menu_rows.remove(&child) {
            Some(rows) => match found {
                Some(hp) => {
                    sync = Some(hp);
                    match self.tabs.hosts.remove(&hp) {
                        Some(t) => {
                            let mut t = t;
                            t.set_rows(rows);
                            self.tabs.hosts.insert(hp, t);
                        },
                        None => {
                            proof {
                                assert(false);
                            }
                        },
                    }
                    proof {
                        assert(self.tabs.hosts@.dom() =~= old(self).tabs.hosts@.dom());
                    }
                },
                None => {},
            },
            None => {
                proof {
                    assert(self.menu_rows@ =~= old(self).menu_rows@.remove(child));
                }
            },
        }
        if is_tabs_host {
            self.tabs.page_host.insert(child, parent);
        }
        let mut schedule = false;
        match place {
            Place::ListColumn { column: _, vc } => {
                let host = match self.hosts.get(&parent) {
                    Some(h) => Some(*h),
                    None => None,
                };
                match host {
                    Some(h) => match h.split {
                        Some(parts) => {
                            self.hosts.insert(
                                parent,
                                NavHost {
                                    split: Some(SplitParts { list_vc: Some(vc), ..parts }),
                                    ..h
                                },
                            );
                        },
                        None => {},
                    },
                    None => {},
                }
            },
            Place::Pushed { vc, dress: _ } => {
                schedule = self.queue_op(parent, NavOp::Push(vc));
            },
            _ => {},
        }
        Insert { relayout: around.holder, sync, place, schedule }
    }

    /// A child leaves a parent: a host's page leaves its stack, anything else its superview.
    pub fn remove(&mut self, parent: usize, child: usize) -> (r: Removal)
        ensures
            match (old(self).host(parent), old(self).page(child)) {
                (None, _) => r is View && final(self).queue(parent) == old(self).queue(parent),
                (Some(_), None) => r is Nothing && final(self).queue(parent) == old(self).queue(
                    parent,
                ),
                (Some(_), Some(p)) => r matches Removal::Popped { schedule } && (
                    final(self).queue(parent),
                    schedule,
                ) == old(self).queue(parent).asked(NavOp::Pop(p.vc)),
            },
            forall|o: usize| o != parent ==> #[trigger] final(self).queue(o) == old(self).queue(o),
            final(self).hosts == old(self).hosts,
            final(self).pages == old(self).pages,
            final(self).covers == old(self).covers,
            final(self).tabs == old(self).tabs,
            final(self).menu_rows == old(self).menu_rows,
    {
        if !self.hosts.contains_key(&parent) {
            return Removal::View;
        }
        match self.page_of(child) {
            Some(p) => Removal::Popped { schedule: self.queue_op(parent, NavOp::Pop(p.vc)) },
            None => Removal::Nothing,
        }
    }

    /// A page joins a tabs host, with the controller its tab shows; the caller syncs.
    pub fn add_tab(&mut self, host: usize, index: usize, page: TabPage)
        ensures
            final(self).tabs.hosts@.dom() == old(self).tabs.hosts@.dom(),
            forall|o: usize|
                old(self).tabs.hosts@.dom().contains(o) && o != host
                    ==> #[trigger] final(self).tabs.hosts@[o] == old(self).tabs.hosts@[o],
            old(self).tabs.hosts@.dom().contains(host) ==> {
                let before = old(self).tabs.hosts@[host];
                let after = final(self).tabs.hosts@[host];
                &&& after.pages@ == before.pages@.insert(
                    if index < before.pages@.len() {
                        index as int
                    } else {
                        before.pages@.len() as int
                    },
                    page,
                )
                &&& after.tabs@ == before.tabs@
                &&& after.titles == before.titles
                &&& after.icons == before.icons
                &&& after.menu_node == before.menu_node
                &&& after.suppress == before.suppress
                &&& after.tabbar == before.tabbar
            },
            final(self).tabs.page_host == old(self).tabs.page_host,
            final(self).hosts == old(self).hosts,
            final(self).queues == old(self).queues,
            final(self).pages == old(self).pages,
            final(self).covers == old(self).covers,
            final(self).menu_rows == old(self).menu_rows,
    {
        match self.tabs.hosts.remove(&host) {
            Some(t) => {
                let mut t = t;
                t.insert_page(index, page);
                self.tabs.hosts.insert(host, t);
                proof {
                    assert(self.tabs.hosts@.dom() =~= old(self).tabs.hosts@.dom());
                }
            },
            None => {
                proof {
                    assert(self.tabs.hosts@ =~= old(self).tabs.hosts@);
                }
            },
        }
    }

    /// A view is released. The page's controller, if the view was a page: its bar goes with it.
    pub fn release(&mut self, h: usize) -> (page_vc: Option<usize>)
        requires
            old(self).wf(),
        ensures
            final(self).wf(),
            final(self).page(h) is None,
            forall|o: usize| o != h ==> #[trigger] final(self).page(o) == old(self).page(o),
            page_vc == (match old(self).page(h) {
                Some(p) => Some(p.vc),
                None => None,
            }),
            final(self).hosts@ == old(self).hosts@.remove(h),
            final(self).queues@ == old(self).queues@.remove(h),
            final(self).covers@ == old(self).covers@.remove(h),
            final(self).pages@ == (match page_from(old(self).pages@, h, 0) {
                Some(i) => old(self).pages@.remove(i),
                None => old(self).pages@,
            }),
            final(self).tabs == old(self).tabs,
            final(self).menu_rows == old(self).menu_rows,
    {
        self.hosts.remove(&h);
        self.queues.remove(&h);
        self.covers.remove(&h);
        match self.find_page(h) {
            Some(i) => {
                let ghost before = self.pages@;
                let gone = self.pages.remove(i);
                proof {
                    assert forall|a: int, b: int| 0 <= a < b < self.pages@.len() implies (
                    #[trigger] self.pages@[a]).handle != (#[trigger] self.pages@[b]).handle by {
                        let a0 = if a < i {
                            a
                        } else {
                            a + 1
                        };
                        let b0 = if b < i {
                            b
                        } else {
                            b + 1
                        };
                        assert(before[a0].handle != before[b0].handle);
                    }
                    assert forall|a: int| 0 <= a < self.pages@.len() implies (
                    #[trigger] self.pages@[a]).handle != h by {
                        if a < i {
                            assert(before[a].handle != before[i as int].handle);
                        } else {
                            assert(before[i as int].handle != before[a + 1].handle);
                        }
                    }
                    lemma_found_by_handle(self.pages@, 0);
                    lemma_found_by_handle(before, 0);
                    lemma_found_unique(before);
                    lemma_found_unique(self.pages@);
                    assert forall|o: usize| o != h implies #[trigger] self.page(o) == old(self).page(
                        o,
                    ) by {
                        match page_from(before, o, 0) {
                            Some(k) => {
                                let at = if k < i {
                                    k
                                } else {
                                    k - 1
                                };
                                assert(self.pages@[at] == before[k]);
                                assert(page_from(self.pages@, self.pages@[at].handle, 0) == Some(at));
                            },
                            None => {
                                if page_from(self.pages@, o, 0) is Some {
                                    let k = page_from(self.pages@, o, 0)->0;
                                    let at = if k < i {
                                        k
                                    } else {
                                        k + 1
                                    };
                                    assert(self.pages@[k] == before[at]);
                                    assert(page_from(before, before[at].handle, 0) == Some(at));
                                }
                            },
                        }
                    }
                }
                Some(gone.vc)
            },
            None => None,
        }
    }
}

proof fn lemma_page_update(pages: Seq<PageVc>, i: int, page: PageVc, from: int)
    requires
        0 <= from <= pages.len(),
        0 <= i < pages.len(),
        pages[i].handle == page.handle,
    ensures
        forall|o: usize|
            page_from(pages.update(i, page), o, from) == #[trigger] page_from(pages, o, from),
    decreases pages.len() - from,
{
    if from < pages.len() {
        lemma_page_update(pages, i, page, from + 1);
        let after = pages.update(i, page);
        assert(after[from].handle == pages[from].handle);
        assert forall|o: usize| page_from(after, o, from) == #[trigger] page_from(pages, o, from) by {
            assert(page_from(after, o, from + 1) == page_from(pages, o, from + 1));
        }
    }
    lemma_found_by_handle(pages, from);
}

proof fn lemma_found_by_handle(pages: Seq<PageVc>, from: int)
    requires
        0 <= from,
    ensures
        forall|o: usize|
            #[trigger] page_from(pages, o, from) matches Some(i) ==> from <= i < pages.len()
                && pages[i].handle == o,
    decreases pages.len() - from,
{
    if from < pages.len() {
        lemma_found_by_handle(pages, from + 1);
        assert forall|o: usize| #[trigger]
            page_from(pages, o, from) is Some implies from <= page_from(pages, o, from)->0
            < pages.len() && pages[page_from(pages, o, from)->0].handle == o by {
            if pages[from].handle != o {
                assert(page_from(pages, o, from) == page_from(pages, o, from + 1));
            }
        }
    }
}

/// Where no two pages share a view, each page is the one found.
proof fn lemma_found_unique(pages: Seq<PageVc>)
    requires
        forall|i: int, j: int|
            0 <= i < j < pages.len() ==> (#[trigger] pages[i]).handle != (#[trigger] pages[j]).handle,
    ensures
        forall|i: int|
            0 <= i < pages.len() ==> page_from(pages, (#[trigger] pages[i]).handle, 0) == Some(i),
{
    assert forall|i: int| 0 <= i < pages.len() implies page_from(
        pages,
        (#[trigger] pages[i]).handle,
        0,
    ) == Some(i) by {
        lemma_found_at(pages, i, 0);
    }
}

proof fn lemma_found_at(pages: Seq<PageVc>, i: int, from: int)
    requires
        0 <= from <= i < pages.len(),
        forall|k: int, j: int|
            0 <= k < j < pages.len() ==> (#[trigger] pages[k]).handle != (#[trigger] pages[j]).handle,
    ensures
        page_from(pages, pages[i].handle, from) == Some(i),
    decreases i - from,
{
    if from < i {
        assert(pages[from].handle != pages[i].handle);
        lemma_found_at(pages, i, from + 1);
    }
}

proof fn lemma_page_push(pages: Seq<PageVc>, page: PageVc, from: int)
    requires
        0 <= from <= pages.len(),
    ensures
        forall|o: usize|
            #[trigger] page_from(pages.push(page), o, from) == (if page_from(
                pages,
                o,
                from,
            ) is Some {
                page_from(pages, o, from)
            } else if o == page.handle {
                Some(pages.len() as int)
            } else {
                None
            }),
    decreases pages.len() - from,
{
    let after = pages.push(page);
    if from < pages.len() {
        lemma_page_push(pages, page, from + 1);
        assert(after[from] == pages[from]);
        assert forall|o: usize| #[trigger]
            page_from(after, o, from) == (if page_from(pages, o, from) is Some {
            page_from(pages, o, from)
        } else if o == page.handle {
            Some(pages.len() as int)
        } else {
            None
        }) by {
            assert(page_from(after, o, from + 1) == (if page_from(pages, o, from + 1) is Some {
                page_from(pages, o, from + 1)
            } else if o == page.handle {
                Some(pages.len() as int)
            } else {
                None
            }));
        }
    } else {
        assert forall|o: usize| #[trigger]
            page_from(after, o, from) == (if o == page.handle {
            Some(pages.len() as int)
        } else {
            None
        }) by {
            assert(page_from(after, o, from + 1) is None);
        }
    }
    lemma_found_by_handle(pages, from);
}

/// A page inserted under a plain stack and removed again before the change is applied leaves its
/// host's stack as it was.
pub proof fn law_insert_then_remove_is_nothing(
    q: QueueState,
    host: HostStack,
    pages: Seq<usize>,
    blank: Option<usize>,
    vc: usize,
)
    requires
        q.fresh(),
        host matches HostStack::Stack { pages: p, blank: b } && p@ == pages && b == blank,
        !pages.contains(vc),
    ensures
        q.asked(NavOp::Push(vc)).0.asked(NavOp::Pop(vc)).0.turned().applied(host).1 == (
        ApplyView::Replace {
            generation: crate::modal::next_generation(q.generation),
            target: crate::nav_stack::never_bare(pages, blank),
        }),
{
    crate::nav_stack::law_push_then_pop_is_nothing(pages, vc);
    assert(q.ops.push(NavOp::Push(vc)).push(NavOp::Pop(vc)) =~= seq![
        NavOp::Push(vc),
        NavOp::Pop(vc),
    ]);
}

/// The first controller, from position `from`, of a responder chain.
pub open spec fn controller_from(chain: Seq<Option<usize>>, from: int) -> Option<usize>
    decreases chain.len() - from,
{
    if from < 0 || from >= chain.len() {
        None
    } else if chain[from] is Some {
        chain[from]
    } else {
        controller_from(chain, from + 1)
    }
}

/// The nearest controller enclosing a view: `chain` is its responder chain, a controller `Some`.
pub fn enclosing_view_controller(chain: &Vec<Option<usize>>) -> (r: Option<usize>)
    ensures
        r == controller_from(chain@, 0),
{
    let mut i: usize = 0;
    while i < chain.len()
        invariant
            i <= chain@.len(),
            controller_from(chain@, 0) == controller_from(chain@, i as int),
        decreases chain@.len() - i,
    {
        if chain[i].is_some() {
            return chain[i];
        }
        i = i + 1;
    }
    None
}

/// A view's page is the one registered for it, and a view that was never a page has none.
pub proof fn law_page_is_found_by_its_view(n: &Navs, h: usize, i: int, r: Option<PageVc>)
    requires
        n.wf(),
        call_ensures(Navs::page_of, (n, h), r),
    ensures
        0 <= i < n.pages@.len() && n.pages@[i].handle == h ==> r == Some(n.pages@[i]),
        r matches Some(p) ==> p.handle == h && n.pages@.contains(p),
        r == n.page(h),
{
    if 0 <= i < n.pages@.len() && n.pages@[i].handle == h {
        lemma_found_at(n.pages@, i, 0);
    }
    lemma_found_by_handle(n.pages@, 0);
    match page_from(n.pages@, h, 0) {
        Some(k) => {
            assert(n.pages@[k] == r->0);
        },
        None => {},
    }
}

/// A page pushed on a host's stack is asked of that stack, on top of what was asked before; a page
/// that joins any other way changes no stack.
pub proof fn law_inserted_page_is_pushed(
    n: &mut Navs,
    parent: usize,
    child: usize,
    around: Around,
    r: Insert,
    p: PageVc,
)
    requires
        call_ensures(Navs::insert, (n, parent, child, &around), r),
        !old(n).tabs.hosts@.dom().contains(parent),
        old(n).hosts@.dom().contains(parent),
        old(n).page(child) == Some(p),
        p.pane == Pane::Detail || (p.pane == Pane::Sidebar && old(n).hosts@[parent].split is None),
    ensures
        r.place == (Place::Pushed {
            vc: p.vc,
            dress: if p.pane == Pane::Detail {
                PageDress::Plain
            } else if old(n).hosts@[parent].search {
                PageDress::Search
            } else {
                PageDress::Sidebar
            },
        }),
        final(n).queue(parent).ops == old(n).queue(parent).ops + seq![NavOp::Push(p.vc)],
        r.schedule == !old(n).queue(parent).scheduled,
        final(n).hosts@ == old(n).hosts@,
{
    let ops = old(n).queue(parent).ops;
    assert(ops.push(NavOp::Push(p.vc)) =~= ops + seq![NavOp::Push(p.vc)]);
}

/// A split's sidebar page is the root of its primary column, and its content list's page the root of
/// the column there is for it, kept by the host either way; neither is pushed.
pub proof fn law_columns_take_their_own_pages(
    n: &mut Navs,
    parent: usize,
    child: usize,
    around: Around,
    r: Insert,
    p: PageVc,
    parts: SplitParts,
)
    requires
        call_ensures(Navs::insert, (n, parent, child, &around), r),
        !old(n).tabs.hosts@.dom().contains(parent),
        old(n).hosts@.dom().contains(parent),
        old(n).hosts@[parent].split == Some(parts),
        old(n).page(child) == Some(p),
        p.pane != Pane::Detail,
    ensures
        p.pane == Pane::Sidebar ==> r.place == (Place::SidebarColumn {
            nav: parts.primary_nav,
            vc: p.vc,
            dress: if old(n).hosts@[parent].search {
                PageDress::Search
            } else {
                PageDress::Sidebar
            },
        }) && final(n).hosts@ == old(n).hosts@,
        p.pane == Pane::List ==> r.place == (Place::ListColumn {
            column: parts.supplementary_nav,
            vc: p.vc,
        }) && final(n).hosts@[parent].split == Some(SplitParts { list_vc: Some(p.vc), ..parts })
            && final(n).hosts@.remove(parent) == old(n).hosts@.remove(parent),
        !r.schedule,
        final(n).queue(parent) == old(n).queue(parent),
{
    assert(final(n).hosts@.remove(parent) =~= old(n).hosts@.remove(parent));
}

/// A page of a tabs host becomes a tab, in a navigation controller of its own where the host is wide;
/// its sidebar page is kept out, and what is no page stays a stray. Each is known to belong there.
pub proof fn law_tabs_take_their_pages(
    n: &mut Navs,
    parent: usize,
    child: usize,
    around: Around,
    r: Insert,
)
    requires
        call_ensures(Navs::insert, (n, parent, child, &around), r),
        old(n).tabs.hosts@.dom().contains(parent),
    ensures
        old(n).page(child) is None ==> r.place is TabStray,
        old(n).page(child) matches Some(p) ==> if p.pane == Pane::Sidebar {
            r.place is KeptOut
        } else {
            r.place == (Place::Tab { page: p, wrap: around.wide })
        },
        final(n).tabs.page_host@.contains_pair(child, parent),
        !r.schedule,
{
}

/// A child that is no page of a host is a subview, but for a cover's content, which lives in its own
/// controller, and for a host inside a page, whose controller joins the page's: that of the parent if
/// it is a page, else of the nearest controller around it.
pub proof fn law_other_children_are_subviews(
    n: &mut Navs,
    parent: usize,
    child: usize,
    around: Around,
    r: Insert,
    who: Option<usize>,
)
    requires
        call_ensures(Navs::insert, (n, parent, child, &around), r),
        call_ensures(Navs::controller_of, (&*old(n), child), who),
        !old(n).tabs.hosts@.dom().contains(parent),
        old(n).page(child) is None,
    ensures
        ({
            let page_vc = if old(n).page(parent) is Some {
                Some(old(n).page(parent)->0.vc)
            } else {
                around.enclosing_vc
            };
            if old(n).covers@.dom().contains(child) {
                r.place is Cover
            } else if who is Some && page_vc is Some {
                r.place == (Place::Contained { host_vc: who->0, page_vc: page_vc->0 })
            } else {
                r.place is Subview
            }
        }),
        !r.schedule,
        final(n).hosts@ == old(n).hosts@,
{
}

/// A host is known by its outermost controller: a split's own, a plain stack's, or a tab bar.
pub proof fn law_host_is_its_outermost_controller(n: &Navs, h: usize, r: Option<usize>)
    requires
        call_ensures(Navs::controller_of, (n, h), r),
    ensures
        n.hosts@.dom().contains(h) ==> (n.hosts@[h].split matches Some(parts) ==> r == Some(
            parts.split_vc,
        )) && (n.hosts@[h].split is None ==> r == Some(n.hosts@[h].nav)),
        !n.hosts@.dom().contains(h) && n.tabs.hosts@.dom().contains(h) ==> r == Some(
            n.tabs.hosts@[h].tabbar,
        ),
        !n.hosts@.dom().contains(h) && !n.tabs.hosts@.dom().contains(h) ==> r is None,
{
}

/// A menu's rows go to the tabs host it is inserted under, and wait no longer; the window's holder lays
/// out again exactly when the child joins it.
pub proof fn law_inserted_menu_brings_its_rows(
    n: &mut Navs,
    parent: usize,
    child: usize,
    around: Around,
    r: Insert,
    near: Option<usize>,
)
    requires
        call_ensures(Navs::insert, (n, parent, child, &around), r),
        call_ensures(TabsTable::enclosing_tabs_host, (&old(n).tabs, &around.chain), near),
    ensures
        r.relayout == around.holder,
        !final(n).menu_rows@.dom().contains(child),
        final(n).menu_rows@ == old(n).menu_rows@.remove(child),
        !old(n).menu_rows@.dom().contains(child) ==> r.sync is None,
        near is None ==> r.sync is None,
        near matches Some(hp) ==> old(n).menu_rows@.dom().contains(child)
            && old(n).tabs.hosts@.dom().contains(hp) ==> {
            &&& r.sync == Some(hp)
            &&& final(n).tabs.hosts@[hp].titles == old(n).menu_rows@[child].titles
            &&& final(n).tabs.hosts@[hp].icons == old(n).menu_rows@[child].icons
            &&& final(n).tabs.hosts@[hp].menu_node == old(n).menu_rows@[child].node
            &&& final(n).tabs.hosts@[hp].pages@ == old(n).tabs.hosts@[hp].pages@
        },
{
}

/// A page leaves its host's stack by being popped from it, behind what was asked before; a host's other
/// child leaves nothing, and a view of no host its superview.
pub proof fn law_removed_page_is_popped(n: &mut Navs, parent: usize, child: usize, r: Removal)
    requires
        call_ensures(Navs::remove, (n, parent, child), r),
    ensures
        !old(n).hosts@.dom().contains(parent) ==> r is View && final(n).queue(parent)
            == old(n).queue(parent),
        old(n).hosts@.dom().contains(parent) && old(n).page(child) is None ==> r is Nothing
            && final(n).queue(parent) == old(n).queue(parent),
        old(n).hosts@.dom().contains(parent) ==> (old(n).page(child) matches Some(p) ==> {
            &&& r == (Removal::Popped { schedule: !old(n).queue(parent).scheduled })
            &&& final(n).queue(parent).ops == old(n).queue(parent).ops + seq![NavOp::Pop(p.vc)]
        }),
        final(n).pages == old(n).pages,
        final(n).hosts == old(n).hosts,
{
    match old(n).page(child) {
        Some(p) => {
            let ops = old(n).queue(parent).ops;
            assert(ops.push(NavOp::Pop(p.vc)) =~= ops + seq![NavOp::Pop(p.vc)]);
        },
        None => {},
    }
}

/// What a host has queued is applied to that host as it stands: a collapsed host of three columns by its
/// columns, one that is gone not at all, any other by one set.
pub proof fn law_hosts_apply_their_own_changes(
    n: &mut Navs,
    host: usize,
    pages: Vec<usize>,
    plan: Apply,
)
    requires
        call_ensures(Navs::apply_ops, (n, host, pages), plan),
        !old(n).queue(host).open,
        old(n).queue(host).in_flight is None,
        old(n).queue(host).ops.len() > 0,
    ensures
        !old(n).hosts@.dom().contains(host) ==> plan is Nothing,
        old(n).hosts@.dom().contains(host) ==> {
            let h = old(n).hosts@[host];
            let triple = h.collapsed && h.split is Some && h.split->0.supplementary_nav is Some;
            &&& triple ==> (plan matches Apply::Columns(ops) && ops@ == old(n).queue(host).ops)
            &&& !triple ==> plan is Replace
        },
        final(n).queue(host).ops.len() == 0,
        !final(n).queue(host).scheduled,
{
}

/// A host at rest is what a queue starts as, and a change asked of it, the end of its turn and the
/// settling of its set reach its own queue.
pub proof fn law_queues_belong_to_their_hosts(
    asked: &mut Navs,
    turned: &mut Navs,
    settled: &mut Navs,
    host: usize,
    op: NavOp,
    schedule: bool,
    generation: u64,
    more: bool,
)
    requires
        call_ensures(Navs::queue_op, (asked, host, op), schedule),
        call_ensures(Navs::turn_ended, (turned, host), ()),
        call_ensures(Navs::settled, (settled, host, generation), more),
    ensures
        !old(asked).queues@.dom().contains(host) ==> schedule && final(asked).queue(host).ops == seq![op],
        final(asked).queue(host).ops == old(asked).queue(host).ops + seq![op],
        schedule == !old(asked).queue(host).scheduled,
        final(turned).queue(host).ops == old(turned).queue(host).ops,
        !final(turned).queue(host).open,
        !old(settled).queues@.dom().contains(host) ==> !more,
        old(settled).queues@.dom().contains(host) && old(settled).queue(host).generation == generation
            ==> final(settled).queue(host).in_flight is None && (more <==> old(settled).queue(
            host,
        ).ops.len() > 0),
{
    let ops = old(asked).queue(host).ops;
    assert(ops.push(op) =~= ops + seq![op]);
    if !old(asked).queues@.dom().contains(host) {
        assert(ops.push(op) =~= seq![op]);
    }
}

/// Day's own pops are marked on their host, and on no other.
pub proof fn law_day_pops_are_marked(n: &mut Navs, host: usize, on: bool)
    requires
        call_ensures(Navs::set_day_pop, (n, host, on), ()),
    ensures
        old(n).hosts@.dom().contains(host) ==> final(n).hosts@[host].day_pop == on
            && final(n).hosts@[host].nav == old(n).hosts@[host].nav && final(n).hosts@[host].split
            == old(n).hosts@[host].split,
        final(n).hosts@.dom() == old(n).hosts@.dom(),
        final(n).hosts@.remove(host) == old(n).hosts@.remove(host),
{
    assert(final(n).hosts@.dom() =~= old(n).hosts@.dom());
    assert(final(n).hosts@.remove(host) =~= old(n).hosts@.remove(host));
}

/// A page joins a tabs host at its index, or at the end, and every other page keeps its order.
pub proof fn law_tab_joins_at_its_index(n: &mut Navs, host: usize, index: usize, page: TabPage)
    requires
        call_ensures(Navs::add_tab, (n, host, index, page), ()),
        old(n).tabs.hosts@.dom().contains(host),
    ensures
        ({
            let before = old(n).tabs.hosts@[host].pages@;
            let after = final(n).tabs.hosts@[host].pages@;
            let at = if index < before.len() {
                index as int
            } else {
                before.len() as int
            };
            after.len() == before.len() + 1 && after[at] == page && after.remove(at) == before
        }),
{
    let before = old(n).tabs.hosts@[host].pages@;
    let at = if index < before.len() {
        index as int
    } else {
        before.len() as int
    };
    assert(before.insert(at, page).remove(at) =~= before);
}

/// A released view is no page, host or cover any more; the controller of the page it was is handed back.
pub proof fn law_released_view_is_no_page(n: &mut Navs, h: usize, vc: Option<usize>)
    requires
        call_ensures(Navs::release, (n, h), vc),
    ensures
        final(n).page(h) is None,
        !final(n).hosts@.dom().contains(h) && !final(n).queues@.dom().contains(h)
            && !final(n).covers@.dom().contains(h),
        old(n).page(h) matches Some(p) ==> vc == Some(p.vc),
        old(n).page(h) is None ==> vc is None,
        final(n).hosts@ == old(n).hosts@.remove(h),
        final(n).covers@ == old(n).covers@.remove(h),
{
}

/// The enclosing controller is the nearest on the responder chain.
pub proof fn law_enclosing_controller_is_the_nearest(
    chain: &Vec<Option<usize>>,
    i: int,
    r: Option<usize>,
)
    requires
        call_ensures(enclosing_view_controller, (chain,), r),
    ensures
        0 <= i < chain@.len() && chain@[i] is Some && (forall|k: int|
            0 <= k < i ==> (#[trigger] chain@[k]) is None) ==> r == chain@[i],
        (forall|k: int| 0 <= k < chain@.len() ==> (#[trigger] chain@[k]) is None) ==> r is None,
{
    if 0 <= i < chain@.len() && chain@[i] is Some && (forall|k: int|
        0 <= k < i ==> (#[trigger] chain@[k]) is None) {
        lemma_nearest(chain@, i, 0);
    }
    if forall|k: int| 0 <= k < chain@.len() ==> (#[trigger] chain@[k]) is None {
        lemma_no_controller(chain@, 0);
    }
}

proof fn lemma_nearest(chain: Seq<Option<usize>>, i: int, from: int)
    requires
        0 <= from <= i < chain.len(),
        chain[i] is Some,
        forall|k: int| 0 <= k < i ==> (#[trigger] chain[k]) is None,
    ensures
        controller_from(chain, from) == chain[i],
    decreases i - from,
{
    if from < i {
        lemma_nearest(chain, i, from + 1);
    }
}

proof fn lemma_no_controller(chain: Seq<Option<usize>>, from: int)
    requires
        0 <= from,
        forall|k: int| 0 <= k < chain.len() ==> (#[trigger] chain[k]) is None,
    ensures
        controller_from(chain, from) is None,
    decreases chain.len() - from,
{
    if from < chain.len() {
        lemma_no_controller(chain, from + 1);
    }
}

/// The tables start empty, and a page added is found by its view: the others are found as before, and no
/// host, queue, cover or tab is touched.
pub proof fn law_added_page_is_found(n: Navs, navs: &mut Navs, page: PageVc, other: usize)
    requires
        call_ensures(Navs::new, (), n),
        call_ensures(Navs::add_page, (navs, page), ()),
        other != page.handle,
    ensures
        n.hosts@.len() == 0 && n.queues@.len() == 0 && n.pages@.len() == 0 && n.covers@.len() == 0,
        n.tabs.hosts@.len() == 0 && n.tabs.page_host@.len() == 0 && n.menu_rows@.len() == 0,
        final(navs).page(page.handle) == Some(page),
        final(navs).page(other) == old(navs).page(other),
        final(navs).hosts == old(navs).hosts && final(navs).queues == old(navs).queues,
        final(navs).covers == old(navs).covers && final(navs).tabs == old(navs).tabs,
        final(navs).menu_rows == old(navs).menu_rows,
{
    assert(final(navs).other_pages_stay(*old(navs), page.handle));
}

/// A change queued, a turn's end, an application and a settling concern the queues alone.
pub proof fn law_queues_change_nothing_else(
    a: &mut Navs,
    b: &mut Navs,
    c: &mut Navs,
    d: &mut Navs,
    host: usize,
    op: NavOp,
    schedule: bool,
    pages: Vec<usize>,
    plan: Apply,
    generation: u64,
    more: bool,
)
    requires
        call_ensures(Navs::queue_op, (a, host, op), schedule),
        call_ensures(Navs::turn_ended, (b, host), ()),
        call_ensures(Navs::apply_ops, (c, host, pages), plan),
        call_ensures(Navs::settled, (d, host, generation), more),
    ensures
        final(a).hosts == old(a).hosts && final(a).pages == old(a).pages && final(a).covers
            == old(a).covers && final(a).tabs == old(a).tabs && final(a).menu_rows == old(a).menu_rows,
        final(b).hosts == old(b).hosts && final(b).pages == old(b).pages && final(b).covers
            == old(b).covers && final(b).tabs == old(b).tabs && final(b).menu_rows == old(b).menu_rows,
        final(c).hosts == old(c).hosts && final(c).pages == old(c).pages && final(c).covers
            == old(c).covers && final(c).tabs == old(c).tabs && final(c).menu_rows == old(c).menu_rows,
        final(d).hosts == old(d).hosts && final(d).pages == old(d).pages && final(d).covers
            == old(d).covers && final(d).tabs == old(d).tabs && final(d).menu_rows == old(d).menu_rows,
{
}

/// Inserting a view forgets no page or cover; removing one leaves every host and tab alone; and a tab
/// added, like a pop marked as Day's, touches its own table only.
pub proof fn law_moves_touch_their_own_table(
    a: &mut Navs,
    b: &mut Navs,
    c: &mut Navs,
    d: &mut Navs,
    parent: usize,
    child: usize,
    around: &Around,
    inserted: Insert,
    removed: Removal,
    index: usize,
    page: TabPage,
    on: bool,
)
    requires
        call_ensures(Navs::insert, (a, parent, child, around), inserted),
        call_ensures(Navs::remove, (b, parent, child), removed),
        call_ensures(Navs::add_tab, (c, parent, index, page), ()),
        call_ensures(Navs::set_day_pop, (d, parent, on), ()),
    ensures
        final(a).pages == old(a).pages && final(a).covers == old(a).covers,
        final(b).hosts == old(b).hosts && final(b).pages == old(b).pages && final(b).covers
            == old(b).covers && final(b).tabs == old(b).tabs && final(b).menu_rows == old(b).menu_rows,
        final(c).hosts == old(c).hosts && final(c).queues == old(c).queues && final(c).pages
            == old(c).pages && final(c).covers == old(c).covers && final(c).menu_rows
            == old(c).menu_rows,
        final(d).queues == old(d).queues && final(d).pages == old(d).pages && final(d).covers
            == old(d).covers && final(d).tabs == old(d).tabs && final(d).menu_rows == old(d).menu_rows,
{
}

} // verus!
