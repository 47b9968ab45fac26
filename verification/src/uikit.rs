//! The backend as a whole: the renderers registered with it, every table a view can be in, what
//! realizing a view puts there and what releasing one takes out.

use crate::draw::DrawOp;
use crate::event::{emit, Call, Event, Sink};
use crate::gesture::{GestureKind, Gestures};
use crate::keys::EditState;
use crate::list::ListData;
use crate::menu::{build_ui_menu, MenuEl, MenuItem};
use crate::nav_menu::{MenuContent, NavMenu};
use crate::nav_stack::{NavQueue, PageVc, Pane};
use crate::navs::{Cover, Navs};
use crate::piece::{widget_of, Kind, Props, Widget};
use crate::scene::{PendingWindow, SceneEntry, Scenes};
use crate::split::{Fresh, NavHost, Presentation, SplitParts};
use crate::style::{set_cursor, Cursor, PointerChange};
use crate::tabs::{MenuRows, NavTabs};
use crate::toolbar::Fire;
use crate::tree::{TreeAct, TreeData, TreePatch};
use crate::types::{NodeId, Scalar, Target};
use std::collections::HashMap;
use vstd::prelude::*;

verus! {

broadcast use vstd::std_specs::hash::group_hash_axioms;

/// What a backend can be asked about.
#[derive(Clone, Copy, PartialEq, Eq, Structural, Debug)]
pub enum Cap {
    Animation,
    AppBadgeCount,
    Appearance,
    BaselineAlignment,
    Cover,
    Cursor,
    Dialogs,
    EditBridge,
    FileDialogs,
    FontList,
    ListDelete,
    ListReorder,
    ListSwipeActions,
    MultiWindow,
    NavContentList,
    NavHeader,
    NavRepresent,
    NavSplit,
    NavTabs,
    NavTabsAdaptive,
    Snapshot,
    TextEditable,
    TextLinks,
    TextRuns,
    TextSelectable,
    TextSpellCheck,
    Toolbar,
    Tree,
    UndoBridge,
    /// Anything else.
    Other,
}

#[derive(Clone, Copy, PartialEq, Eq, Structural, Debug)]
pub enum Support {
    Native,
    Emulated,
    Unsupported,
}

/// How a capability is met; `scenes` says whether the device shows several scenes.
pub open spec fn support_of(cap: Cap, scenes: bool) -> Support {
    match cap {
        Cap::Cursor => Support::Emulated,
        Cap::BaselineAlignment => Support::Emulated,
        Cap::NavRepresent => Support::Emulated,
        Cap::NavContentList => Support::Emulated,
        Cap::MultiWindow => if scenes {
            Support::Native
        } else {
            Support::Unsupported
        },
        Cap::Other => Support::Unsupported,
        _ => Support::Native,
    }
}

/// A renderer of a piece kind: its hooks, the last two optional.
#[derive(Clone, Copy, PartialEq, Eq, Structural, Debug)]
pub struct Renderer {
    pub kind: u64,
    pub make: u64,
    pub update: u64,
    pub measure: Option<u64>,
    pub release: Option<u64>,
}

/// The undo stack as the app last mirrored it.
#[derive(Debug, PartialEq, Eq)]
pub struct UndoState {
    pub can_undo: bool,
    pub can_redo: bool,
    pub undo_label: String,
    pub redo_label: String,
}

pub struct Uikit {
    pub registry: HashMap<u64, Renderer>,
    /// The cursor of each view that has one of its own.
    pub pointers: HashMap<usize, Cursor>,
    pub scenes: Scenes,
    /// The node each wired control reports to.
    pub targets: HashMap<usize, NodeId>,
    pub lists: HashMap<usize, ListData>,
    pub trees: HashMap<usize, TreeData>,
    /// Context menus made when summoned, and made beforehand.
    pub menu_fns: HashMap<usize, u64>,
    pub context_menus: HashMap<usize, Vec<MenuEl>>,
    pub navs: Navs,
    /// What the bar items of a page fire, by its controller.
    pub page_bars: HashMap<usize, Vec<Fire>>,
    pub nav_menus: HashMap<usize, NavMenu>,
    pub gestures: Gestures,
    /// The display list of each canvas.
    pub ops: HashMap<usize, Vec<DrawOp>>,
    /// The node each canvas reports keys to.
    pub key_nodes: HashMap<usize, NodeId>,
    /// The node each tappable text reports links to.
    pub text_links: HashMap<usize, NodeId>,
    pub edit: EditState,
    pub undo: UndoState,
}

/// The tables of a backend.
#[verifier::ext_equal]
pub struct Tables {
    pub registry: Map<u64, Renderer>,
    pub pointers: Map<usize, Cursor>,
    pub windows: Seq<SceneEntry>,
    pub foreground: bool,
    pub active: bool,
    pub launching: bool,
    pub pending: Vec<PendingWindow>,
    pub targets: Map<usize, NodeId>,
    pub lists: Map<usize, ListData>,
    pub trees: Map<usize, TreeData>,
    pub menu_fns: Map<usize, u64>,
    pub context_menus: Map<usize, Vec<MenuEl>>,
    pub hosts: Map<usize, NavHost>,
    pub queues: Map<usize, NavQueue>,
    pub pages: Map<usize, PageVc>,
    pub covers: Map<usize, Cover>,
    pub tabs_hosts: Map<usize, NavTabs>,
    pub tabs_pages: Map<usize, usize>,
    pub menu_rows: Map<usize, MenuRows>,
    pub page_bars: Map<usize, Vec<Fire>>,
    pub nav_menus: Map<usize, NavMenu>,
    pub gestures: Map<usize, Seq<GestureKind>>,
    pub ops: Map<usize, Vec<DrawOp>>,
    pub key_nodes: Map<usize, NodeId>,
    pub text_links: Map<usize, NodeId>,
    pub edit: EditState,
    pub undo: UndoState,
}

impl View for Uikit {
    type V = Tables;

    open spec fn view(&self) -> Tables {
        Tables {
            registry: self.registry@,
            pointers: self.pointers@,
            windows: self.scenes.entries@,
            foreground: self.scenes.foreground,
            active: self.scenes.active,
            launching: self.scenes.launching,
            pending: self.scenes.pending,
            targets: self.targets@,
            lists: self.lists@,
            trees: self.trees@,
            menu_fns: self.menu_fns@,
            context_menus: self.context_menus@,
            hosts: self.navs.hosts@,
            queues: self.navs.queues@,
            pages: Map::new(
                |h: usize| self.navs.page(h) is Some,
                |h: usize| self.navs.page(h)->0,
            ),
            covers: self.navs.covers@,
            tabs_hosts: self.navs.tabs.hosts@,
            tabs_pages: self.navs.tabs.page_host@,
            menu_rows: self.navs.menu_rows@,
            page_bars: self.page_bars@,
            nav_menus: self.nav_menus@,
            gestures: Map::new(
                |h: usize| self.gestures.on(h).len() > 0,
                |h: usize| self.gestures.on(h),
            ),
            ops: self.ops@,
            key_nodes: self.key_nodes@,
            text_links: self.text_links@,
            edit: self.edit,
            undo: self.undo,
        }
    }
}

impl Tables {
    /// A view that is in no table that a release clears.
    pub open spec fn free_of(self, h: usize) -> bool {
        &&& forall|i: int| 0 <= i < self.windows.len() ==> (#[trigger] self.windows[i]).root_view != h
        &&& !self.targets.dom().contains(h)
        &&& !self.lists.dom().contains(h)
        &&& !self.trees.dom().contains(h)
        &&& !self.menu_fns.dom().contains(h)
        &&& !self.context_menus.dom().contains(h)
        &&& !self.hosts.dom().contains(h)
        &&& !self.queues.dom().contains(h)
        &&& !self.pages.dom().contains(h)
        &&& !self.covers.dom().contains(h)
        &&& !self.nav_menus.dom().contains(h)
        &&& !self.gestures.dom().contains(h)
        &&& !self.ops.dom().contains(h)
        &&& !self.key_nodes.dom().contains(h)
        &&& !self.text_links.dom().contains(h)
    }

    /// The tables after a view is released. A page's bar goes with it; a cursor, a tabs host, its
    /// pages and rows that wait for one stay.
    pub open spec fn released(self, h: usize) -> Tables {
        Tables {
            windows: crate::scene::without_root(self.windows, h),
            targets: self.targets.remove(h),
            lists: self.lists.remove(h),
            trees: self.trees.remove(h),
            menu_fns: self.menu_fns.remove(h),
            context_menus: self.context_menus.remove(h),
            hosts: self.hosts.remove(h),
            queues: self.queues.remove(h),
            pages: self.pages.remove(h),
            covers: self.covers.remove(h),
            page_bars: if self.pages.dom().contains(h) {
                self.page_bars.remove(self.pages[h].vc)
            } else {
                self.page_bars
            },
            nav_menus: self.nav_menus.remove(h),
            gestures: self.gestures.remove(h),
            ops: self.ops.remove(h),
            key_nodes: self.key_nodes.remove(h),
            text_links: self.text_links.remove(h),
            ..self
        }
    }

    /// `after` has the tabs host `h` in it, with no page yet.
    pub open spec fn with_tabs(self, after: Tables, h: usize, tabbar: usize) -> bool {
        &&& after == (Tables { tabs_hosts: after.tabs_hosts, ..self })
        &&& after.tabs_hosts.remove(h) == self.tabs_hosts.remove(h)
        &&& after.tabs_hosts.dom().contains(h)
        &&& {
            let t = after.tabs_hosts[h];
            &&& t.tabbar == tabbar
            &&& t.pages@.len() == 0 && t.tabs@.len() == 0
            &&& t.titles@.len() == 0 && t.icons@.len() == 0
            &&& t.menu_node == 0 && !t.suppress
        }
    }

    /// Every tabs host but `at` is in `after` what it was.
    pub open spec fn other_tabs_stay(self, after: Tables, at: Option<usize>) -> bool {
        forall|o: usize|
            self.tabs_hosts.dom().contains(o) && at != Some(o) ==> #[trigger] after.tabs_hosts[o]
                == self.tabs_hosts[o]
    }

    /// `after` has the tree `h` in it, with nothing disclosed.
    pub open spec fn with_tree(
        self,
        after: Tables,
        h: usize,
        node: NodeId,
        selectable: bool,
        row_height: Scalar,
    ) -> bool {
        &&& after == (Tables { trees: after.trees, ..self })
        &&& after.trees.remove(h) == self.trees.remove(h)
        &&& after.trees.dom().contains(h)
        &&& {
            let t = after.trees[h];
            &&& t.node == node && t.selectable == selectable && t.row_height == row_height
            &&& t.expanded@ == Set::<u64>::empty()
        }
    }

    /// `after` has the menu `h` in it, and its rows, which wait for the tabs host it may be inserted
    /// under. `path` is where its selection stands.
    pub open spec fn with_menu(
        self,
        after: Tables,
        h: usize,
        node: NodeId,
        content: MenuContent,
        selected: Option<usize>,
        path: Option<(usize, usize)>,
    ) -> bool {
        &&& after == (Tables {
            nav_menus: after.nav_menus,
            menu_rows: after.menu_rows,
            ..self
        })
        &&& after.nav_menus.remove(h) == self.nav_menus.remove(h)
        &&& after.nav_menus.dom().contains(h)
        &&& after.menu_rows.remove(h) == self.menu_rows.remove(h)
        &&& after.menu_rows.dom().contains(h)
        &&& {
            let m = after.nav_menus[h];
            let rows = after.menu_rows[h];
            &&& m.node == node
            &&& shows(m, content)
            &&& rows.node == node.0
            &&& rows.titles@ == content.items@
            &&& rows.icons@ == content.icons@
            &&& path_is(m, selected, path)
        }
    }

    /// The tables without their entries of `h`: what they say of every other view.
    pub open spec fn beside(self, h: usize) -> Tables {
        Tables {
            targets: self.targets.remove(h),
            lists: self.lists.remove(h),
            trees: self.trees.remove(h),
            hosts: self.hosts.remove(h),
            pages: self.pages.remove(h),
            covers: self.covers.remove(h),
            tabs_hosts: self.tabs_hosts.remove(h),
            menu_rows: self.menu_rows.remove(h),
            nav_menus: self.nav_menus.remove(h),
            key_nodes: self.key_nodes.remove(h),
            text_links: self.text_links.remove(h),
            ..self
        }
    }

    /// The view `h`, realized as `widget`, stands in its table under `node`. A widget that reports
    /// nothing and is patched by its view alone has none.
    pub open spec fn holds(self, h: usize, node: NodeId, widget: Widget, native: Native) -> bool {
        match widget {
            Widget::Button { .. } => self.targets.contains_pair(h, node),
            Widget::Toggle { .. } => self.targets.contains_pair(h, node),
            Widget::Slider { .. } => self.targets.contains_pair(h, node),
            Widget::TextField { .. } => self.targets.contains_pair(h, node),
            Widget::Canvas => self.key_nodes.contains_pair(h, node),
            Widget::LinkLabel { .. } => self.text_links.contains_pair(h, node),
            Widget::List { row_height, selectable, .. } => self.lists.contains_pair(
                h,
                ListData { node, row_height, selectable },
            ),
            Widget::Tree { row_height, selectable, .. } => {
                &&& self.trees.dom().contains(h)
                &&& self.trees[h].node == node
                &&& self.trees[h].row_height == row_height
                &&& self.trees[h].selectable == selectable
            },
            Widget::NavMenu(p) => {
                &&& self.nav_menus.dom().contains(h)
                &&& self.nav_menus[h].node == node
                &&& self.nav_menus[h].items == p.content.items
                &&& self.menu_rows.dom().contains(h)
                &&& self.menu_rows[h].node == node.0
            },
            Widget::TabsHost => {
                &&& self.tabs_hosts.dom().contains(h)
                &&& self.tabs_hosts[h].tabbar == native.vc
            },
            Widget::StackHost { search } => {
                &&& self.hosts.dom().contains(h)
                &&& self.hosts[h].host_node == node
                &&& self.hosts[h].nav == native.vc
                &&& self.hosts[h].split is None
                &&& self.hosts[h].search == search is Some
            },
            Widget::SplitHost { config, list_visible, search } => {
                &&& self.hosts.dom().contains(h)
                &&& self.hosts[h].host_node == node
                &&& self.hosts[h].nav == native.fresh.secondary_nav
                &&& self.hosts[h].search == search is Some
                &&& self.hosts[h].split matches Some(parts)
                &&& parts.supplementary_nav is Some == config.triple
                &&& parts.secondary_placeholder is Some == config.triple
                &&& parts.list_shown == list_visible
                &&& parts.container == h
            },
            Widget::NavPage { pane, .. } => self.pages.contains_pair(
                h,
                PageVc { handle: h, vc: native.vc, pane },
            ),
            Widget::Cover => self.covers.contains_pair(h, Cover { vc: native.vc, node }),
            _ => true,
        }
    }

    /// The tables after a view is realized.
    pub open spec fn mounted(self, h: usize, node: NodeId, made: Made) -> Tables {
        match made {
            Made::Plain => self,
            Made::Wired => Tables { targets: self.targets.insert(h, node), ..self },
            Made::Canvas => Tables { key_nodes: self.key_nodes.insert(h, node), ..self },
            Made::Links => Tables { text_links: self.text_links.insert(h, node), ..self },
            Made::List { selectable, row_height } => Tables {
                lists: self.lists.insert(h, ListData { node, row_height, selectable }),
                ..self
            },
            Made::Host { nav, split, collapsed, search } => Tables {
                hosts: self.hosts.insert(
                    h,
                    NavHost { nav, host_node: node, split, collapsed, day_pop: false, search },
                ),
                ..self
            },
            Made::Page { vc, pane } => Tables {
                pages: self.pages.insert(h, PageVc { handle: h, vc, pane }),
                ..self
            },
            Made::Cover { vc } => Tables {
                covers: self.covers.insert(h, Cover { vc, node }),
                ..self
            },
        }
    }
}

/// What a realized view is, as far as a table has to know: addresses of what was built for it.
#[derive(Clone, Copy, PartialEq, Eq, Structural, Debug)]
pub enum Made {
    Plain,
    /// A target/action control.
    Wired,
    Canvas,
    /// A text that can be tapped.
    Links,
    List { selectable: bool, row_height: Scalar },
    /// A navigation host; `collapsed` is UIKit's answer, of a split alone.
    Host { nav: usize, split: Option<SplitParts>, collapsed: bool, search: bool },
    Page { vc: usize, pane: Pane },
    Cover { vc: usize },
}

/// What UIKit made for a widget beside its view. Most widgets are only a view, and have no use for
/// it.
#[derive(Clone, Copy, PartialEq, Eq, Structural, Debug)]
pub struct Native {
    /// The controller of a stack, a page, a cover or a tab bar.
    pub vc: usize,
    /// The controllers of a split, and UIKit's answer to whether it is collapsed.
    pub fresh: Fresh,
    pub collapsed: bool,
}

/// What a widget is to the tables; `None` for a tabs host, a menu and a tree, which have an entry
/// of their own. A split's container is the view itself.
pub open spec fn made_as(widget: Widget, h: usize, native: Native) -> Option<Made> {
    match widget {
        Widget::TabsHost => None,
        Widget::NavMenu(_) => None,
        Widget::Tree { .. } => None,
        Widget::Button { .. } => Some(Made::Wired),
        Widget::Toggle { .. } => Some(Made::Wired),
        Widget::Slider { .. } => Some(Made::Wired),
        Widget::TextField { .. } => Some(Made::Wired),
        Widget::Canvas => Some(Made::Canvas),
        Widget::LinkLabel { .. } => Some(Made::Links),
        Widget::List { row_height, selectable, .. } => Some(Made::List { selectable, row_height }),
        Widget::StackHost { search } => Some(
            Made::Host { nav: native.vc, split: None, collapsed: false, search: search is Some },
        ),
        Widget::SplitHost { config, list_visible, search } => {
            let built = config.built(native.fresh);
            Some(
                Made::Host {
                    nav: native.fresh.secondary_nav,
                    split: Some(
                        SplitParts {
                            split_vc: built.split_vc,
                            primary_nav: built.primary_nav,
                            supplementary_nav: built.supplementary_nav,
                            list_width: config.list_width,
                            list_shown: list_visible,
                            container: h,
                            list_vc: None,
                            secondary_placeholder: built.secondary_placeholder,
                        },
                    ),
                    collapsed: native.collapsed,
                    search: search is Some,
                },
            )
        },
        Widget::NavPage { pane, .. } => Some(Made::Page { vc: native.vc, pane }),
        Widget::Cover => Some(Made::Cover { vc: native.vc }),
        _ => Some(Made::Plain),
    }
}

pub fn made(widget: &Widget, h: usize, native: Native) -> (r: Option<Made>)
    ensures
        r == made_as(*widget, h, native),
{
    match widget {
        Widget::TabsHost => None,
        Widget::NavMenu(_) => None,
        Widget::Tree { .. } => None,
        Widget::Button { .. } => Some(Made::Wired),
        Widget::Toggle { .. } => Some(Made::Wired),
        Widget::Slider { .. } => Some(Made::Wired),
        Widget::TextField { .. } => Some(Made::Wired),
        Widget::Canvas => Some(Made::Canvas),
        Widget::LinkLabel { .. } => Some(Made::Links),
        Widget::List { row_height, selectable, .. } => Some(
            Made::List { selectable: *selectable, row_height: *row_height },
        ),
        Widget::StackHost { search } => Some(
            Made::Host { nav: native.vc, split: None, collapsed: false, search: search.is_some() },
        ),
        Widget::SplitHost { config, list_visible, search } => {
            let built = config.build(native.fresh);
            Some(
                Made::Host {
                    nav: native.fresh.secondary_nav,
                    split: Some(
                        SplitParts {
                            split_vc: built.split_vc,
                            primary_nav: built.primary_nav,
                            supplementary_nav: built.supplementary_nav,
                            list_width: config.list_width,
                            list_shown: *list_visible,
                            container: h,
                            list_vc: None,
                            secondary_placeholder: built.secondary_placeholder,
                        },
                    ),
                    collapsed: native.collapsed,
                    search: search.is_some(),
                },
            )
        },
        Widget::NavPage { pane, .. } => Some(Made::Page { vc: native.vc, pane: *pane }),
        Widget::Cover => Some(Made::Cover { vc: native.vc }),
        _ => Some(Made::Plain),
    }
}

/// What follows once a widget is in its table.
pub enum Entered {
    Done,
    /// A tabs host reports itself.
    Report(Option<Call>),
    /// A menu is loaded, and the row at this path marked.
    Load(Option<(usize, usize)>),
}

/// `after` is `before` with `widget` realized as the view `h` of `node`.
pub open spec fn entered(
    before: Tables,
    after: Tables,
    sink: Sink,
    h: usize,
    node: NodeId,
    widget: Widget,
    native: Native,
    r: Entered,
) -> bool {
    match widget {
        Widget::TabsHost => {
            &&& before.with_tabs(after, h, native.vc)
            &&& r == Entered::Report(
                sink.call(
                    Target::Node(node),
                    Event::NavPresentationChanged(Presentation::Tabs),
                ),
            )
        },
        Widget::NavMenu(p) => {
            &&& r matches Entered::Load(path)
            &&& before.with_menu(after, h, node, p.content, p.selected, path)
        },
        Widget::Tree { row_height, selectable, .. } => {
            &&& before.with_tree(after, h, node, selectable, row_height)
            &&& r is Done
        },
        _ => {
            &&& after == before.mounted(h, node, made_as(widget, h, native)->0)
            &&& r is Done
        },
    }
}

/// The renderers of the first `n`, a later one of a kind taking the place of an earlier.
pub open spec fn registered(renderers: Seq<Renderer>) -> Map<u64, Renderer>
    decreases renderers.len(),
{
    if renderers.len() == 0 {
        Map::empty()
    } else {
        registered(renderers.drop_last()).insert(renderers.last().kind, renderers.last())
    }
}

impl Uikit {
    pub open spec fn wf(self) -> bool {
        self.navs.wf() && self.gestures.wf()
    }

    /// A backend with these renderers, and nothing in any table.
    pub fn new(renderers: &Vec<Renderer>) -> (u: Uikit)
        ensures
            u.wf(),
            u@.registry == registered(renderers@),
            u@.pointers == Map::<usize, Cursor>::empty(),
            forall|h: usize| #[trigger] u@.free_of(h),
            u@.windows.len() == 0,
            !u@.foreground && !u@.active && !u@.launching,
            u@.pending@.len() == 0,
            u@.tabs_hosts == Map::<usize, NavTabs>::empty(),
            u@.tabs_pages == Map::<usize, usize>::empty(),
            u@.menu_rows == Map::<usize, MenuRows>::empty(),
            u@.page_bars == Map::<usize, Vec<Fire>>::empty(),
            !u.edit.can_cut && !u.edit.can_copy && !u.edit.can_paste && !u.edit.can_select_all,
            !u.undo.can_undo && !u.undo.can_redo,
            u.undo.undo_label@.len() == 0 && u.undo.redo_label@.len() == 0,
    {
        let mut registry: HashMap<u64, Renderer> = HashMap::new();
        let n: usize = renderers.len();
        for i in 0..n
            invariant
                n == renderers@.len(),
                registry@ == registered(renderers@.take(i as int)),
        {
            proof {
                assert(renderers@.take(i + 1).drop_last() == renderers@.take(i as int));
            }
            registry.insert(renderers[i].kind, renderers[i]);
        }
        proof {
            assert(renderers@.take(n as int) == renderers@);
            reveal_strlit("");
        }
        let u = Uikit {
            registry,
            pointers: HashMap::new(),
            scenes: Scenes::new(),
            targets: HashMap::new(),
            lists: HashMap::new(),
            trees: HashMap::new(),
            menu_fns: HashMap::new(),
            context_menus: HashMap::new(),
            navs: Navs::new(),
            page_bars: HashMap::new(),
            nav_menus: HashMap::new(),
            gestures: Gestures::new(),
            ops: HashMap::new(),
            key_nodes: HashMap::new(),
            text_links: HashMap::new(),
            edit: EditState {
                can_cut: false,
                can_copy: false,
                can_paste: false,
                can_select_all: false,
            },
            undo: UndoState {
                can_undo: false,
                can_redo: false,
                undo_label: "".to_string(),
                redo_label: "".to_string(),
            },
        };
        proof {
            assert forall|h: usize| #[trigger] u@.free_of(h) by {
                assert(u.gestures.on(h).len() == 0);
                assert(crate::navs::page_from(u.navs.pages@, h, 0) is None);
            }
        }
        u
    }

    /// How a capability is met.
    pub fn capability(&self, cap: Cap, scenes: bool) -> (r: Support)
        ensures
            r == support_of(cap, scenes),
    {
        match cap {
            Cap::Cursor => Support::Emulated,
            Cap::BaselineAlignment => Support::Emulated,
            Cap::NavRepresent => Support::Emulated,
            Cap::NavContentList => Support::Emulated,
            Cap::MultiWindow => if scenes {
                Support::Native
            } else {
                Support::Unsupported
            },
            Cap::Other => Support::Unsupported,
            _ => Support::Native,
        }
    }

    /// The renderer of a kind.
    pub fn renderer(&self, kind: u64) -> (r: Option<Renderer>)
        ensures
            r == (if self.registry@.dom().contains(kind) {
                Some(self.registry@[kind])
            } else {
                None
            }),
    {
        match self.registry.get(&kind) {
            Some(r) => Some(*r),
            None => None,
        }
    }

    /// The teardown hook a piece is offered before its view is released.
    pub fn release_piece(&self, kind: u64) -> (hook: Option<u64>)
        ensures
            hook == (if self.registry@.dom().contains(kind) {
                self.registry@[kind].release
            } else {
                None
            }),
    {
        match self.registry.get(&kind) {
            Some(r) => r.release,
            None => None,
        }
    }

    /// Enter a realized view in its table.
    pub fn mount(&mut self, h: usize, node: NodeId, made: Made)
        requires
            old(self).wf(),
        ensures
            final(self).wf(),
            final(self)@ == old(self)@.mounted(h, node, made),
    {
        match made {
            Made::Plain => {},
            Made::Wired => {
                self.targets.insert(h, node);
            },
            Made::Canvas => {
                self.key_nodes.insert(h, node);
            },
            Made::Links => {
                self.text_links.insert(h, node);
            },
            Made::List { selectable, row_height } => {
                self.lists.insert(h, ListData { node, row_height, selectable });
            },
            Made::Host { nav, split, collapsed, search } => {
                self.navs.hosts.insert(
                    h,
                    NavHost { nav, host_node: node, split, collapsed, day_pop: false, search },
                );
            },
            Made::Page { vc, pane } => {
                self.navs.add_page(PageVc { handle: h, vc, pane });
                proof {
                    assert(self@.pages =~= old(self)@.mounted(h, node, made).pages);
                }
            },
            Made::Cover { vc } => {
                self.navs.covers.insert(h, Cover { vc, node });
            },
        }
        proof {
            assert(self@.gestures =~= old(self)@.gestures);
            assert(self@ =~= old(self)@.mounted(h, node, made));
        }
    }

    /// Enter a tabs host, which reports itself as one, once: the call that does.
    pub fn mount_tabs(&mut self, sink: &Sink, h: usize, node: NodeId, tabbar: usize) -> (call: Option<
        Call,
    >)
        requires
            old(self).wf(),
        ensures
            final(self).wf(),
            old(self)@.with_tabs(final(self)@, h, tabbar),
            call == sink.call(
                Target::Node(node),
                Event::NavPresentationChanged(Presentation::Tabs),
            ),
    {
        self.navs.tabs.hosts.insert(h, NavTabs::new(tabbar));
        proof {
            assert(self@.pages =~= old(self)@.pages);
            assert(self@.tabs_hosts.remove(h) =~= old(self)@.tabs_hosts.remove(h));
            assert(self@ =~= (Tables { tabs_hosts: self@.tabs_hosts, ..old(self)@ }));
        }
        emit(sink, Target::Node(node), Event::NavPresentationChanged(Presentation::Tabs))
    }

    /// Enter a tree, with nothing disclosed.
    pub fn mount_tree(&mut self, h: usize, node: NodeId, selectable: bool, row_height: Scalar)
        requires
            old(self).wf(),
        ensures
            final(self).wf(),
            old(self)@.with_tree(final(self)@, h, node, selectable, row_height),
    {
        self.trees.insert(h, TreeData::new(node, selectable, row_height));
        proof {
            assert(self@.trees.remove(h) =~= old(self)@.trees.remove(h));
            assert(self@ =~= (Tables { trees: self@.trees, ..old(self)@ }));
        }
    }

    /// Enter a menu; its rows wait for the tabs host it may be inserted under. The path to mark,
    /// if the menu comes with a selection.
    pub fn mount_menu(
        &mut self,
        h: usize,
        node: NodeId,
        content: MenuContent,
        selected: Option<usize>,
    ) -> (path: Option<(usize, usize)>)
        requires
            old(self).wf(),
        ensures
            final(self).wf(),
            old(self)@.with_menu(final(self)@, h, node, content, selected, path),
    {
        let titles = clone_titles(&content.items);
        let icons = clone_icons(&content.icons);
        let menu = NavMenu::new(node, content);
        let path = match selected {
            Some(row) => menu.path_of(row),
            None => None,
        };
        self.nav_menus.insert(h, menu);
        self.navs.menu_rows.insert(h, MenuRows { node: node.0, titles, icons });
        proof {
            assert(self@.pages =~= old(self)@.pages);
            assert(self@.nav_menus.remove(h) =~= old(self)@.nav_menus.remove(h));
            assert(self@.menu_rows.remove(h) =~= old(self)@.menu_rows.remove(h));
            assert(self@ =~= (Tables {
                nav_menus: self@.nav_menus,
                menu_rows: self@.menu_rows,
                ..old(self)@
            }));
        }
        path
    }

    /// Enter a realized piece in its table, as what it was realized as; `native` is what was made for
    /// it beside its view `h`.
    pub fn enter(
        &mut self,
        sink: &Sink,
        h: usize,
        node: NodeId,
        widget: Widget,
        native: Native,
    ) -> (r: Entered)
        requires
            old(self).wf(),
        ensures
            final(self).wf(),
            entered(old(self)@, final(self)@, *sink, h, node, widget, native, r),
    {
        match made(&widget, h, native) {
            Some(made) => {
                self.mount(h, node, made);
                Entered::Done
            },
            None => match widget {
                Widget::NavMenu(p) => Entered::Load(
                    self.mount_menu(h, node, p.content, p.selected),
                ),
                Widget::Tree { row_height, selectable, .. } => {
                    self.mount_tree(h, node, selectable, row_height);
                    Entered::Done
                },
                _ => Entered::Report(self.mount_tabs(sink, h, node, native.vc)),
            },
        }
    }

    /// A menu's rows changed. A menu in the table takes them; the tabs host enclosing the view is
    /// retitled either way, and the caller syncs it. `chain` is the view and everything above it.
    pub fn set_menu_items(
        &mut self,
        h: usize,
        content: MenuContent,
        selected: Option<usize>,
        chain: &Vec<usize>,
    ) -> (r: MenuUpdate)
        requires
            old(self).wf(),
        ensures
            final(self).wf(),
            final(self)@ == (Tables {
                nav_menus: final(self)@.nav_menus,
                tabs_hosts: final(self)@.tabs_hosts,
                ..old(self)@
            }),
            final(self)@.nav_menus.dom() == old(self)@.nav_menus.dom(),
            final(self)@.nav_menus.remove(h) == old(self)@.nav_menus.remove(h),
            match r.reload {
                Some(reload) => {
                    let (before, after) = (old(self)@.nav_menus[h], final(self)@.nav_menus[h]);
                    &&& old(self)@.nav_menus.dom().contains(h)
                    &&& after.node == before.node
                    &&& shows(after, content)
                    &&& reload.relayout == (after.headers != before.headers)
                    &&& path_is(after, selected, reload.path)
                },
                None => !old(self)@.nav_menus.dom().contains(h),
            },
            r.sync == old(self).navs.tabs.enclosing_from(chain@, 0),
            final(self)@.tabs_hosts.dom() == old(self)@.tabs_hosts.dom(),
            old(self)@.other_tabs_stay(final(self)@, r.sync),
            r.sync matches Some(hp) ==> old(self)@.tabs_hosts.dom().contains(hp) ==> {
                let (before, after) = (old(self)@.tabs_hosts[hp], final(self)@.tabs_hosts[hp]);
                &&& after.titles@ == content.items@
                &&& after.icons@ == content.icons@
                &&& after.pages@ == before.pages@
                &&& after.tabs@ == before.tabs@
                &&& after.menu_node == before.menu_node
                &&& after.suppress == before.suppress
                &&& after.tabbar == before.tabbar
            },
    {
        let titles = clone_titles(&content.items);
        let icons = clone_icons(&content.icons);
        let sync = self.navs.tabs.enclosing_tabs_host(chain);
        let reload = match self.nav_menus.remove(&h) {
            Some(menu) => {
                let mut menu = menu;
                let relayout = menu.set_items(content);
                let path = match selected {
                    Some(row) => menu.path_of(row),
                    None => None,
                };
                self.nav_menus.insert(h, menu);
                Some(MenuReload { relayout, path })
            },
            None => None,
        };
        match sync {
            Some(hp) => match self.navs.tabs.hosts.remove(&hp) {
                Some(t) => {
                    let mut t = t;
                    t.retitle(titles, icons);
                    self.navs.tabs.hosts.insert(hp, t);
                },
                None => {},
            },
            None => {},
        }
        proof {
            assert(self@.pages =~= old(self)@.pages);
            assert(self@.nav_menus.dom() =~= old(self)@.nav_menus.dom());
            assert(self@.nav_menus.remove(h) =~= old(self)@.nav_menus.remove(h));
            assert(self@.tabs_hosts.dom() =~= old(self)@.tabs_hosts.dom());
            assert(self@ =~= (Tables {
                nav_menus: self@.nav_menus,
                tabs_hosts: self@.tabs_hosts,
                ..old(self)@
            }));
        }
        MenuUpdate { reload, sync }
    }

    /// A tree is patched; what is done about it a turn later, if it is still there then.
    pub fn patch_tree(&mut self, h: usize, patch: TreePatch) -> (act: Option<TreeAct>)
        requires
            old(self).wf(),
        ensures
            final(self).wf(),
            final(self)@ == (Tables { trees: final(self)@.trees, ..old(self)@ }),
            final(self)@.trees.dom() == old(self)@.trees.dom(),
            final(self)@.trees.remove(h) == old(self)@.trees.remove(h),
            act is Some == old(self)@.trees.dom().contains(h),
            act matches Some(act) ==> {
                let (before, after) = (old(self)@.trees[h], final(self)@.trees[h]);
                &&& after.node == before.node
                &&& after.selectable == before.selectable
                &&& after.row_height == before.row_height
                &&& after.expanded@ == (match patch {
                    TreePatch::Expand(token, on) => if on {
                        before.expanded@.insert(token)
                    } else {
                        before.expanded@.remove(token)
                    },
                    _ => before.expanded@,
                })
                &&& act == (match patch {
                    TreePatch::Reload => TreeAct::Snapshot { animated: false },
                    TreePatch::Expand(_, _) => TreeAct::Snapshot { animated: true },
                    TreePatch::Selected(tokens) => TreeAct::Select(tokens),
                    TreePatch::Reveal(token) => TreeAct::Reveal(token),
                })
            },
    {
        let act = match self.trees.remove(&h) {
            Some(tree) => {
                let mut tree = tree;
                let act = tree.patch(patch);
                self.trees.insert(h, tree);
                Some(act)
            },
            None => None,
        };
        proof {
            assert(self@.trees.dom() =~= old(self)@.trees.dom());
            assert(self@.trees.remove(h) =~= old(self)@.trees.remove(h));
            assert(self@ =~= (Tables { trees: self@.trees, ..old(self)@ }));
        }
        act
    }

    /// A view is released. Whether it had a summoned context menu to detach.
    pub fn release(&mut self, h: usize) -> (detach: bool)
        requires
            old(self).wf(),
        ensures
            final(self).wf(),
            detach == old(self)@.menu_fns.dom().contains(h),
            final(self)@ == old(self)@.released(h),
    {
        self.scenes.release_root(h);
        self.targets.remove(&h);
        self.lists.remove(&h);
        self.trees.remove(&h);
        let detach = self.menu_fns.remove(&h).is_some();
        match self.navs.release(h) {
            Some(vc) => {
                self.page_bars.remove(&vc);
            },
            None => {},
        }
        self.nav_menus.remove(&h);
        self.gestures.release(h);
        self.context_menus.remove(&h);
        self.ops.remove(&h);
        self.key_nodes.remove(&h);
        self.text_links.remove(&h);
        proof {
            assert(self@.gestures =~= old(self)@.gestures.remove(h));
            assert(self@.pages =~= old(self)@.pages.remove(h));
            assert(self@ =~= old(self)@.released(h));
        }
        detach
    }

    /// A summoned context menu takes the place of the one before it; whether there was one to
    /// detach.
    pub fn set_context_menu_fn(&mut self, h: usize, f: u64) -> (detach: bool)
        requires
            old(self).wf(),
        ensures
            final(self).wf(),
            detach == old(self)@.menu_fns.dom().contains(h),
            final(self)@ == (Tables { menu_fns: old(self)@.menu_fns.insert(h, f), ..old(self)@ }),
    {
        let detach = self.menu_fns.remove(&h).is_some();
        self.menu_fns.insert(h, f);
        proof {
            assert(self@.menu_fns =~= old(self)@.menu_fns.insert(h, f));
            assert(self@ =~= (Tables { menu_fns: old(self)@.menu_fns.insert(h, f), ..old(self)@ }));
        }
        detach
    }

    /// A context menu takes the place of the one before it; without entries there is none. Whether
    /// there was one to detach, and whether there is one to attach.
    pub fn set_context_menu(&mut self, h: usize, items: &Vec<MenuItem>) -> (r: (bool, bool))
        requires
            old(self).wf(),
        ensures
            final(self).wf(),
            r.0 == old(self)@.context_menus.dom().contains(h),
            r.1 == (items@.len() > 0),
            final(self)@ == (Tables {
                context_menus: final(self)@.context_menus,
                ..old(self)@
            }),
            final(self)@.context_menus.remove(h) == old(self)@.context_menus.remove(h),
            final(self)@.context_menus.dom().contains(h) == r.1,
            r.1 ==> crate::menu::menu(items@, final(self)@.context_menus[h]@),
    {
        let detach = self.context_menus.remove(&h).is_some();
        let attach = items.len() > 0;
        if attach {
            self.context_menus.insert(h, build_ui_menu(items));
        }
        proof {
            assert(self@.context_menus.remove(h) =~= old(self)@.context_menus.remove(h));
            assert(self@ =~= (Tables { context_menus: self@.context_menus, ..old(self)@ }));
        }
        (detach, attach)
    }

    /// Set a view's cursor.
    pub fn set_cursor(&mut self, h: usize, cursor: Cursor) -> (r: PointerChange)
        requires
            old(self).wf(),
        ensures
            final(self).wf(),
            final(self)@ == (Tables {
                pointers: if cursor == Cursor::Default {
                    old(self)@.pointers.remove(h)
                } else {
                    old(self)@.pointers.insert(h, cursor)
                },
                ..old(self)@
            }),
            r == (match (cursor == Cursor::Default, old(self)@.pointers.dom().contains(h)) {
                (true, true) => PointerChange::Detach,
                (true, false) => PointerChange::Nothing,
                (false, true) => PointerChange::Invalidate,
                (false, false) => PointerChange::Attach,
            }),
    {
        let r = set_cursor(&mut self.pointers, h, cursor);
        proof {
            assert(self@ =~= (Tables { pointers: self@.pointers, ..old(self)@ }));
        }
        r
    }

    /// A canvas is drawn from a new display list; it asks to be displayed again.
    pub fn replay(&mut self, h: usize, ops: Vec<DrawOp>)
        requires
            old(self).wf(),
        ensures
            final(self).wf(),
            final(self)@ == (Tables { ops: old(self)@.ops.insert(h, ops), ..old(self)@ }),
    {
        self.ops.insert(h, ops);
        proof {
            assert(self@ =~= (Tables { ops: old(self)@.ops.insert(h, ops), ..old(self)@ }));
        }
    }

    /// A page's bar has new items: what they fire is kept with its controller.
    pub fn set_page_bar(&mut self, vc: usize, fires: Vec<Fire>)
        requires
            old(self).wf(),
        ensures
            final(self).wf(),
            final(self)@ == (Tables {
                page_bars: old(self)@.page_bars.insert(vc, fires),
                ..old(self)@
            }),
    {
        self.page_bars.insert(vc, fires);
        proof {
            assert(self@ =~= (Tables {
                page_bars: old(self)@.page_bars.insert(vc, fires),
                ..old(self)@
            }));
        }
    }

    /// Day's own frames do not reach a page's or a cover's content: its controller lays it out.
    pub fn owns_frame(&self, h: usize) -> (r: bool)
        ensures
            r == (self@.pages.dom().contains(h) || self@.covers.dom().contains(h)),
    {
        self.navs.page_of(h).is_some() || self.navs.covers.contains_key(&h)
    }
}

/// `m` shows `content`, and its layout draws headings when there is one.
pub open spec fn shows(m: NavMenu, content: MenuContent) -> bool {
    &&& m.items == content.items
    &&& m.icons == content.icons
    &&& m.tints == content.tints
    &&& m.menus == content.menus
    &&& m.badge_icons == content.badge_icons
    &&& m.badge_tints == content.badge_tints
    &&& m.sections == content.sections
    &&& m.headers == crate::nav_menu::any_headed(content.sections@)
}

/// `path` is where row `selected` stands in `m`.
pub open spec fn path_is(m: NavMenu, selected: Option<usize>, path: Option<(usize, usize)>) -> bool {
    match selected {
        Some(row) => match path {
            Some((s, i)) => crate::nav_menu::path_from(m.groups_spec(), row as int, 0) == Some(
                (s as int, i as int),
            ),
            None => crate::nav_menu::path_from(m.groups_spec(), row as int, 0) is None,
        },
        None => path is None,
    }
}

/// A menu's list is loaded again: with a new layout if need be, and this path marked.
#[derive(Clone, Copy, PartialEq, Eq, Debug)]
pub struct MenuReload {
    pub relayout: bool,
    pub path: Option<(usize, usize)>,
}

#[derive(Clone, Copy, PartialEq, Eq, Debug)]
pub struct MenuUpdate {
    pub reload: Option<MenuReload>,
    /// The tabs host to sync.
    pub sync: Option<usize>,
}

fn clone_titles(titles: &Vec<String>) -> (out: Vec<String>)
    ensures
        out@ == titles@,
{
    let mut out: Vec<String> = Vec::new();
    let n: usize = titles.len();
    for i in 0..n
        invariant
            n == titles@.len(),
            out@ == titles@.take(i as int),
    {
        out.push(titles[i].clone());
        proof {
            assert(out@ =~= titles@.take(i + 1));
        }
    }
    proof {
        assert(titles@.take(n as int) == titles@);
    }
    out
}

fn clone_icons(icons: &Vec<Option<String>>) -> (out: Vec<Option<String>>)
    ensures
        out@ == icons@,
{
    let mut out: Vec<Option<String>> = Vec::new();
    let n: usize = icons.len();
    for i in 0..n
        invariant
            n == icons@.len(),
            out@ == icons@.take(i as int),
    {
        let icon = match &icons[i] {
            Some(name) => Some(name.clone()),
            None => None,
        };
        out.push(icon);
        proof {
            assert(out@ =~= icons@.take(i + 1));
        }
    }
    proof {
        assert(icons@.take(n as int) == icons@);
    }
    out
}

/// A realized piece stands in its table under its node, whatever stood there before, and every other
/// view stands where it did. A piece that is only a view is in no table.
pub proof fn law_realized_piece_stands_in_its_table(
    before: Tables,
    after: Tables,
    sink: Sink,
    h: usize,
    node: NodeId,
    kind: Kind,
    props: Props,
    registered: bool,
    native: Native,
    r: Entered,
)
    requires
        entered(before, after, sink, h, node, widget_of(kind, props, registered), native, r),
    ensures
        after.holds(h, node, widget_of(kind, props, registered), native),
        after.beside(h) == before.beside(h),
        made_as(widget_of(kind, props, registered), h, native) == Some(Made::Plain) ==> after
            == before,
{
    assert(after.beside(h).targets =~= before.beside(h).targets);
    assert(after.beside(h) =~= before.beside(h));
}

/// A released view is in none of the tables a release clears.
pub proof fn law_released_view_is_gone(t: Tables, h: usize)
    ensures
        t.released(h).free_of(h),
{
    lemma_without_root(t.windows, h);
}

/// Releasing one view leaves every other view where it is.
pub proof fn law_release_leaves_other_views(t: Tables, h: usize, o: usize)
    requires
        h != o,
    ensures
        t.free_of(o) == t.released(h).free_of(o),
        t.targets.dom().contains(o) ==> t.released(h).targets[o] == t.targets[o],
        t.lists.dom().contains(o) ==> t.released(h).lists[o] == t.lists[o],
        t.trees.dom().contains(o) ==> t.released(h).trees[o] == t.trees[o],
        t.hosts.dom().contains(o) ==> t.released(h).hosts[o] == t.hosts[o],
        t.pages.dom().contains(o) ==> t.released(h).pages[o] == t.pages[o],
        t.covers.dom().contains(o) ==> t.released(h).covers[o] == t.covers[o],
        t.nav_menus.dom().contains(o) ==> t.released(h).nav_menus[o] == t.nav_menus[o],
{
    lemma_without_root(t.windows, h);
    lemma_without_root_keeps(t.windows, h, o);
}

/// Realizing a new view and releasing it again leaves every table as it was; a page's controller
/// is new too, and has no bar yet.
pub proof fn law_release_undoes_mount(t: Tables, h: usize, node: NodeId, made: Made)
    requires
        t.free_of(h),
        made matches Made::Page { vc, pane } ==> !t.page_bars.dom().contains(vc),
    ensures
        t.mounted(h, node, made).released(h) == t,
{
    lemma_without_root_free(t.windows, h);
    let after = t.mounted(h, node, made).released(h);
    assert(after.targets =~= t.targets);
    assert(after.lists =~= t.lists);
    assert(after.trees =~= t.trees);
    assert(after.menu_fns =~= t.menu_fns);
    assert(after.context_menus =~= t.context_menus);
    assert(after.hosts =~= t.hosts);
    assert(after.queues =~= t.queues);
    assert(after.pages =~= t.pages);
    assert(after.covers =~= t.covers);
    assert(after.page_bars =~= t.page_bars);
    assert(after.nav_menus =~= t.nav_menus);
    assert(after.gestures =~= t.gestures);
    assert(after.ops =~= t.ops);
    assert(after.key_nodes =~= t.key_nodes);
    assert(after.text_links =~= t.text_links);
}

proof fn lemma_without_root(windows: Seq<SceneEntry>, h: usize)
    ensures
        forall|i: int|
            0 <= i < crate::scene::without_root(windows, h).len()
                ==> (#[trigger] crate::scene::without_root(windows, h)[i]).root_view != h,
    decreases windows.len(),
{
    if windows.len() > 0 {
        lemma_without_root(windows.drop_last(), h);
    }
}

proof fn lemma_without_root_free(windows: Seq<SceneEntry>, h: usize)
    requires
        forall|i: int| 0 <= i < windows.len() ==> (#[trigger] windows[i]).root_view != h,
    ensures
        crate::scene::without_root(windows, h) == windows,
    decreases windows.len(),
{
    if windows.len() > 0 {
        assert forall|i: int| 0 <= i < windows.drop_last().len() implies (
        #[trigger] windows.drop_last()[i]).root_view != h by {
            assert(windows[i].root_view != h);
        }
        lemma_without_root_free(windows.drop_last(), h);
        assert(windows.last() == windows[windows.len() - 1]);
        assert(windows.drop_last().push(windows.last()) =~= windows);
    }
}

/// Whether a window is rooted at `o`.
spec fn rooted(windows: Seq<SceneEntry>, o: usize) -> bool {
    exists|i: int| 0 <= i < windows.len() && (#[trigger] windows[i]).root_view == o
}

proof fn lemma_without_root_keeps(windows: Seq<SceneEntry>, h: usize, o: usize)
    requires
        h != o,
    ensures
        rooted(crate::scene::without_root(windows, h), o) == rooted(windows, o),
    decreases windows.len(),
{
    if windows.len() > 0 {
        let front = windows.drop_last();
        let kept = crate::scene::without_root(front, h);
        lemma_without_root_keeps(front, h, o);
        let last = windows.last();
        assert(windows == front.push(last));
        assert(rooted(windows, o) == (rooted(front, o) || last.root_view == o)) by {
            if rooted(front, o) {
                let i = choose|i: int| 0 <= i < front.len() && (#[trigger] front[i]).root_view == o;
                assert(windows[i].root_view == o);
            }
            if last.root_view == o {
                assert(windows[windows.len() - 1].root_view == o);
            }
            if rooted(windows, o) && last.root_view != o {
                let i = choose|i: int|
                    0 <= i < windows.len() && (#[trigger] windows[i]).root_view == o;
                assert(front[i].root_view == o);
            }
        }
        assert(rooted(kept.push(last), o) == (rooted(kept, o) || last.root_view == o)) by {
            let all = kept.push(last);
            if rooted(kept, o) {
                let i = choose|i: int| 0 <= i < kept.len() && (#[trigger] kept[i]).root_view == o;
                assert(all[i].root_view == o);
            }
            if last.root_view == o {
                assert(all[all.len() - 1].root_view == o);
            }
            if rooted(all, o) && last.root_view != o {
                let i = choose|i: int| 0 <= i < all.len() && (#[trigger] all[i]).root_view == o;
                assert(kept[i].root_view == o);
            }
        }
    }
}

/// What a backend emulates, what it leaves out, and that several windows are the device's to give; all
/// else is native.
pub proof fn law_capabilities_are_met_as_told(u: &Uikit, cap: Cap, scenes: bool, r: Support)
    requires
        call_ensures(Uikit::capability, (u, cap, scenes), r),
    ensures
        r == Support::Emulated <==> cap == Cap::Cursor || cap == Cap::BaselineAlignment || cap
            == Cap::NavRepresent || cap == Cap::NavContentList,
        r == Support::Unsupported <==> cap == Cap::Other || (cap == Cap::MultiWindow && !scenes),
{
}

proof fn lemma_registered(renderers: Seq<Renderer>, i: int)
    requires
        0 <= i < renderers.len(),
        forall|k: int| i < k < renderers.len() ==> (#[trigger] renderers[k]).kind != renderers[i].kind,
    ensures
        registered(renderers).dom().contains(renderers[i].kind),
        registered(renderers)[renderers[i].kind] == renderers[i],
    decreases renderers.len(),
{
    if i < renderers.len() - 1 {
        assert(renderers[renderers.len() - 1].kind != renderers[i].kind);
        lemma_registered(renderers.drop_last(), i);
    }
}

proof fn lemma_not_registered(renderers: Seq<Renderer>, kind: u64)
    requires
        forall|k: int| 0 <= k < renderers.len() ==> (#[trigger] renderers[k]).kind != kind,
    ensures
        !registered(renderers).dom().contains(kind),
    decreases renderers.len(),
{
    if renderers.len() > 0 {
        lemma_not_registered(renderers.drop_last(), kind);
    }
}

/// A kind is rendered by the last renderer registered for it, and torn down by that one's hook; a kind
/// nobody registered for by none.
pub proof fn law_kind_has_its_last_renderer(
    renderers: &Vec<Renderer>,
    u: Uikit,
    i: int,
    kind: u64,
    r: Option<Renderer>,
    hook: Option<u64>,
)
    requires
        call_ensures(Uikit::new, (renderers,), u),
        call_ensures(Uikit::renderer, (&u, kind), r),
        call_ensures(Uikit::release_piece, (&u, kind), hook),
    ensures
        0 <= i < renderers@.len() && renderers@[i].kind == kind && (forall|k: int|
            i < k < renderers@.len() ==> (#[trigger] renderers@[k]).kind != kind) ==> r == Some(
            renderers@[i],
        ) && hook == renderers@[i].release,
        (forall|k: int| 0 <= k < renderers@.len() ==> (#[trigger] renderers@[k]).kind != kind) ==> r
            is None && hook is None,
{
    assert(u@.registry == registered(renderers@));
    if 0 <= i < renderers@.len() && renderers@[i].kind == kind && (forall|k: int|
        i < k < renderers@.len() ==> (#[trigger] renderers@[k]).kind != kind) {
        lemma_registered(renderers@, i);
    }
    if forall|k: int| 0 <= k < renderers@.len() ==> (#[trigger] renderers@[k]).kind != kind {
        lemma_not_registered(renderers@, kind);
    }
}

/// A backend starts with no window, in the background, with nothing to edit or undo.
pub proof fn law_backend_starts_empty(renderers: &Vec<Renderer>, u: Uikit)
    requires
        call_ensures(Uikit::new, (renderers,), u),
    ensures
        u.scenes.entries@.len() == 0 && u.scenes.pending@.len() == 0,
        !u.scenes.foreground && !u.scenes.active && !u.scenes.launching,
        !u.edit.can_cut && !u.edit.can_copy && !u.edit.can_paste && !u.edit.can_select_all,
        !u.undo.can_undo && !u.undo.can_redo,
        u.pointers@.len() == 0,
{
    assert(u@.windows.len() == 0);
    assert(u@.pending@.len() == 0);
    assert(!u@.foreground && !u@.active && !u@.launching);
    assert(u@.pointers == Map::<usize, Cursor>::empty());
}

/// A wired control reports to the node it was realized for, a canvas its keys and a linked text its links;
/// a list reports its rows as it was made.
pub proof fn law_entered_controls_report_to_their_node(
    u: &mut Uikit,
    sink: &Sink,
    h: usize,
    node: NodeId,
    widget: Widget,
    native: Native,
    r: Entered,
)
    requires
        call_ensures(Uikit::enter, (u, sink, h, node, widget, native), r),
    ensures
        widget is Button || widget is Toggle || widget is Slider || widget is TextField ==> r is Done
            && final(u).targets@ == old(u).targets@.insert(h, node),
        widget is Canvas ==> r is Done && final(u).key_nodes@ == old(u).key_nodes@.insert(h, node),
        widget is LinkLabel ==> r is Done && final(u).text_links@ == old(u).text_links@.insert(h, node),
        widget matches Widget::List { row_height, selectable, .. } ==> r is Done && final(u).lists@
            == old(u).lists@.insert(h, ListData { node, row_height, selectable }),
        !(widget is Button || widget is Toggle || widget is Slider || widget is TextField)
            ==> final(u).targets@ == old(u).targets@,
        !(widget is Canvas) ==> final(u).key_nodes@ == old(u).key_nodes@,
        !(widget is LinkLabel) ==> final(u).text_links@ == old(u).text_links@,
        !(widget is List) ==> final(u).lists@ == old(u).lists@,
{
    let (before, after) = (old(u)@, final(u)@);
    assert(entered(before, after, *sink, h, node, widget, native, r));
    assert(after.targets == final(u).targets@ && before.targets == old(u).targets@);
    assert(after.key_nodes == final(u).key_nodes@ && before.key_nodes == old(u).key_nodes@);
    assert(after.text_links == final(u).text_links@ && before.text_links == old(u).text_links@);
    assert(after.lists == final(u).lists@ && before.lists == old(u).lists@);
}

/// A host, a page or a cover is found by its view, with the controller made for it and the node it
/// reports to. A split has three columns where it was made so, and shows its list as asked.
pub proof fn law_entered_controllers_are_found_by_their_view(
    u: &mut Uikit,
    sink: &Sink,
    h: usize,
    node: NodeId,
    widget: Widget,
    native: Native,
    r: Entered,
)
    requires
        call_ensures(Uikit::enter, (u, sink, h, node, widget, native), r),
    ensures
        widget is Cover ==> final(u).navs.covers@ == old(u).navs.covers@.insert(
            h,
            Cover { vc: native.vc, node },
        ),
        !(widget is Cover) ==> final(u).navs.covers@ == old(u).navs.covers@,
        widget matches Widget::NavPage { pane, .. } ==> final(u).navs.page(h) == Some(
            PageVc { handle: h, vc: native.vc, pane },
        ),
        widget matches Widget::StackHost { search } ==> final(u).navs.hosts@.dom().contains(h) && {
            let host = final(u).navs.hosts@[h];
            &&& host.nav == native.vc && host.host_node == node && host.split is None
            &&& !host.collapsed && !host.day_pop && host.search == search is Some
        },
        widget matches Widget::SplitHost { config, list_visible, search } ==> {
            &&& final(u).navs.hosts@.dom().contains(h)
            &&& final(u).navs.hosts@[h].nav == native.fresh.secondary_nav
            &&& final(u).navs.hosts@[h].host_node == node
            &&& final(u).navs.hosts@[h].collapsed == native.collapsed
            &&& !final(u).navs.hosts@[h].day_pop
            &&& final(u).navs.hosts@[h].search == search is Some
            &&& final(u).navs.hosts@[h].split matches Some(parts)
            &&& parts.split_vc == native.fresh.split_vc
            &&& parts.primary_nav == native.fresh.primary_nav
            &&& parts.list_width == config.list_width
            &&& parts.list_shown == list_visible
            &&& parts.container == h
            &&& parts.list_vc is None
            &&& config.triple ==> parts.supplementary_nav == Some(native.fresh.supplementary_nav)
                && parts.secondary_placeholder == Some(native.fresh.placeholder)
            &&& !config.triple ==> parts.supplementary_nav is None && parts.secondary_placeholder is None
        },
        !(widget is StackHost || widget is SplitHost) ==> final(u).navs.hosts@ == old(u).navs.hosts@,
{
    let (before, after) = (old(u)@, final(u)@);
    assert(entered(before, after, *sink, h, node, widget, native, r));
    assert(after.covers == final(u).navs.covers@ && before.covers == old(u).navs.covers@);
    assert(after.hosts == final(u).navs.hosts@ && before.hosts == old(u).navs.hosts@);
    if widget is NavPage {
        assert(after.pages.dom().contains(h));
        assert(after.pages[h] == final(u).navs.page(h)->0);
    }
}

/// A tabs host is entered with its tab bar and no page, and reports itself as tabs; a tree is entered with
/// nothing open; a menu with all it shows, its rows waiting for a tabs host, and its selection marked
/// where that stands in the list.
pub proof fn law_entered_collections_hold_what_they_show(
    u: &mut Uikit,
    sink: &Sink,
    h: usize,
    node: NodeId,
    widget: Widget,
    native: Native,
    r: Entered,
    heard: Option<Call>,
    row: usize,
    path: Option<(usize, usize)>,
)
    requires
        call_ensures(Uikit::enter, (u, sink, h, node, widget, native), r),
        call_ensures(
            emit,
            (sink, Target::Node(node), Event::NavPresentationChanged(Presentation::Tabs)),
            heard,
        ),
        widget is NavMenu ==> call_ensures(
            NavMenu::path_of,
            (&final(u).nav_menus@[h], row),
            path,
        ),
    ensures
        widget is TabsHost ==> r == Entered::Report(heard) && final(u).navs.tabs.hosts@.dom().contains(h)
            && final(u).navs.tabs.hosts@[h].tabbar == native.vc && final(u).navs.tabs.hosts@[h].pages@.len() == 0,
        widget matches Widget::Tree { row_height, selectable, .. } ==> final(u).trees@.dom().contains(h)
            && final(u).trees@[h].node == node && final(u).trees@[h].row_height == row_height && final(u).trees@[h].selectable == selectable && final(u).trees@[h].expanded@.len() == 0,
        widget matches Widget::NavMenu(p) ==> {
            &&& final(u).nav_menus@.dom().contains(h)
            &&& final(u).nav_menus@[h].node == node
            &&& final(u).nav_menus@[h].items == p.content.items
            &&& final(u).nav_menus@[h].icons == p.content.icons
            &&& final(u).nav_menus@[h].tints == p.content.tints
            &&& final(u).nav_menus@[h].menus == p.content.menus
            &&& final(u).nav_menus@[h].badge_icons == p.content.badge_icons
            &&& final(u).nav_menus@[h].badge_tints == p.content.badge_tints
            &&& final(u).nav_menus@[h].sections == p.content.sections
            &&& final(u).navs.menu_rows@.dom().contains(h)
            &&& final(u).navs.menu_rows@[h].node == node.0
            &&& final(u).navs.menu_rows@[h].titles@ == p.content.items@
            &&& final(u).navs.menu_rows@[h].icons@ == p.content.icons@
            &&& p.selected is None ==> r == Entered::Load(None)
            &&& p.selected == Some(row) ==> r == Entered::Load(path)
        },
{
    let (before, after) = (old(u)@, final(u)@);
    assert(entered(before, after, *sink, h, node, widget, native, r));
    assert(after.tabs_hosts == final(u).navs.tabs.hosts@);
    assert(after.trees == final(u).trees@);
    assert(after.nav_menus == final(u).nav_menus@);
    assert(after.menu_rows == final(u).navs.menu_rows@);
}

/// A released view reports nothing and is found by nothing; every other view stands where it did. A page
/// takes its own bar with it, and a summoned menu is detached where there was one.
pub proof fn law_release_takes_out_one_view(u: &mut Uikit, h: usize, o: usize, detach: bool)
    requires
        call_ensures(Uikit::release, (u, h), detach),
        o != h,
    ensures
        detach <==> old(u).menu_fns@.dom().contains(h),
        final(u).targets@ == old(u).targets@.remove(h),
        final(u).lists@ == old(u).lists@.remove(h),
        final(u).trees@ == old(u).trees@.remove(h),
        final(u).menu_fns@ == old(u).menu_fns@.remove(h),
        final(u).context_menus@ == old(u).context_menus@.remove(h),
        final(u).navs.hosts@ == old(u).navs.hosts@.remove(h),
        final(u).navs.covers@ == old(u).navs.covers@.remove(h),
        final(u).navs.page(h) is None,
        final(u).navs.page(o) == old(u).navs.page(o),
        final(u).nav_menus@ == old(u).nav_menus@.remove(h),
        final(u).gestures.on(h).len() == 0,
        final(u).gestures.on(o) == old(u).gestures.on(o),
        final(u).ops@ == old(u).ops@.remove(h),
        final(u).key_nodes@ == old(u).key_nodes@.remove(h),
        final(u).text_links@ == old(u).text_links@.remove(h),
        final(u).registry@ == old(u).registry@,
        final(u).pointers@ == old(u).pointers@,
        old(u).navs.page(h) is None ==> final(u).page_bars@ == old(u).page_bars@,
        old(u).navs.page(h) matches Some(page) ==> final(u).page_bars@ == old(u).page_bars@.remove(
            page.vc,
        ),
{
    let (before, after) = (old(u)@, final(u)@);
    assert(after == before.released(h));
    assert(after.targets == final(u).targets@ && before.targets == old(u).targets@);
    assert(after.lists == final(u).lists@ && before.lists == old(u).lists@);
    assert(after.trees == final(u).trees@ && before.trees == old(u).trees@);
    assert(after.menu_fns == final(u).menu_fns@ && before.menu_fns == old(u).menu_fns@);
    assert(after.context_menus == final(u).context_menus@ && before.context_menus == old(
        u,
    ).context_menus@);
    assert(after.hosts == final(u).navs.hosts@ && before.hosts == old(u).navs.hosts@);
    assert(after.covers == final(u).navs.covers@ && before.covers == old(u).navs.covers@);
    assert(after.nav_menus == final(u).nav_menus@ && before.nav_menus == old(u).nav_menus@);
    assert(after.ops == final(u).ops@ && before.ops == old(u).ops@);
    assert(after.key_nodes == final(u).key_nodes@ && before.key_nodes == old(u).key_nodes@);
    assert(after.text_links == final(u).text_links@ && before.text_links == old(u).text_links@);
    assert(after.page_bars == final(u).page_bars@ && before.page_bars == old(u).page_bars@);
    assert(after.registry == final(u).registry@ && after.pointers == final(u).pointers@);
    assert(!after.pages.dom().contains(h));
    assert(after.pages.dom().contains(o) <==> before.pages.dom().contains(o));
    assert(!after.gestures.dom().contains(h));
    assert(after.gestures.dom().contains(o) <==> before.gestures.dom().contains(o));
    if before.gestures.dom().contains(o) {
        assert(after.gestures[o] == before.gestures[o]);
    } else {
        assert(final(u).gestures.on(o) =~= old(u).gestures.on(o));
    }
    if before.pages.dom().contains(o) {
        assert(after.pages[o] == before.pages[o]);
    }
    if old(u).navs.page(h) is Some {
        assert(before.pages.dom().contains(h));
    } else {
        assert(!before.pages.dom().contains(h));
    }
}

/// A view's context menu is the one it was given last, made of its entries; one without entries takes it
/// away. What was there is detached, and no other view's menu changes.
pub proof fn law_context_menu_is_the_one_given_last(
    u: &mut Uikit,
    h: usize,
    o: usize,
    items: &Vec<MenuItem>,
    built: Vec<MenuEl>,
    r: (bool, bool),
)
    requires
        o != h,
        call_ensures(Uikit::set_context_menu, (u, h, items), r),
        call_ensures(build_ui_menu, (items,), built),
    ensures
        r.0 <==> old(u).context_menus@.dom().contains(h),
        r.1 <==> items@.len() > 0,
        final(u).context_menus@.dom().contains(h) <==> items@.len() > 0,
        items@.len() > 0 ==> crate::menu::shown(final(u).context_menus@[h]@) == crate::menu::shown(
            built@,
        ),
        final(u).context_menus@.dom().contains(o) <==> old(u).context_menus@.dom().contains(o),
        old(u).context_menus@.dom().contains(o) ==> final(u).context_menus@[o] == old(
            u,
        ).context_menus@[o],
        final(u).menu_fns@ == old(u).menu_fns@,
{
    let (before, after) = (old(u)@, final(u)@);
    assert(after.context_menus == final(u).context_menus@ && before.context_menus == old(
        u,
    ).context_menus@);
    assert(after.menu_fns == final(u).menu_fns@);
    assert(after.context_menus.remove(h).dom().contains(o) <==> before.context_menus.remove(
        h,
    ).dom().contains(o));
    if before.context_menus.dom().contains(o) {
        assert(after.context_menus.remove(h)[o] == before.context_menus.remove(h)[o]);
    }
    crate::menu::law_menu_keeps_every_entry_in_order(items@, built@);
    if items@.len() > 0 {
        crate::menu::law_menu_keeps_every_entry_in_order(items@, after.context_menus[h]@);
    }
}

/// A view is summoned the menu it was given last, and the one before is detached.
pub proof fn law_summoned_menu_is_the_one_given_last(u: &mut Uikit, h: usize, f: u64, detach: bool)
    requires
        call_ensures(Uikit::set_context_menu_fn, (u, h, f), detach),
    ensures
        detach <==> old(u).menu_fns@.dom().contains(h),
        final(u).menu_fns@ == old(u).menu_fns@.insert(h, f),
        final(u).context_menus@ == old(u).context_menus@,
{
    let (before, after) = (old(u)@, final(u)@);
    assert(after.menu_fns == final(u).menu_fns@ && before.menu_fns == old(u).menu_fns@);
    assert(after.context_menus == final(u).context_menus@);
}

/// A view has the cursor set on it last, the default as none; a canvas is drawn from the display list it
/// was given last; and a page's bar fires what it was given last. Nothing else is touched by any of
/// them.
pub proof fn law_last_given_is_in_force(
    pointed: &mut Uikit,
    drawn: &mut Uikit,
    barred: &mut Uikit,
    h: usize,
    cursor: Cursor,
    change: PointerChange,
    ops: Vec<DrawOp>,
    vc: usize,
    fires: Vec<Fire>,
)
    requires
        call_ensures(Uikit::set_cursor, (pointed, h, cursor), change),
        call_ensures(Uikit::replay, (drawn, h, ops), ()),
        call_ensures(Uikit::set_page_bar, (barred, vc, fires), ()),
    ensures
        cursor == Cursor::Default ==> final(pointed).pointers@ == old(pointed).pointers@.remove(h),
        cursor != Cursor::Default ==> final(pointed).pointers@ == old(pointed).pointers@.insert(h, cursor),
        ({
            let had = old(pointed).pointers@.dom().contains(h);
            &&& change == PointerChange::Nothing <==> cursor == Cursor::Default && !had
            &&& change == PointerChange::Detach <==> cursor == Cursor::Default && had
            &&& change == PointerChange::Attach <==> cursor != Cursor::Default && !had
            &&& change == PointerChange::Invalidate <==> cursor != Cursor::Default && had
        }),
        final(drawn).ops@ == old(drawn).ops@.insert(h, ops),
        final(barred).page_bars@ == old(barred).page_bars@.insert(vc, fires),
        final(pointed).targets@ == old(pointed).targets@ && final(pointed).ops@ == old(pointed).ops@,
        final(drawn).pointers@ == old(drawn).pointers@ && final(drawn).page_bars@ == old(drawn).page_bars@,
        final(barred).ops@ == old(barred).ops@ && final(barred).pointers@ == old(barred).pointers@,
{
    let (p, q) = (old(pointed)@, final(pointed)@);
    assert(q.pointers == final(pointed).pointers@ && p.pointers == old(pointed).pointers@);
    assert(q.targets == final(pointed).targets@ && q.ops == final(pointed).ops@);
    let (d, e) = (old(drawn)@, final(drawn)@);
    assert(e.ops == final(drawn).ops@ && d.ops == old(drawn).ops@);
    assert(e.pointers == final(drawn).pointers@ && e.page_bars == final(drawn).page_bars@);
    let (b, c) = (old(barred)@, final(barred)@);
    assert(c.page_bars == final(barred).page_bars@ && b.page_bars == old(barred).page_bars@);
    assert(c.ops == final(barred).ops@ && c.pointers == final(barred).pointers@);
}

/// A frame is never set on the content of a page or a cover, and on every other view it is.
pub proof fn law_controllers_own_their_contents_frame(u: &Uikit, h: usize, r: bool)
    requires
        call_ensures(Uikit::owns_frame, (u, h), r),
    ensures
        r <==> u.navs.page(h) is Some || u.navs.covers@.dom().contains(h),
{
    assert(u@.pages.dom().contains(h) <==> u.navs.page(h) is Some);
    assert(u@.covers == u.navs.covers@);
}

/// A menu given new rows shows them, and marks its selection where that stands now; no other menu
/// changes, and a view that is no menu is not loaded.
pub proof fn law_menu_given_new_rows_shows_them(
    u: &mut Uikit,
    h: usize,
    content: MenuContent,
    row: usize,
    chain: &Vec<usize>,
    r: MenuUpdate,
    path: Option<(usize, usize)>,
)
    requires
        call_ensures(Uikit::set_menu_items, (u, h, content, Some(row), chain), r),
        call_ensures(NavMenu::path_of, (&final(u).nav_menus@[h], row), path),
    ensures
        r.reload is Some <==> old(u).nav_menus@.dom().contains(h),
        final(u).nav_menus@.remove(h) == old(u).nav_menus@.remove(h),
        r.reload matches Some(reload) ==> {
            let (before, after) = (old(u).nav_menus@[h], final(u).nav_menus@[h]);
            &&& after.node == before.node
            &&& after.items == content.items && after.icons == content.icons && after.tints
                == content.tints && after.menus == content.menus && after.badge_icons
                == content.badge_icons && after.badge_tints == content.badge_tints && after.sections
                == content.sections
            &&& reload.path == path
            &&& reload.relayout <==> after.headers != before.headers
        },
{
    let (before, after) = (old(u)@, final(u)@);
    assert(after.nav_menus == final(u).nav_menus@ && before.nav_menus == old(u).nav_menus@);
}

/// A tree's patch reaches the tree: its disclosure opens or closes that row, and it does what a tree does
/// with that patch. A view that is no tree does nothing.
pub proof fn law_tree_patch_reaches_its_tree(
    u: &mut Uikit,
    t: &mut TreeData,
    h: usize,
    patch: TreePatch,
    r: Option<TreeAct>,
    act: TreeAct,
)
    requires
        old(u).trees@.dom().contains(h) ==> *old(t) == old(u).trees@[h],
        call_ensures(Uikit::patch_tree, (u, h, patch), r),
        call_ensures(TreeData::patch, (t, patch), act),
    ensures
        !old(u).trees@.dom().contains(h) ==> r is None,
        old(u).trees@.dom().contains(h) ==> r == Some(act) && final(u).trees@.dom().contains(h) && final(u).trees@[h].expanded@ == final(t).expanded@ && final(u).trees@[h].node == final(t).node,
        final(u).trees@.remove(h) == old(u).trees@.remove(h),
{
    let (before, after) = (old(u)@, final(u)@);
    assert(after.trees == final(u).trees@ && before.trees == old(u).trees@);
}

/// What a widget is entered as follows from the widget: one with an entry of its own is entered as
/// nothing else, a control is wired, and everything only drawn is plain.
pub proof fn law_widget_is_entered_as_what_it_is(widget: &Widget, h: usize, native: Native, r: Option<Made>)
    requires
        call_ensures(made, (widget, h, native), r),
    ensures
        r is None <==> widget is TabsHost || widget is NavMenu || widget is Tree,
        r == Some(Made::Wired) <==> widget is Button || widget is Toggle || widget is Slider || widget
            is TextField,
        r == Some(Made::Canvas) <==> widget is Canvas,
        r == Some(Made::Links) <==> widget is LinkLabel,
        widget matches Widget::List { row_height, selectable, .. } ==> r == Some(
            Made::List { selectable: *selectable, row_height: *row_height },
        ),
        widget matches Widget::NavPage { pane, .. } ==> r == Some(
            Made::Page { vc: native.vc, pane: *pane },
        ),
        widget is Cover ==> r == Some(Made::Cover { vc: native.vc }),
        widget is Label || widget is Divider || widget is Image || widget is Scroll || widget is Container
            || widget is Spinner || widget is ProgressBar || widget is Placeholder || widget is Missing
            || widget is Extension || widget is Delegated ==> r == Some(Made::Plain),
{
}

/// A view mounted is in the table of what it is, under its node, and every other table stays.
pub proof fn law_mounted_view_is_in_one_table(u: &mut Uikit, h: usize, node: NodeId, made: Made)
    requires
        call_ensures(Uikit::mount, (u, h, node, made), ()),
    ensures
        final(u).targets@ == (if made is Wired {
            old(u).targets@.insert(h, node)
        } else {
            old(u).targets@
        }),
        final(u).key_nodes@ == (if made is Canvas {
            old(u).key_nodes@.insert(h, node)
        } else {
            old(u).key_nodes@
        }),
        final(u).text_links@ == (if made is Links {
            old(u).text_links@.insert(h, node)
        } else {
            old(u).text_links@
        }),
        made matches Made::List { selectable, row_height } ==> final(u).lists@ == old(u).lists@.insert(
            h,
            ListData { node, row_height, selectable },
        ),
        made matches Made::Page { vc, pane } ==> final(u).navs.page(h) == Some(
            PageVc { handle: h, vc, pane },
        ),
        made matches Made::Cover { vc } ==> final(u).navs.covers@ == old(u).navs.covers@.insert(
            h,
            Cover { vc, node },
        ),
        made matches Made::Host { nav, split, collapsed, search } ==> final(u).navs.hosts@
            == old(u).navs.hosts@.insert(
            h,
            NavHost { nav, host_node: node, split, collapsed, day_pop: false, search },
        ),
        !(made is List) ==> final(u).lists@ == old(u).lists@,
        !(made is Cover) ==> final(u).navs.covers@ == old(u).navs.covers@,
        !(made is Host) ==> final(u).navs.hosts@ == old(u).navs.hosts@,
{
    let (before, after) = (old(u)@, final(u)@);
    assert(after == before.mounted(h, node, made));
    assert(after.targets == final(u).targets@ && before.targets == old(u).targets@);
    assert(after.key_nodes == final(u).key_nodes@ && before.key_nodes == old(u).key_nodes@);
    assert(after.text_links == final(u).text_links@ && before.text_links == old(u).text_links@);
    assert(after.lists == final(u).lists@ && before.lists == old(u).lists@);
    assert(after.covers == final(u).navs.covers@ && before.covers == old(u).navs.covers@);
    assert(after.hosts == final(u).navs.hosts@ && before.hosts == old(u).navs.hosts@);
    if made is Page {
        assert(after.pages.dom().contains(h));
        assert(after.pages[h] == final(u).navs.page(h)->0);
    }
}

/// A menu's new rows retitle the nearest tabs host around it, whose pages and tabs stay, and no other
/// host; that one is synced.
pub proof fn law_new_rows_retitle_the_nearest_tabs(
    u: &mut Uikit,
    h: usize,
    content: MenuContent,
    selected: Option<usize>,
    chain: &Vec<usize>,
    r: MenuUpdate,
    host: Option<usize>,
    o: usize,
)
    requires
        call_ensures(Uikit::set_menu_items, (u, h, content, selected, chain), r),
        call_ensures(crate::tabs::TabsTable::enclosing_tabs_host, (&old(u).navs.tabs, chain), host),
    ensures
        r.sync == host,
        final(u).navs.tabs.hosts@.dom() == old(u).navs.tabs.hosts@.dom(),
        old(u).navs.tabs.hosts@.dom().contains(o) && host != Some(o) ==> final(u).navs.tabs.hosts@[o]
            == old(u).navs.tabs.hosts@[o],
        old(u).navs.tabs.hosts@.dom().contains(o) && host == Some(o) ==> {
            let (before, after) = (old(u).navs.tabs.hosts@[o], final(u).navs.tabs.hosts@[o]);
            &&& after.titles@ == content.items@ && after.icons@ == content.icons@
            &&& after.pages@ == before.pages@ && after.tabs@ == before.tabs@
            &&& after.menu_node == before.menu_node && after.tabbar == before.tabbar
        },
        final(u).navs.menu_rows@ == old(u).navs.menu_rows@,
{
    let (before, after) = (old(u)@, final(u)@);
    assert(before.other_tabs_stay(after, r.sync));
    assert(after.tabs_hosts == final(u).navs.tabs.hosts@ && before.tabs_hosts
        == old(u).navs.tabs.hosts@);
    assert(after.menu_rows == final(u).navs.menu_rows@);
}

} // verus!
