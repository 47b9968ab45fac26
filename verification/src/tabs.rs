//! Adaptive tabs hosts: one tab per detail page, titled and glyphed by the rows of the host's
//! menu. UIKit draws the tab bar and the sidebar from the same tabs, so the sidebar page stays
//! out of the controller. A tab stands for its page, not for a position: it is made once and kept.

use crate::types::NodeId;
use std::collections::HashMap;
use vstd::prelude::*;

verus! {

broadcast use vstd::std_specs::hash::group_hash_axioms;

/// How often a selection waits for a stack transition on screen.
pub const SELECT_ATTEMPTS: u32 = 120;

/// A page of a tabs host: the controller the tab shows, and the view that identifies it.
#[derive(Clone, Copy, PartialEq, Eq, Structural, Debug)]
pub struct TabPage {
    pub vc: usize,
    pub key: usize,
}

/// The rows of a menu, as they name and decorate tabs.
pub struct MenuRows {
    pub node: u64,
    pub titles: Vec<String>,
    pub icons: Vec<Option<String>>,
}

pub struct NavTabs {
    /// The controller itself.
    pub tabbar: usize,
    /// The pages, in order: position `i` is what a selection of `i` means.
    pub pages: Vec<TabPage>,
    /// The identifier of each tab in the controller.
    pub tabs: Vec<usize>,
    pub titles: Vec<String>,
    pub icons: Vec<Option<String>>,
    /// The menu's node: a tab tap reports against it, as a row click does. Zero before the menu
    /// arrives.
    pub menu_node: u64,
    /// Set while Day drives the controller.
    pub suppress: bool,
}

/// One tab to hand to the controller: a tab that already stands for the page is kept, and only
/// retitled.
pub struct TabPlan {
    pub page: TabPage,
    pub reuse: bool,
    pub title: String,
    pub icon: Option<String>,
}

pub open spec fn title_at(titles: Seq<String>, i: int) -> Seq<char> {
    if i < titles.len() {
        titles[i]@
    } else {
        Seq::empty()
    }
}

pub open spec fn icon_at(icons: Seq<Option<String>>, i: int) -> Option<String> {
    if i < icons.len() {
        icons[i]
    } else {
        None
    }
}

/// The keys of the pages, in order.
pub open spec fn keys(pages: Seq<TabPage>) -> Seq<usize> {
    Seq::new(pages.len(), |i: int| pages[i].key)
}

fn has(v: &Vec<usize>, x: usize) -> (r: bool)
    ensures
        r == v@.contains(x),
{
    let n: usize = v.len();
    for i in 0..n
        invariant
            n == v@.len(),
            forall|j: int| 0 <= j < i ==> v@[j] != x,
    {
        if v[i] == x {
            return true;
        }
    }
    false
}

fn title_of(titles: &Vec<String>, i: usize) -> (r: String)
    ensures
        r@ == title_at(titles@, i as int),
{
    if i < titles.len() {
        titles[i].clone()
    } else {
        proof {
            reveal_strlit("");
        }
        let r = "".to_string();
        proof {
            assert(r@ =~= Seq::<char>::empty());
        }
        r
    }
}

fn icon_of(icons: &Vec<Option<String>>, i: usize) -> (r: Option<String>)
    ensures
        r == icon_at(icons@, i as int),
{
    if i < icons.len() {
        match &icons[i] {
            Some(name) => Some(name.clone()),
            None => None,
        }
    } else {
        None
    }
}

/// The first position of `key` in `tabs`, from `from`.
pub open spec fn tab_from(tabs: Seq<usize>, key: usize, from: int) -> Option<int>
    decreases tabs.len() - from,
{
    if from < 0 || from >= tabs.len() {
        None
    } else if tabs[from] == key {
        Some(from)
    } else {
        tab_from(tabs, key, from + 1)
    }
}

fn position(tabs: &Vec<usize>, key: usize) -> (r: Option<usize>)
    ensures
        match r {
            Some(i) => tab_from(tabs@, key, 0) == Some(i as int),
            None => tab_from(tabs@, key, 0) is None,
        },
{
    let mut i: usize = 0;
    while i < tabs.len()
        invariant
            i <= tabs@.len(),
            tab_from(tabs@, key, 0) == tab_from(tabs@, key, i as int),
        decreases tabs@.len() - i,
    {
        if tabs[i] == key {
            return Some(i);
        }
        i = i + 1;
    }
    None
}

/// How a selection is made.
#[derive(Clone, Copy, PartialEq, Eq, Structural, Debug)]
pub enum Select {
    /// No such page.
    Nothing,
    /// Select the tab of this identifier.
    Tab(usize),
    /// The host runs on plain controllers: select by position.
    Index(usize),
}

/// The title and glyph a page carries on its own tab bar item.
pub struct TabDress {
    pub vc: usize,
    pub title: String,
    pub icon: Option<String>,
}

/// `dress` gives each page the title and the glyph of its row.
pub open spec fn dressed(
    dress: Seq<TabDress>,
    pages: Seq<TabPage>,
    titles: Seq<String>,
    icons: Seq<Option<String>>,
) -> bool {
    &&& dress.len() == pages.len()
    &&& forall|i: int|
        0 <= i < pages.len() ==> {
            &&& (#[trigger] dress[i]).vc == pages[i].vc
            &&& dress[i].title@ == title_at(titles, i)
            &&& dress[i].icon == icon_at(icons, i)
        }
}

/// A sync of a host without tabs: every page is dressed, whether or not the controllers are set.
pub struct ClassicSync {
    pub dress: Vec<TabDress>,
    pub roster: Option<ClassicRoster>,
}

/// What setting the controllers of a host without tabs asks for.
pub struct ClassicRoster {
    pub vcs: Vec<usize>,
    /// Where the page that was showing stands now.
    pub select: Option<usize>,
}

/// Where the showing page is found again among `vcs`: at its new position; a page that is unknown
/// or gone leaves the position itself, as far as there is one.
pub open spec fn restored(current: Option<Seq<usize>>, showing: usize, vcs: Seq<usize>) -> Option<
    int,
> {
    let moved = match current {
        Some(cur) if showing < cur.len() => tab_from(vcs, cur[showing as int], 0),
        _ => None,
    };
    if moved is Some {
        moved
    } else if showing < vcs.len() {
        Some(showing as int)
    } else {
        None
    }
}

impl NavTabs {
    pub fn new(tabbar: usize) -> (t: NavTabs)
        ensures
            t.tabbar == tabbar,
            t.pages@.len() == 0,
            t.tabs@.len() == 0,
            t.titles@.len() == 0,
            t.icons@.len() == 0,
            t.menu_node == 0,
            !t.suppress,
    {
        NavTabs {
            tabbar,
            pages: Vec::new(),
            tabs: Vec::new(),
            titles: Vec::new(),
            icons: Vec::new(),
            menu_node: 0,
            suppress: false,
        }
    }

    /// The menu's rows arrive, or are derived again; the caller syncs.
    pub fn set_rows(&mut self, rows: MenuRows)
        ensures
            final(self).pages@ == old(self).pages@,
            final(self).tabs@ == old(self).tabs@,
            final(self).titles == rows.titles,
            final(self).icons == rows.icons,
            final(self).menu_node == rows.node,
            final(self).suppress == old(self).suppress,
            final(self).tabbar == old(self).tabbar,
    {
        self.menu_node = rows.node;
        self.titles = rows.titles;
        self.icons = rows.icons;
    }

    /// Titles and glyphs change in place: a language change retitles the tabs.
    pub fn retitle(&mut self, titles: Vec<String>, icons: Vec<Option<String>>)
        ensures
            final(self).pages@ == old(self).pages@,
            final(self).tabs@ == old(self).tabs@,
            final(self).titles == titles,
            final(self).icons == icons,
            final(self).menu_node == old(self).menu_node,
            final(self).suppress == old(self).suppress,
            final(self).tabbar == old(self).tabbar,
    {
        self.titles = titles;
        self.icons = icons;
    }

    /// A page joins at `index`, or at the end; the caller syncs.
    pub fn insert_page(&mut self, index: usize, page: TabPage)
        ensures
            final(self).pages@ == old(self).pages@.insert(
                if index < old(self).pages@.len() {
                    index as int
                } else {
                    old(self).pages@.len() as int
                },
                page,
            ),
            final(self).tabs@ == old(self).tabs@,
            final(self).titles == old(self).titles,
            final(self).icons == old(self).icons,
            final(self).menu_node == old(self).menu_node,
            final(self).suppress == old(self).suppress,
            final(self).tabbar == old(self).tabbar,
    {
        let n: usize = self.pages.len();
        let at: usize = if index < n {
            index
        } else {
            n
        };
        self.pages.insert(at, page);
    }

    /// The tabs of the host, one per page, in order. While the controller takes them its echoes
    /// are suppressed, until [`NavTabs::driven`].
    pub fn sync(&mut self) -> (plan: Vec<TabPlan>)
        ensures
            planned(old(self).pages@, old(self).tabs@, plan@),
            titled(plan@, old(self).titles@, old(self).icons@),
            final(self).tabs@ == keys(old(self).pages@),
            final(self).suppress,
            final(self).pages@ == old(self).pages@,
            final(self).titles == old(self).titles,
            final(self).icons == old(self).icons,
            final(self).menu_node == old(self).menu_node,
            final(self).tabbar == old(self).tabbar,
    {
        let mut plan: Vec<TabPlan> = Vec::new();
        let mut tabs: Vec<usize> = Vec::new();
        let n: usize = self.pages.len();
        for i in 0..n
            invariant
                n == self.pages@.len(),
                *self == *old(self),
                plan@.len() == i,
                tabs@ == keys(self.pages@).take(i as int),
                forall|j: int|
                    0 <= j < i ==> {
                        &&& (#[trigger] plan@[j]).page == self.pages@[j]
                        &&& plan@[j].reuse == self.tabs@.contains(self.pages@[j].key)
                        &&& plan@[j].title@ == title_at(self.titles@, j)
                        &&& plan@[j].icon == icon_at(self.icons@, j)
                    },
        {
            let page = self.pages[i];
            plan.push(
                TabPlan {
                    page,
                    reuse: has(&self.tabs, page.key),
                    title: title_of(&self.titles, i),
                    icon: icon_of(&self.icons, i),
                },
            );
            tabs.push(page.key);
            proof {
                assert(keys(self.pages@).take(i as int).push(page.key) == keys(self.pages@).take(
                    i + 1,
                ));
            }
        }
        proof {
            assert(keys(self.pages@).take(n as int) == keys(self.pages@));
        }
        self.tabs = tabs;
        self.suppress = true;
        plan
    }

    /// The controller has taken what Day handed it.
    pub fn driven(&mut self)
        ensures
            !final(self).suppress,
            final(self).pages@ == old(self).pages@,
            final(self).tabs@ == old(self).tabs@,
            final(self).titles == old(self).titles,
            final(self).icons == old(self).icons,
            final(self).menu_node == old(self).menu_node,
            final(self).tabbar == old(self).tabbar,
    {
        self.suppress = false;
    }

    /// The same sync without tabs: every page carries its title and glyph, the controllers are set
    /// only when they really changed, and the showing page is restored. `current` is what the
    /// controller reports, `showing` its selection.
    pub fn sync_classic(&mut self, current: Option<Vec<usize>>, showing: usize) -> (r: ClassicSync)
        ensures
            dressed(r.dress@, old(self).pages@, old(self).titles@, old(self).icons@),
            ({
                let vcs = Seq::new(old(self).pages@.len(), |i: int| old(self).pages@[i].vc);
                if current matches Some(cur) && cur@ == vcs {
                    r.roster is None && final(self).suppress == old(self).suppress
                } else {
                    &&& final(self).suppress
                    &&& r.roster matches Some(plan)
                    &&& plan.vcs@ == vcs
                    &&& match restored(
                        match current {
                            Some(cur) => Some(cur@),
                            None => None,
                        },
                        showing,
                        vcs,
                    ) {
                        Some(at) => plan.select matches Some(i) && i == at,
                        None => plan.select is None,
                    }
                }
            }),
            final(self).pages@ == old(self).pages@,
            final(self).tabs@ == old(self).tabs@,
            final(self).titles == old(self).titles,
            final(self).icons == old(self).icons,
            final(self).menu_node == old(self).menu_node,
            final(self).tabbar == old(self).tabbar,
    {
        let mut vcs: Vec<usize> = Vec::new();
        let mut dress: Vec<TabDress> = Vec::new();
        let n: usize = self.pages.len();
        let ghost all = Seq::new(self.pages@.len(), |i: int| self.pages@[i].vc);
        for i in 0..n
            invariant
                n == self.pages@.len(),
                all == Seq::new(self.pages@.len(), |i: int| self.pages@[i].vc),
                *self == *old(self),
                vcs@ == all.take(i as int),
                dress@.len() == i,
                forall|j: int|
                    0 <= j < i ==> {
                        &&& (#[trigger] dress@[j]).vc == self.pages@[j].vc
                        &&& dress@[j].title@ == title_at(self.titles@, j)
                        &&& dress@[j].icon == icon_at(self.icons@, j)
                    },
        {
            let vc: usize = self.pages[i].vc;
            dress.push(
                TabDress { vc, title: title_of(&self.titles, i), icon: icon_of(&self.icons, i) },
            );
            vcs.push(vc);
            proof {
                assert(all.take(i as int).push(self.pages@[i as int].vc) == all.take(i + 1));
            }
        }
        proof {
            assert(all.take(n as int) == all);
        }
        let unchanged = match &current {
            None => false,
            Some(cur) => same(cur, &vcs),
        };
        if unchanged {
            return ClassicSync { dress, roster: None };
        }
        self.suppress = true;
        let moved = match &current {
            Some(cur) if showing < cur.len() => position(&vcs, cur[showing]),
            _ => None,
        };
        let select = match moved {
            Some(i) => Some(i),
            None => if showing < n {
                Some(showing)
            } else {
                None
            },
        };
        ClassicSync { dress, roster: Some(ClassicRoster { vcs, select }) }
    }

    /// A tab was chosen: the row it means, and the menu it is reported against. Nothing while Day
    /// drives the controller, for a tab of another host, or before the menu arrives.
    pub fn did_select(&self, key: usize) -> (r: Option<(NodeId, usize)>)
        ensures
            match r {
                Some((node, row)) => !self.suppress && self.menu_node != 0 && node == NodeId(
                    self.menu_node,
                ) && tab_from(self.tabs@, key, 0) == Some(row as int),
                None => self.suppress || self.menu_node == 0 || tab_from(self.tabs@, key, 0) is None,
            },
    {
        if self.suppress || self.menu_node == 0 {
            return None;
        }
        match position(&self.tabs, key) {
            Some(row) => Some((NodeId(self.menu_node), row)),
            None => None,
        }
    }

    /// A page was chosen on a host without tabs: its position is the row.
    pub fn did_select_page(&self, key: usize) -> (r: Option<(NodeId, usize)>)
        ensures
            match r {
                Some((node, row)) => !self.suppress && self.menu_node != 0 && node == NodeId(
                    self.menu_node,
                ) && tab_from(keys(self.pages@), key, 0) == Some(row as int),
                None => self.suppress || self.menu_node == 0 || tab_from(
                    keys(self.pages@),
                    key,
                    0,
                ) is None,
            },
    {
        if self.suppress || self.menu_node == 0 {
            return None;
        }
        let mut i: usize = 0;
        while i < self.pages.len()
            invariant
                i <= self.pages@.len(),
                !self.suppress,
                self.menu_node != 0,
                tab_from(keys(self.pages@), key, 0) == tab_from(keys(self.pages@), key, i as int),
            decreases self.pages@.len() - i,
        {
            if self.pages[i].key == key {
                return Some((NodeId(self.menu_node), i));
            }
            i = i + 1;
        }
        None
    }

    /// How row `i` is selected; while the controller follows, its echoes are suppressed, until
    /// [`NavTabs::driven`].
    pub fn select(&mut self, i: usize) -> (r: Select)
        ensures
            r == (if i < old(self).tabs@.len() {
                Select::Tab(old(self).tabs@[i as int])
            } else if i < old(self).pages@.len() {
                Select::Index(i)
            } else {
                Select::Nothing
            }),
            final(self).suppress,
            final(self).pages@ == old(self).pages@,
            final(self).tabs@ == old(self).tabs@,
            final(self).titles == old(self).titles,
            final(self).icons == old(self).icons,
            final(self).menu_node == old(self).menu_node,
            final(self).tabbar == old(self).tabbar,
    {
        self.suppress = true;
        if i < self.tabs.len() {
            Select::Tab(self.tabs[i])
        } else if i < self.pages.len() {
            Select::Index(i)
        } else {
            Select::Nothing
        }
    }
}

fn same(a: &Vec<usize>, b: &Vec<usize>) -> (r: bool)
    ensures
        r == (a@ == b@),
{
    if a.len() != b.len() {
        return false;
    }
    let n: usize = a.len();
    for i in 0..n
        invariant
            n == a@.len(),
            n == b@.len(),
            forall|j: int| 0 <= j < i ==> a@[j] == b@[j],
    {
        if a[i] != b[i] {
            return false;
        }
    }
    proof {
        assert(a@ =~= b@);
    }
    true
}

/// Whether a selection waits another turn: a stack on screen has a transition in flight, and the
/// wait has not run out.
pub fn select_waits(in_flight: bool, attempt: u32) -> (r: bool)
    ensures
        r == (in_flight && attempt < SELECT_ATTEMPTS),
{
    in_flight && attempt < SELECT_ATTEMPTS
}

/// Every tabs host by its view, and the pages known to belong to one.
pub struct TabsTable {
    pub hosts: HashMap<usize, NavTabs>,
    pub page_host: HashMap<usize, usize>,
}

impl TabsTable {
    pub fn new() -> (t: TabsTable)
        ensures
            t.hosts@ == Map::<usize, NavTabs>::empty(),
            t.page_host@ == Map::<usize, usize>::empty(),
    {
        TabsTable { hosts: HashMap::new(), page_host: HashMap::new() }
    }

    /// The host a view is, or belongs to as a page.
    pub open spec fn host_at(self, view: usize) -> Option<usize> {
        if self.hosts@.dom().contains(view) {
            Some(view)
        } else if self.page_host@.dom().contains(view) {
            Some(self.page_host@[view])
        } else {
            None
        }
    }

    /// The first host, from `from`, on a chain of views.
    pub open spec fn enclosing_from(self, chain: Seq<usize>, from: int) -> Option<usize>
        decreases chain.len() - from,
    {
        if from < 0 || from >= chain.len() {
            None
        } else if self.host_at(chain[from]) is Some {
            self.host_at(chain[from])
        } else {
            self.enclosing_from(chain, from + 1)
        }
    }

    /// The tabs host enclosing a view: `chain` is the view and everything above it.
    pub fn enclosing_tabs_host(&self, chain: &Vec<usize>) -> (r: Option<usize>)
        ensures
            r == self.enclosing_from(chain@, 0),
    {
        let mut i: usize = 0;
        while i < chain.len()
            invariant
                i <= chain@.len(),
                self.enclosing_from(chain@, 0) == self.enclosing_from(chain@, i as int),
            decreases chain@.len() - i,
        {
            let v = chain[i];
            if self.hosts.contains_key(&v) {
                return Some(v);
            }
            match self.page_host.get(&v) {
                Some(host) => {
                    return Some(*host);
                },
                None => {},
            }
            i = i + 1;
        }
        None
    }
}

/// A tap on the tab at position `i` reports row `i`, once the tabs are in step with the pages and
/// no page stands twice.
pub proof fn law_tab_means_its_row(pages: Seq<TabPage>, i: int)
    requires
        keys(pages).no_duplicates(),
        0 <= i < pages.len(),
    ensures
        tab_from(keys(pages), pages[i].key, 0) == Some(i),
{
    lemma_tab_from(keys(pages), i, 0);
}

proof fn lemma_tab_from(tabs: Seq<usize>, i: int, from: int)
    requires
        tabs.no_duplicates(),
        0 <= from <= i < tabs.len(),
    ensures
        tab_from(tabs, tabs[i], from) == Some(i),
    decreases i - from,
{
    if from < i {
        assert(tabs[from] != tabs[i]);
        lemma_tab_from(tabs, i, from + 1);
    }
}

/// `plan` is what [`NavTabs::sync`] answers for `pages` while the controller has `tabs`.
pub open spec fn planned(pages: Seq<TabPage>, tabs: Seq<usize>, plan: Seq<TabPlan>) -> bool {
    plan.len() == pages.len() && forall|i: int|
        0 <= i < plan.len() ==> (#[trigger] plan[i]).page == pages[i] && plan[i].reuse
            == tabs.contains(pages[i].key)
}

/// Each tab of `plan` has the title and the glyph of its row.
pub open spec fn titled(plan: Seq<TabPlan>, titles: Seq<String>, icons: Seq<Option<String>>) -> bool {
    forall|i: int|
        0 <= i < plan.len() ==> {
            &&& (#[trigger] plan[i]).title@ == title_at(titles, i)
            &&& plan[i].icon == icon_at(icons, i)
        }
}

/// The tab object at position `i` of a plan carried out: the one that stood for the page, or the one
/// made for it.
pub open spec fn tab_at(plan: Seq<TabPlan>, objects: Map<usize, int>, made: Seq<int>, i: int) -> int {
    if plan[i].reuse {
        objects[plan[i].page.key]
    } else {
        made[i]
    }
}

/// A page keeps its tab: one that is there at two syncs in a row, wherever other pages joined in
/// between, has the same tab object after both, and no second one is made for it.
pub proof fn law_page_keeps_its_tab(
    tabs: Seq<usize>,
    objects: Map<usize, int>,
    before: Seq<TabPage>,
    first: Seq<TabPlan>,
    made: Seq<int>,
    after: Seq<TabPage>,
    second: Seq<TabPlan>,
    stood: Map<usize, int>,
    later: Seq<int>,
    i: int,
    j: int,
)
    requires
        planned(before, tabs, first),
        planned(after, keys(before), second),
        forall|k: int|
            0 <= k < before.len() ==> stood[(#[trigger] before[k]).key] == tab_at(
                first,
                objects,
                made,
                k,
            ),
        0 <= i < before.len(),
        0 <= j < after.len(),
        before[i].key == after[j].key,
    ensures
        second[j].reuse,
        tab_at(second, stood, later, j) == tab_at(first, objects, made, i),
{
    assert(keys(before)[i] == before[i].key);
    assert(second[j].page == after[j]);
    assert(stood[before[i].key] == tab_at(first, objects, made, i));
}

/// A sync hands the controller one tab per page, in order, each with its row's title and glyph, kept
/// exactly where a tab stood for the page already. Its tabs stand for its pages afterwards, and its
/// echoes are held back.
pub proof fn law_sync_makes_one_tab_per_page(t: &mut NavTabs, plan: Vec<TabPlan>, i: int)
    requires
        call_ensures(NavTabs::sync, (t,), plan),
    ensures
        plan@.len() == old(t).pages@.len(),
        final(t).tabs@.len() == old(t).pages@.len(),
        final(t).suppress,
        final(t).pages@ == old(t).pages@,
        final(t).menu_node == old(t).menu_node,
        0 <= i < old(t).pages@.len() ==> {
            &&& plan@[i].page == old(t).pages@[i]
            &&& plan@[i].reuse <==> old(t).tabs@.contains(old(t).pages@[i].key)
            &&& i < old(t).titles@.len() ==> plan@[i].title@ == old(t).titles@[i]@
            &&& i >= old(t).titles@.len() ==> plan@[i].title@.len() == 0
            &&& i < old(t).icons@.len() ==> plan@[i].icon == old(t).icons@[i]
            &&& i >= old(t).icons@.len() ==> plan@[i].icon is None
            &&& final(t).tabs@[i] == old(t).pages@[i].key
        },
{
    assert(titled(plan@, old(t).titles@, old(t).icons@));
    assert(planned(old(t).pages@, old(t).tabs@, plan@));
}

/// A host without tabs gives every page its row's title and glyph on every sync, and sets its pages
/// only where they differ from what the controller has. The page that shows stays the one shown: it is
/// selected where it stands now.
pub proof fn law_classic_sync_dresses_every_page(
    t: &mut NavTabs,
    current: Option<Vec<usize>>,
    showing: usize,
    r: ClassicSync,
    i: int,
    k: int,
)
    requires
        call_ensures(NavTabs::sync_classic, (t, current, showing), r),
    ensures
        r.dress@.len() == old(t).pages@.len(),
        0 <= i < old(t).pages@.len() ==> {
            &&& r.dress@[i].vc == old(t).pages@[i].vc
            &&& i < old(t).titles@.len() ==> r.dress@[i].title@ == old(t).titles@[i]@
            &&& i >= old(t).titles@.len() ==> r.dress@[i].title@.len() == 0
            &&& i < old(t).icons@.len() ==> r.dress@[i].icon == old(t).icons@[i]
            &&& i >= old(t).icons@.len() ==> r.dress@[i].icon is None
        },
        r.roster matches Some(plan) ==> {
            &&& plan.vcs@.len() == old(t).pages@.len()
            &&& 0 <= i < old(t).pages@.len() ==> plan.vcs@[i] == old(t).pages@[i].vc
            &&& final(t).suppress
            &&& current matches Some(cur) ==> cur@ != plan.vcs@
            &&& (current matches Some(cur) ==> showing < cur@.len() && 0 <= k < old(t).pages@.len()
                && old(t).pages@[k].vc == cur@[showing as int] && (forall|j: int|
                0 <= j < k ==> (#[trigger] old(t).pages@[j]).vc != cur@[showing as int])
                ==> plan.select == Some(k as usize))
            &&& current is None && showing < old(t).pages@.len() ==> plan.select == Some(showing)
            &&& current is None && showing >= old(t).pages@.len() ==> plan.select is None
        },
        current is None ==> r.roster is Some,
        current matches Some(cur) ==> cur@.len() != old(t).pages@.len() ==> r.roster is Some,
        r.roster is None ==> final(t).suppress == old(t).suppress,
{
    let vcs = Seq::new(old(t).pages@.len(), |i: int| old(t).pages@[i].vc);
    assert(old(t).pages.len() == old(t).pages@.len());
    match current {
        Some(cur) => {
            if showing < cur@.len() && 0 <= k < old(t).pages@.len() && old(t).pages@[k].vc
                == cur@[showing as int] && (forall|j: int|
                0 <= j < k ==> (#[trigger] old(t).pages@[j]).vc != cur@[showing as int]) {
                assert forall|j: int| 0 <= j < k implies #[trigger] vcs[j] != cur@[showing as int] by {
                    assert(old(t).pages@[j].vc != cur@[showing as int]);
                }
                lemma_first_tab(vcs, cur@[showing as int], k, 0);
            }
        },
        None => {},
    }
}

proof fn lemma_first_tab(tabs: Seq<usize>, key: usize, k: int, from: int)
    requires
        0 <= from <= k < tabs.len(),
        tabs[k] == key,
        forall|j: int| 0 <= j < k ==> #[trigger] tabs[j] != key,
    ensures
        tab_from(tabs, key, from) == Some(k),
    decreases k - from,
{
    if from < k {
        lemma_first_tab(tabs, key, k, from + 1);
    }
}

proof fn lemma_no_tab(tabs: Seq<usize>, key: usize, from: int)
    requires
        0 <= from,
        !tabs.contains(key),
    ensures
        tab_from(tabs, key, from) is None,
    decreases tabs.len() - from,
{
    if from < tabs.len() {
        assert(tabs[from] != key);
        lemma_no_tab(tabs, key, from + 1);
    }
}

/// A tap on a tab reports that tab's row to the host's menu, as a row's click would; not while Day
/// drives the controller, before there is a menu, or for a tab of another host.
pub proof fn law_tapped_tab_is_its_row(t: &NavTabs, key: usize, i: int, r: Option<(NodeId, usize)>)
    requires
        call_ensures(NavTabs::did_select, (t, key), r),
    ensures
        t.suppress || t.menu_node == 0 || !t.tabs@.contains(key) ==> r is None,
        !t.suppress && t.menu_node != 0 && 0 <= i < t.tabs@.len() && t.tabs@[i] == key && (forall|j: int|
            0 <= j < i ==> #[trigger] t.tabs@[j] != key) ==> (r matches Some((node, row)) && node.0
            == t.menu_node && row == i),
{
    if !t.tabs@.contains(key) {
        lemma_no_tab(t.tabs@, key, 0);
    }
    if 0 <= i < t.tabs@.len() && t.tabs@[i] == key && (forall|j: int|
        0 <= j < i ==> #[trigger] t.tabs@[j] != key) {
        lemma_first_tab(t.tabs@, key, i, 0);
    }
}

/// The same of a page of a host without tabs.
pub proof fn law_tapped_page_is_its_row(t: &NavTabs, key: usize, i: int, r: Option<(NodeId, usize)>)
    requires
        call_ensures(NavTabs::did_select_page, (t, key), r),
    ensures
        t.suppress || t.menu_node == 0 ==> r is None,
        !t.suppress && t.menu_node != 0 && 0 <= i < t.pages@.len() && t.pages@[i].key == key && (
        forall|j: int| 0 <= j < i ==> (#[trigger] t.pages@[j]).key != key) ==> (r matches Some(
            (node, row),
        ) && node.0 == t.menu_node && row == i),
{
    let all = keys(t.pages@);
    if 0 <= i < t.pages@.len() && t.pages@[i].key == key && (forall|j: int|
        0 <= j < i ==> (#[trigger] t.pages@[j]).key != key) {
        assert forall|j: int| 0 <= j < i implies #[trigger] all[j] != key by {
            assert(t.pages@[j].key != key);
        }
        lemma_first_tab(all, key, i, 0);
    }
}

/// Selecting a row is selecting its tab where there are tabs, else its page by index, and nothing past
/// the end; the controller's echo of it is held back.
pub proof fn law_selected_row_is_its_tab(t: &mut NavTabs, i: usize, r: Select)
    requires
        call_ensures(NavTabs::select, (t, i), r),
    ensures
        i < old(t).tabs@.len() ==> r == Select::Tab(old(t).tabs@[i as int]),
        i >= old(t).tabs@.len() && i < old(t).pages@.len() ==> r == Select::Index(i),
        i >= old(t).tabs@.len() && i >= old(t).pages@.len() ==> r == Select::Nothing,
        final(t).suppress,
        final(t).tabs@ == old(t).tabs@,
        final(t).pages@ == old(t).pages@,
{
}

/// Echoes are heard again once the controller has taken what it was handed, and rows and titles are what
/// they were last set to.
pub proof fn law_driven_host_listens_again(
    driven: &mut NavTabs,
    rowed: &mut NavTabs,
    retitled: &mut NavTabs,
    rows: MenuRows,
    titles: Vec<String>,
    icons: Vec<Option<String>>,
)
    requires
        call_ensures(NavTabs::driven, (driven,), ()),
        call_ensures(NavTabs::set_rows, (rowed, rows), ()),
        call_ensures(NavTabs::retitle, (retitled, titles, icons), ()),
    ensures
        !final(driven).suppress,
        final(driven).tabs@ == old(driven).tabs@,
        final(rowed).titles == rows.titles && final(rowed).icons == rows.icons && final(rowed).menu_node
            == rows.node,
        final(retitled).titles == titles && final(retitled).icons == icons
            && final(retitled).menu_node == old(retitled).menu_node,
{
}

/// A page joins where it was asked to, or at the end, and every other page keeps its order.
pub proof fn law_page_joins_at_its_index(t: &mut NavTabs, index: usize, page: TabPage)
    requires
        call_ensures(NavTabs::insert_page, (t, index, page), ()),
    ensures
        ({
            let before = old(t).pages@;
            let at = if index < before.len() {
                index as int
            } else {
                before.len() as int
            };
            final(t).pages@.len() == before.len() + 1 && final(t).pages@[at] == page
                && final(t).pages@.remove(at) == before
        }),
{
    let before = old(t).pages@;
    let at = if index < before.len() {
        index as int
    } else {
        before.len() as int
    };
    assert(before.insert(at, page).remove(at) =~= before);
}

/// A selection waits while a stack is moving, and not for ever.
pub proof fn law_selection_waits_out_a_transition(attempt: u32, moving: bool, still: bool)
    requires
        call_ensures(select_waits, (true, attempt), moving),
        call_ensures(select_waits, (false, attempt), still),
    ensures
        !still,
        moving <==> attempt < 120,
{
}

/// The tabs host around a view is the first on the way up: the view itself, or the host it is a page of.
pub proof fn law_enclosing_tabs_host_is_the_nearest(
    t: &TabsTable,
    chain: &Vec<usize>,
    i: int,
    r: Option<usize>,
)
    requires
        call_ensures(TabsTable::enclosing_tabs_host, (t, chain), r),
        0 <= i < chain@.len(),
        forall|k: int|
            0 <= k < i ==> !t.hosts@.dom().contains(#[trigger] chain@[k])
                && !t.page_host@.dom().contains(chain@[k]),
    ensures
        t.hosts@.dom().contains(chain@[i]) ==> r == Some(chain@[i]),
        !t.hosts@.dom().contains(chain@[i]) && t.page_host@.dom().contains(chain@[i]) ==> r == Some(
            t.page_host@[chain@[i]],
        ),
        i == chain@.len() - 1 && !t.hosts@.dom().contains(chain@[i]) && !t.page_host@.dom().contains(
            chain@[i],
        ) ==> r is None,
{
    lemma_enclosing(*t, chain@, i, 0);
    reveal_with_fuel(TabsTable::enclosing_from, 2);
}

proof fn lemma_enclosing(t: TabsTable, chain: Seq<usize>, i: int, from: int)
    requires
        0 <= from <= i < chain.len(),
        forall|k: int|
            0 <= k < i ==> !t.hosts@.dom().contains(#[trigger] chain[k]) && !t.page_host@.dom().contains(
                chain[k],
            ),
    ensures
        t.enclosing_from(chain, from) == t.enclosing_from(chain, i),
    decreases i - from,
{
    if from < i {
        assert(!t.hosts@.dom().contains(chain[from]));
        lemma_enclosing(t, chain, i, from + 1);
    }
}

/// A tabs host starts with its tab bar and nothing on it, and a table of them with no host.
pub proof fn law_tabs_start_empty(tabbar: usize, t: NavTabs, table: TabsTable)
    requires
        call_ensures(NavTabs::new, (tabbar,), t),
        call_ensures(TabsTable::new, (), table),
    ensures
        t.tabbar == tabbar && t.pages@.len() == 0 && t.tabs@.len() == 0,
        t.titles@.len() == 0 && t.icons@.len() == 0 && t.menu_node == 0 && !t.suppress,
        table.hosts@.len() == 0 && table.page_host@.len() == 0,
{
}

/// Each change of a tabs host touches what it is a change of: rows and titles leave the pages and tabs
/// alone, a page leaves the rows alone, and a sync, a selection or the end of one leaves both alone.
pub proof fn law_tabs_change_what_they_are_asked_to(
    rows: &mut NavTabs,
    titled: &mut NavTabs,
    paged: &mut NavTabs,
    synced: &mut NavTabs,
    driven: &mut NavTabs,
    selected: &mut NavTabs,
    classic: &mut NavTabs,
    menu: MenuRows,
    titles: Vec<String>,
    icons: Vec<Option<String>>,
    index: usize,
    page: TabPage,
    plan: Vec<TabPlan>,
    i: usize,
    select: Select,
    current: Option<Vec<usize>>,
    showing: usize,
    dress: ClassicSync,
)
    requires
        call_ensures(NavTabs::set_rows, (rows, menu), ()),
        call_ensures(NavTabs::retitle, (titled, titles, icons), ()),
        call_ensures(NavTabs::insert_page, (paged, index, page), ()),
        call_ensures(NavTabs::sync, (synced,), plan),
        call_ensures(NavTabs::driven, (driven,), ()),
        call_ensures(NavTabs::select, (selected, i), select),
        call_ensures(NavTabs::sync_classic, (classic, current, showing), dress),
    ensures
        final(rows).pages@ == old(rows).pages@ && final(rows).tabs@ == old(rows).tabs@ && final(rows).suppress == old(rows).suppress && final(rows).tabbar == old(rows).tabbar,
        final(titled).pages@ == old(titled).pages@ && final(titled).tabs@ == old(titled).tabs@ && final(titled).menu_node == old(titled).menu_node && final(titled).suppress == old(titled).suppress
            && final(titled).tabbar == old(titled).tabbar,
        final(paged).tabs@ == old(paged).tabs@ && final(paged).titles == old(paged).titles && final(paged).icons == old(paged).icons && final(paged).menu_node == old(paged).menu_node && final(paged).suppress == old(paged).suppress && final(paged).tabbar == old(paged).tabbar,
        final(synced).pages@ == old(synced).pages@ && final(synced).titles == old(synced).titles && final(synced).icons == old(synced).icons && final(synced).menu_node == old(synced).menu_node
            && final(synced).tabbar == old(synced).tabbar,
        final(driven).pages@ == old(driven).pages@ && final(driven).tabs@ == old(driven).tabs@ && final(driven).titles == old(driven).titles && final(driven).menu_node == old(driven).menu_node
            && final(driven).tabbar == old(driven).tabbar,
        final(selected).pages@ == old(selected).pages@ && final(selected).tabs@ == old(selected).tabs@
            && final(selected).titles == old(selected).titles && final(selected).menu_node
            == old(selected).menu_node && final(selected).tabbar == old(selected).tabbar,
        final(classic).pages@ == old(classic).pages@ && final(classic).tabs@ == old(classic).tabs@
            && final(classic).titles == old(classic).titles && final(classic).menu_node
            == old(classic).menu_node && final(classic).tabbar == old(classic).tabbar,
{
}

/// A page that is gone after a sync leaves its position showing, as far as there is one.
pub proof fn law_position_of_a_page_gone_keeps_showing(
    t: &mut NavTabs,
    current: Vec<usize>,
    showing: usize,
    r: ClassicSync,
)
    requires
        call_ensures(NavTabs::sync_classic, (t, Some(current), showing), r),
        showing < current@.len() ==> forall|k: int|
            0 <= k < old(t).pages@.len() ==> (#[trigger] old(t).pages@[k]).vc
                != current@[showing as int],
    ensures
        r.roster matches Some(plan) ==> {
            &&& showing < old(t).pages@.len() ==> plan.select == Some(showing)
            &&& showing >= old(t).pages@.len() ==> plan.select is None
        },
{
    let vcs = Seq::new(old(t).pages@.len(), |i: int| old(t).pages@[i].vc);
    if showing < current@.len() {
        assert forall|k: int| 0 <= k < vcs.len() implies #[trigger] vcs[k] != current@[showing as int] by {
            assert(old(t).pages@[k].vc != current@[showing as int]);
        }
        lemma_no_tab(vcs, current@[showing as int], 0);
    }
}

} // verus!
