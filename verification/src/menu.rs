//! Menus: a tree of items becomes a tree of menu elements. Separators are drawn as inline
//! sections, the native look; a standard role routes its selector up the responder chain, and
//! everything else dispatches its action.

use vstd::prelude::*;

verus! {

/// A glyph: a standard symbol by its number, or a bundled image by name.
#[derive(Debug)]
pub enum Icon {
    Symbol(u64),
    Image(String),
}

impl Clone for Icon {
    fn clone(&self) -> (r: Icon)
        ensures
            r == *self,
    {
        match self {
            Icon::Symbol(s) => Icon::Symbol(*s),
            Icon::Image(name) => Icon::Image(name.clone()),
        }
    }
}

pub fn clone_icon(icon: &Option<Icon>) -> (r: Option<Icon>)
    ensures
        r == *icon,
{
    match icon {
        Some(icon) => Some(icon.clone()),
        None => None,
    }
}

#[derive(Clone, Copy, PartialEq, Eq, Structural, Debug)]
pub enum MenuRole {
    Cut,
    Copy,
    Paste,
    SelectAll,
    Undo,
    Redo,
    Delete,
    About,
    Quit,
    Preferences,
    Minimize,
    CloseWindow,
    Fullscreen,
    NewWindow,
}

/// A standard editing command of the responder chain.
#[derive(Clone, Copy, PartialEq, Eq, Structural, Debug)]
pub enum EditSelector {
    Cut,
    Copy,
    Paste,
    SelectAll,
    Delete,
}

/// An item as the app declares it.
#[derive(Debug)]
pub enum MenuItem {
    Separator,
    Submenu { label: String, items: Vec<MenuItem> },
    Action {
        action: u64,
        label: String,
        enabled: bool,
        checked: Option<bool>,
        role: Option<MenuRole>,
        icon: Option<Icon>,
    },
}

/// What choosing an element does.
#[derive(Clone, Debug)]
pub enum MenuRun {
    /// Send an editing command up the responder chain.
    Send(EditSelector),
    /// Report the action to the window.
    Dispatch(u64),
    /// The role has no meaning here, and the item no action.
    Nothing,
    /// Choose a segment of a toolbar control.
    Choose { item: String, index: usize, action: u64 },
}

/// An element of a native menu.
#[derive(Debug)]
pub enum MenuEl {
    Menu { title: String, children: Vec<MenuEl> },
    /// A section set off by dividers.
    Inline { children: Vec<MenuEl> },
    Action {
        title: String,
        enabled: bool,
        checked: Option<bool>,
        icon: Option<Icon>,
        run: MenuRun,
    },
}

/// The label of a standard role the app left unlabeled.
pub open spec fn role_label(role: MenuRole) -> Seq<char> {
    match role {
        MenuRole::Cut => "Cut"@,
        MenuRole::Copy => "Copy"@,
        MenuRole::Paste => "Paste"@,
        MenuRole::SelectAll => "Select All"@,
        MenuRole::Undo => "Undo"@,
        MenuRole::Redo => "Redo"@,
        MenuRole::Delete => "Delete"@,
        MenuRole::About => "About"@,
        MenuRole::Quit => "Quit"@,
        MenuRole::Preferences => "Settings"@,
        MenuRole::Minimize => "Minimize"@,
        MenuRole::CloseWindow => "Close"@,
        MenuRole::Fullscreen => "Full Screen"@,
        MenuRole::NewWindow => "New Window"@,
    }
}

pub fn ui_role_label(role: MenuRole) -> (r: &'static str)
    ensures
        r@ == role_label(role),
{
    match role {
        MenuRole::Cut => "Cut",
        MenuRole::Copy => "Copy",
        MenuRole::Paste => "Paste",
        MenuRole::SelectAll => "Select All",
        MenuRole::Undo => "Undo",
        MenuRole::Redo => "Redo",
        MenuRole::Delete => "Delete",
        MenuRole::About => "About",
        MenuRole::Quit => "Quit",
        MenuRole::Preferences => "Settings",
        MenuRole::Minimize => "Minimize",
        MenuRole::CloseWindow => "Close",
        MenuRole::Fullscreen => "Full Screen",
        MenuRole::NewWindow => "New Window",
    }
}

/// The responder command a role routes to; the others have none on this platform.
pub open spec fn role_selector(role: MenuRole) -> Option<EditSelector> {
    match role {
        MenuRole::Cut => Some(EditSelector::Cut),
        MenuRole::Copy => Some(EditSelector::Copy),
        MenuRole::Paste => Some(EditSelector::Paste),
        MenuRole::SelectAll => Some(EditSelector::SelectAll),
        MenuRole::Delete => Some(EditSelector::Delete),
        _ => None,
    }
}

pub fn ui_role_selector(role: MenuRole) -> (r: Option<EditSelector>)
    ensures
        r == role_selector(role),
{
    match role {
        MenuRole::Cut => Some(EditSelector::Cut),
        MenuRole::Copy => Some(EditSelector::Copy),
        MenuRole::Paste => Some(EditSelector::Paste),
        MenuRole::SelectAll => Some(EditSelector::SelectAll),
        MenuRole::Delete => Some(EditSelector::Delete),
        _ => None,
    }
}

/// An action's title: its own label, or the role's when it has none.
pub open spec fn action_title(label: Seq<char>, role: Option<MenuRole>) -> Seq<char> {
    match role {
        Some(role) if label.len() == 0 => role_label(role),
        _ => label,
    }
}

/// What an action does: a role with a responder command sends it, a role without one dispatches
/// the action it carries, if any; a plain action always dispatches.
pub open spec fn action_run(action: u64, role: Option<MenuRole>) -> MenuRun {
    match role {
        None => MenuRun::Dispatch(action),
        Some(role) => match role_selector(role) {
            Some(selector) => MenuRun::Send(selector),
            None => if action != 0 {
                MenuRun::Dispatch(action)
            } else {
                MenuRun::Nothing
            },
        },
    }
}

/// Where the run still open before position `n` starts.
pub open spec fn open_from(items: Seq<MenuItem>, n: int) -> int
    decreases n,
{
    if n <= 0 {
        0
    } else if items[n - 1] is Separator {
        n
    } else {
        open_from(items, n - 1)
    }
}

/// The non-empty runs that a separator closes before position `n`, as ranges.
pub open spec fn closed_runs(items: Seq<MenuItem>, n: int) -> Seq<(int, int)>
    decreases n,
{
    if n <= 0 {
        Seq::empty()
    } else if items[n - 1] is Separator && open_from(items, n - 1) < n - 1 {
        closed_runs(items, n - 1).push((open_from(items, n - 1), n - 1))
    } else {
        closed_runs(items, n - 1)
    }
}

/// The non-empty runs between separators, as ranges, in order.
pub open spec fn runs(items: Seq<MenuItem>) -> Seq<(int, int)> {
    let n = items.len() as int;
    if open_from(items, n) < n {
        closed_runs(items, n).push((open_from(items, n), n))
    } else {
        closed_runs(items, n)
    }
}

/// `els` are the elements of `items[lo..hi]`: one per item, separators left out.
pub open spec fn elements(items: Seq<MenuItem>, lo: int, hi: int, els: Seq<MenuEl>) -> bool
    decreases items, 0nat, hi - lo,
{
    if lo < 0 || hi > items.len() || lo >= hi {
        els.len() == 0
    } else {
        match items[hi - 1] {
            MenuItem::Separator => elements(items, lo, hi - 1, els),
            MenuItem::Submenu { label, items: inner } => {
                &&& els.len() > 0
                &&& els.last() matches MenuEl::Menu { title, children } && title@ == label@
                    && menu(inner@, children@)
                &&& elements(items, lo, hi - 1, els.drop_last())
            },
            MenuItem::Action { action, label, enabled, checked, role, icon } => {
                &&& els.len() > 0
                &&& els.last() matches MenuEl::Action {
                    title,
                    enabled: e,
                    checked: c,
                    icon: i,
                    run,
                } && title@ == action_title(label@, role) && e == enabled && c == checked && i
                    == icon && run == action_run(action, role)
                &&& elements(items, lo, hi - 1, els.drop_last())
            },
        }
    }
}

/// The first `k` children are the first `k` runs, each an inline section.
pub open spec fn sections(items: Seq<MenuItem>, k: int, children: Seq<MenuEl>) -> bool
    decreases items, 1nat, k,
{
    k > 0 ==> {
        let run = runs(items)[k - 1];
        &&& children[k - 1] matches MenuEl::Inline { children: els } && elements(
            items,
            run.0,
            run.1,
            els@,
        )
        &&& sections(items, k - 1, children)
    }
}

/// `children` are the menu of `items`: its elements, or one inline section per run when
/// separators part it into several.
pub open spec fn menu(items: Seq<MenuItem>, children: Seq<MenuEl>) -> bool
    decreases items, 2nat, 0int,
{
    if runs(items).len() <= 1 {
        elements(items, 0, items.len() as int, children)
    } else {
        children.len() == runs(items).len() && sections(
            items,
            runs(items).len() as int,
            children,
        )
    }
}

/// Lower `items[lo..hi]` into elements.
fn ui_menu_elements(items: &Vec<MenuItem>, lo: usize, hi: usize) -> (els: Vec<MenuEl>)
    requires
        lo <= hi <= items@.len(),
    ensures
        elements(items@, lo as int, hi as int, els@),
    decreases items@, 0nat, hi - lo,
{
    if lo >= hi {
        return Vec::new();
    }
    let mut els = ui_menu_elements(items, lo, hi - 1);
    let ghost before = els@;
    proof {
        assert(decreases_to!(items@ => items@[hi - 1]));
    }
    match &items[hi - 1] {
        MenuItem::Separator => {},
        MenuItem::Submenu { label, items: inner } => {
            let children = build_ui_menu(inner);
            els.push(MenuEl::Menu { title: label.clone(), children });
            proof {
                assert(els@.drop_last() == before);
            }
        },
        MenuItem::Action { action, label, enabled, checked, role, icon } => {
            let run = match role {
                None => MenuRun::Dispatch(*action),
                Some(role) => match ui_role_selector(*role) {
                    Some(selector) => MenuRun::Send(selector),
                    None => {
                        if *action != 0 {
                            MenuRun::Dispatch(*action)
                        } else {
                            MenuRun::Nothing
                        }
                    },
                },
            };
            let title = match role {
                Some(role) if label.as_str().unicode_len() == 0 => {
                    ui_role_label(*role).to_string()
                },
                _ => label.clone(),
            };
            els.push(
                MenuEl::Action {
                    title,
                    enabled: *enabled,
                    checked: *checked,
                    icon: clone_icon(icon),
                    run,
                },
            );
            proof {
                assert(els@.drop_last() == before);
            }
        },
    }
    els
}

fn split_runs(items: &Vec<MenuItem>) -> (out: Vec<(usize, usize)>)
    ensures
        out@.len() == runs(items@).len(),
        forall|k: int|
            0 <= k < out@.len() ==> (#[trigger] out@[k]).0 == runs(items@)[k].0 && out@[k].1
                == runs(items@)[k].1 && out@[k].0 <= out@[k].1 <= items@.len(),
{
    let mut out: Vec<(usize, usize)> = Vec::new();
    let mut start: usize = 0;
    let n: usize = items.len();
    for i in 0..n
        invariant
            n == items@.len(),
            start <= i,
            start == open_from(items@, i as int),
            out@.len() == closed_runs(items@, i as int).len(),
            forall|k: int|
                0 <= k < out@.len() ==> (#[trigger] out@[k]).0 == closed_runs(items@, i as int)[k].0
                    && out@[k].1 == closed_runs(items@, i as int)[k].1 && out@[k].0 <= out@[k].1
                    <= items@.len(),
    {
        let closes = match &items[i] {
            MenuItem::Separator => true,
            _ => false,
        };
        if closes {
            if start < i {
                out.push((start, i));
            }
            start = i + 1;
        }
    }
    if start < n {
        out.push((start, n));
    }
    out
}

/// The children of a context menu made when it is summoned; without entries there is none.
pub fn summoned(items: &Vec<MenuItem>) -> (r: Option<Vec<MenuEl>>)
    ensures
        r is Some == (items@.len() > 0),
        r matches Some(children) ==> menu(items@, children@),
{
    if items.len() == 0 {
        None
    } else {
        Some(build_ui_menu(items))
    }
}

/// The children of the native menu of `items`.
pub fn build_ui_menu(items: &Vec<MenuItem>) -> (children: Vec<MenuEl>)
    ensures
        menu(items@, children@),
    decreases items@, 2nat, 0int,
{
    let groups = split_runs(items);
    if groups.len() <= 1 {
        return ui_menu_elements(items, 0, items.len());
    }
    let mut children: Vec<MenuEl> = Vec::new();
    let n: usize = groups.len();
    for k in 0..n
        invariant
            n == groups@.len(),
            n == runs(items@).len(),
            forall|j: int|
                0 <= j < groups@.len() ==> (#[trigger] groups@[j]).0 == runs(items@)[j].0
                    && groups@[j].1 == runs(items@)[j].1 && groups@[j].0 <= groups@[j].1
                    <= items@.len(),
            children@.len() == k,
            sections(items@, k as int, children@),
    {
        let (lo, hi) = groups[k];
        let els = ui_menu_elements(items, lo, hi);
        let ghost before = children@;
        children.push(MenuEl::Inline { children: els });
        proof {
            lemma_sections_prefix(items@, k as int, before, children@);
        }
    }
    children
}

proof fn lemma_sections_prefix(items: Seq<MenuItem>, k: int, a: Seq<MenuEl>, b: Seq<MenuEl>)
    requires
        0 <= k <= a.len() <= b.len(),
        forall|i: int| 0 <= i < k ==> a[i] == b[i],
        sections(items, k, a),
    ensures
        sections(items, k, b),
    decreases k,
{
    if k > 0 {
        lemma_sections_prefix(items, k - 1, a, b);
    }
}

/// A choosable entry, wherever in the tree it stands.
pub struct Leaf {
    pub title: Seq<char>,
    pub enabled: bool,
    pub checked: Option<bool>,
    pub icon: Option<Icon>,
    pub run: MenuRun,
}

/// The entries `items[lo..hi]` declare, in reading order, submenus opened in place.
pub open spec fn declared(items: Seq<MenuItem>, lo: int, hi: int) -> Seq<Leaf>
    decreases items, hi - lo,
{
    if lo < 0 || hi > items.len() || lo >= hi {
        Seq::empty()
    } else {
        declared(items, lo, hi - 1) + match items[hi - 1] {
            MenuItem::Separator => Seq::empty(),
            MenuItem::Submenu { label, items: inner } => declared(inner@, 0, inner@.len() as int),
            MenuItem::Action { action, label, enabled, checked, role, icon } => seq![
                Leaf {
                    title: action_title(label@, role),
                    enabled,
                    checked,
                    icon,
                    run: action_run(action, role),
                },
            ],
        }
    }
}

/// The entries of native elements, in reading order, menus and sections opened in place.
pub open spec fn shown(els: Seq<MenuEl>) -> Seq<Leaf>
    decreases els,
{
    if els.len() == 0 {
        Seq::empty()
    } else {
        shown(els.drop_last()) + match els.last() {
            MenuEl::Menu { title, children } => shown(children@),
            MenuEl::Inline { children } => shown(children@),
            MenuEl::Action { title, enabled, checked, icon, run } => seq![
                Leaf { title: title@, enabled, checked, icon, run },
            ],
        }
    }
}

proof fn lemma_elements_shown(items: Seq<MenuItem>, lo: int, hi: int, els: Seq<MenuEl>)
    requires
        0 <= lo <= hi <= items.len(),
        elements(items, lo, hi, els),
    ensures
        shown(els) == declared(items, lo, hi),
    decreases items, 0nat, hi - lo,
{
    if lo < hi {
        assert(decreases_to!(items => items[hi - 1]));
        match items[hi - 1] {
            MenuItem::Separator => {
                lemma_elements_shown(items, lo, hi - 1, els);
            },
            MenuItem::Submenu { label, items: inner } => {
                lemma_elements_shown(items, lo, hi - 1, els.drop_last());
                match els.last() {
                    MenuEl::Menu { title, children } => {
                        law_menu_keeps_every_entry_in_order(inner@, children@);
                    },
                    _ => {},
                }
            },
            MenuItem::Action { .. } => {
                lemma_elements_shown(items, lo, hi - 1, els.drop_last());
            },
        }
    }
}

/// Everything declared in the first `k` runs.
spec fn declared_runs(items: Seq<MenuItem>, k: int) -> Seq<Leaf>
    decreases k,
{
    if k <= 0 {
        Seq::empty()
    } else {
        declared_runs(items, k - 1) + declared(items, runs(items)[k - 1].0, runs(items)[k - 1].1)
    }
}

proof fn lemma_sections_shown(items: Seq<MenuItem>, k: int, children: Seq<MenuEl>)
    requires
        0 <= k <= runs(items).len(),
        k <= children.len(),
        sections(items, k, children),
    ensures
        shown(children.take(k)) == declared_runs(items, k),
    decreases items, 1nat, k,
{
    if k > 0 {
        lemma_sections_shown(items, k - 1, children);
        assert(children.take(k).drop_last() == children.take(k - 1));
        lemma_runs_in_range(items);
        let run = runs(items)[k - 1];
        match children[k - 1] {
            MenuEl::Inline { children: els } => {
                lemma_elements_shown(items, run.0, run.1, els@);
            },
            _ => {},
        }
    }
}

proof fn lemma_open_from(items: Seq<MenuItem>, n: int)
    requires
        0 <= n <= items.len(),
    ensures
        0 <= open_from(items, n) <= n,
    decreases n,
{
    if n > 0 {
        lemma_open_from(items, n - 1);
    }
}

proof fn lemma_closed_in_range(items: Seq<MenuItem>, n: int)
    requires
        0 <= n <= items.len(),
    ensures
        forall|k: int|
            0 <= k < closed_runs(items, n).len() ==> 0 <= (#[trigger] closed_runs(items, n)[k]).0
                <= closed_runs(items, n)[k].1 <= items.len(),
    decreases n,
{
    if n > 0 {
        lemma_closed_in_range(items, n - 1);
        lemma_open_from(items, n - 1);
        let before = closed_runs(items, n - 1);
        let after = closed_runs(items, n);
        assert forall|k: int| 0 <= k < after.len() implies 0 <= (#[trigger] after[k]).0 <= after[k].1
            <= items.len() by {
            if k < before.len() {
                assert(after[k] == before[k]);
            }
        }
    }
}

proof fn lemma_runs_in_range(items: Seq<MenuItem>)
    ensures
        forall|k: int|
            0 <= k < runs(items).len() ==> 0 <= (#[trigger] runs(items)[k]).0 <= runs(items)[k].1
                <= items.len(),
{
    lemma_closed_in_range(items, items.len() as int);
    lemma_open_from(items, items.len() as int);
}

proof fn lemma_declared_split(items: Seq<MenuItem>, lo: int, mid: int, hi: int)
    requires
        0 <= lo <= mid <= hi <= items.len(),
    ensures
        declared(items, lo, hi) == declared(items, lo, mid) + declared(items, mid, hi),
    decreases hi - mid,
{
    if mid < hi {
        lemma_declared_split(items, lo, mid, hi - 1);
    }
}

/// The first `n` items declare what their closed runs declare, then what the open run does.
spec fn declared_closed(items: Seq<MenuItem>, rs: Seq<(int, int)>) -> Seq<Leaf>
    decreases rs.len(),
{
    if rs.len() == 0 {
        Seq::empty()
    } else {
        declared_closed(items, rs.drop_last()) + declared(items, rs.last().0, rs.last().1)
    }
}

proof fn lemma_closed_declares(items: Seq<MenuItem>, n: int)
    requires
        0 <= n <= items.len(),
    ensures
        declared(items, 0, n) == declared_closed(items, closed_runs(items, n)) + declared(
            items,
            open_from(items, n),
            n,
        ),
    decreases n,
{
    if n > 0 {
        lemma_closed_declares(items, n - 1);
        lemma_open_from(items, n - 1);
        let at = open_from(items, n - 1);
        if items[n - 1] is Separator {
            if at < n - 1 {
                let rs = closed_runs(items, n - 1);
                assert(rs.push((at, n - 1)).drop_last() == rs);
            }
        }
    }
}

proof fn lemma_declared_runs(items: Seq<MenuItem>, k: int)
    requires
        0 <= k <= runs(items).len(),
    ensures
        declared_runs(items, k) == declared_closed(items, runs(items).take(k)),
    decreases k,
{
    if k > 0 {
        lemma_declared_runs(items, k - 1);
        assert(runs(items).take(k).drop_last() == runs(items).take(k - 1));
        assert(runs(items).take(k).last() == runs(items)[k - 1]);
    } else {
        assert(runs(items).take(0).len() == 0);
    }
}

/// A menu keeps every entry, in order, whatever sections its separators part it into: nothing is
/// lost, added or moved.
pub proof fn law_menu_keeps_every_entry_in_order(items: Seq<MenuItem>, children: Seq<MenuEl>)
    requires
        menu(items, children),
    ensures
        shown(children) == declared(items, 0, items.len() as int),
    decreases items, 2nat, 0int,
{
    let n = items.len() as int;
    if runs(items).len() <= 1 {
        lemma_elements_shown(items, 0, n, children);
    } else {
        let k = runs(items).len() as int;
        lemma_sections_shown(items, k, children);
        assert(children.take(k) == children);
        lemma_declared_runs(items, k);
        assert(runs(items).take(k) == runs(items));
        lemma_closed_declares(items, n);
        let cs = closed_runs(items, n);
        let at = open_from(items, n);
        lemma_open_from(items, n);
        if at < n {
            assert(cs.push((at, n)).drop_last() == cs);
        }
    }
}

/// Every standard role has its own label.
pub proof fn law_roles_have_their_labels(role: MenuRole, r: &'static str)
    requires
        call_ensures(ui_role_label, (role,), r),
    ensures
        role == MenuRole::Cut ==> r@ == "Cut"@,
        role == MenuRole::Copy ==> r@ == "Copy"@,
        role == MenuRole::Paste ==> r@ == "Paste"@,
        role == MenuRole::SelectAll ==> r@ == "Select All"@,
        role == MenuRole::Undo ==> r@ == "Undo"@,
        role == MenuRole::Redo ==> r@ == "Redo"@,
        role == MenuRole::Delete ==> r@ == "Delete"@,
        role == MenuRole::About ==> r@ == "About"@,
        role == MenuRole::Quit ==> r@ == "Quit"@,
        role == MenuRole::Preferences ==> r@ == "Settings"@,
        role == MenuRole::Minimize ==> r@ == "Minimize"@,
        role == MenuRole::CloseWindow ==> r@ == "Close"@,
        role == MenuRole::Fullscreen ==> r@ == "Full Screen"@,
        role == MenuRole::NewWindow ==> r@ == "New Window"@,
{
}

/// The five editing roles go up the responder chain, each as its own command; no other role does.
pub proof fn law_editing_roles_send_their_commands(role: MenuRole, r: Option<EditSelector>)
    requires
        call_ensures(ui_role_selector, (role,), r),
    ensures
        r == Some(EditSelector::Cut) <==> role == MenuRole::Cut,
        r == Some(EditSelector::Copy) <==> role == MenuRole::Copy,
        r == Some(EditSelector::Paste) <==> role == MenuRole::Paste,
        r == Some(EditSelector::SelectAll) <==> role == MenuRole::SelectAll,
        r == Some(EditSelector::Delete) <==> role == MenuRole::Delete,
{
}

/// `el` is what `item` declares: a submenu under its label, an action under its label or else its
/// role's, in the same state and with the same glyph. A plain action dispatches, an editing role sends
/// its command, and any other role dispatches the action it carries, if it carries one.
pub open spec fn mirrors(item: MenuItem, el: MenuEl) -> bool {
    match item {
        MenuItem::Separator => false,
        MenuItem::Submenu { label, items } => el matches MenuEl::Menu { title, children } && title@
            == label@ && shown(children@) == declared(items@, 0, items@.len() as int),
        MenuItem::Action { action, label, enabled, checked, role, icon } => {
            &&& el matches MenuEl::Action { title, enabled: e, checked: c, icon: i, run }
            &&& e == enabled && c == checked && i == icon
            &&& label@.len() > 0 || role is None ==> title@ == label@
            &&& role matches Some(named) ==> label@.len() == 0 ==> title@ == role_label(named)
            &&& role is None ==> run == MenuRun::Dispatch(action)
            &&& role matches Some(named) ==> match named {
                MenuRole::Cut => run == MenuRun::Send(EditSelector::Cut),
                MenuRole::Copy => run == MenuRun::Send(EditSelector::Copy),
                MenuRole::Paste => run == MenuRun::Send(EditSelector::Paste),
                MenuRole::SelectAll => run == MenuRun::Send(EditSelector::SelectAll),
                MenuRole::Delete => run == MenuRun::Send(EditSelector::Delete),
                _ => (action == 0 ==> run is Nothing) && (action != 0 ==> run == MenuRun::Dispatch(
                    action,
                )),
            }
        },
    }
}

/// `els` are `items[lo..hi]`, one for one.
pub open spec fn mirrored(items: Seq<MenuItem>, lo: int, hi: int, els: Seq<MenuEl>) -> bool {
    &&& els.len() == hi - lo
    &&& forall|i: int| 0 <= i < els.len() ==> mirrors(items[lo + i], #[trigger] els[i])
}

/// No separator stands in `items[lo..hi]`.
pub open spec fn unparted(items: Seq<MenuItem>, lo: int, hi: int) -> bool {
    forall|i: int| lo <= i < hi ==> !((#[trigger] items[i]) is Separator)
}

proof fn lemma_elements_mirror(items: Seq<MenuItem>, lo: int, hi: int, els: Seq<MenuEl>)
    requires
        0 <= lo <= hi <= items.len(),
        unparted(items, lo, hi),
        elements(items, lo, hi, els),
    ensures
        mirrored(items, lo, hi, els),
    decreases hi - lo,
{
    if lo < hi {
        assert(!(items[hi - 1] is Separator));
        lemma_elements_mirror(items, lo, hi - 1, els.drop_last());
        match items[hi - 1] {
            MenuItem::Submenu { label, items: inner } => match els.last() {
                MenuEl::Menu { title, children } => {
                    law_menu_keeps_every_entry_in_order(inner@, children@);
                },
                _ => {},
            },
            _ => {},
        }
        assert(mirrors(items[hi - 1], els.last()));
        assert forall|i: int| 0 <= i < els.len() implies mirrors(items[lo + i], #[trigger] els[i]) by {
            if i < els.len() - 1 {
                assert(els.drop_last()[i] == els[i]);
            }
        }
    }
}

proof fn lemma_unparted_run(items: Seq<MenuItem>, lo: int, hi: int)
    requires
        0 <= lo <= hi <= items.len(),
        unparted(items, lo, hi),
    ensures
        open_from(items, hi) == open_from(items, lo),
        closed_runs(items, hi) == closed_runs(items, lo),
    decreases hi - lo,
{
    if lo < hi {
        assert(!(items[hi - 1] is Separator));
        lemma_unparted_run(items, lo, hi - 1);
    }
}

/// A menu without separators has one element per item, in order, each as its item declares.
pub proof fn law_unparted_menu_mirrors_its_items(items: &Vec<MenuItem>, r: Vec<MenuEl>)
    requires
        unparted(items@, 0, items@.len() as int),
        call_ensures(build_ui_menu, (items,), r),
    ensures
        mirrored(items@, 0, items@.len() as int, r@),
{
    let n = items@.len() as int;
    lemma_unparted_run(items@, 0, n);
    assert(closed_runs(items@, 0).len() == 0);
    assert(runs(items@).len() <= 1);
    lemma_elements_mirror(items@, 0, n, r@);
}

/// A separator between items parts them into two sections, each of its own items. One at either end
/// draws nothing.
pub proof fn law_separator_parts_a_menu(items: &Vec<MenuItem>, at: int, r: Vec<MenuEl>)
    requires
        0 <= at < items@.len(),
        items@[at] is Separator,
        unparted(items@, 0, at),
        unparted(items@, at + 1, items@.len() as int),
        call_ensures(build_ui_menu, (items,), r),
    ensures
        ({
            let n = items@.len() as int;
            &&& 0 < at < n - 1 ==> r@.len() == 2 && (r@[0] matches MenuEl::Inline { children }
                && mirrored(items@, 0, at, children@)) && (r@[1] matches MenuEl::Inline { children }
                && mirrored(items@, at + 1, n, children@))
            &&& at == 0 ==> mirrored(items@, 1, n, r@)
            &&& at == n - 1 ==> mirrored(items@, 0, n - 1, r@)
        }),
{
    let n = items@.len() as int;
    lemma_unparted_run(items@, 0, at);
    lemma_unparted_run(items@, at + 1, n);
    assert(open_from(items@, 0) == 0);
    assert(closed_runs(items@, 0).len() == 0);
    assert(open_from(items@, at + 1) == at + 1);
    if 0 < at < n - 1 {
        assert(closed_runs(items@, at + 1) =~= seq![(0int, at)]);
        assert(runs(items@) =~= seq![(0int, at), (at + 1, n)]);
        reveal_with_fuel(sections, 3);
        assert(sections(items@, 2, r@));
        match (r@[0], r@[1]) {
            (MenuEl::Inline { children: a }, MenuEl::Inline { children: b }) => {
                lemma_elements_mirror(items@, 0, at, a@);
                lemma_elements_mirror(items@, at + 1, n, b@);
            },
            _ => {},
        }
    } else {
        assert(runs(items@).len() <= 1);
        if at == 0 {
            lemma_elements_skip(items@, n, r@);
            lemma_elements_mirror(items@, 1, n, r@);
        }
        if at == n - 1 {
            lemma_elements_mirror(items@, 0, n - 1, r@);
        }
    }
}

proof fn lemma_elements_skip(items: Seq<MenuItem>, hi: int, els: Seq<MenuEl>)
    requires
        1 <= hi <= items.len(),
        items[0] is Separator,
        elements(items, 0, hi, els),
    ensures
        elements(items, 1, hi, els),
    decreases hi,
{
    if hi > 1 {
        match items[hi - 1] {
            MenuItem::Separator => {
                lemma_elements_skip(items, hi - 1, els);
            },
            _ => {
                lemma_elements_skip(items, hi - 1, els.drop_last());
            },
        }
    } else {
        assert(elements(items, 0, 0, els));
    }
}

/// A summoned menu holds what the menu of its entries holds; without entries none is summoned.
pub proof fn law_summoned_menu_is_its_entries(
    items: &Vec<MenuItem>,
    r: Option<Vec<MenuEl>>,
    built: Vec<MenuEl>,
)
    requires
        call_ensures(summoned, (items,), r),
        call_ensures(build_ui_menu, (items,), built),
    ensures
        r is None <==> items@.len() == 0,
        r matches Some(children) ==> shown(children@) == shown(built@),
        r matches Some(children) ==> unparted(items@, 0, items@.len() as int) ==> mirrored(
            items@,
            0,
            items@.len() as int,
            children@,
        ),
{
    law_menu_keeps_every_entry_in_order(items@, built@);
    match r {
        Some(children) => {
            law_menu_keeps_every_entry_in_order(items@, children@);
            let n = items@.len() as int;
            if unparted(items@, 0, n) {
                lemma_unparted_run(items@, 0, n);
                assert(closed_runs(items@, 0).len() == 0);
                assert(runs(items@).len() <= 1);
                lemma_elements_mirror(items@, 0, n, children@);
            }
        },
        None => {},
    }
}

/// A glyph is copied as it is.
pub proof fn law_glyph_is_copied(icon: &Option<Icon>, r: Option<Icon>)
    requires
        call_ensures(clone_icon, (icon,), r),
    ensures
        r == *icon,
{
}

} // verus!
