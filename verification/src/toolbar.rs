//! The window toolbar: one list of items per window root. A window that holds a navigation host
//! carries the items on the navigation bar of the page showing; a tabs host carries them on its
//! own bar; a window with neither gets a navigation bar docked across its top.

use crate::menu::{build_ui_menu, clone_icon, menu, Icon, MenuEl, MenuItem, MenuRun};
use crate::split::NavHost;
use vstd::prelude::*;

verus! {

#[derive(Clone, Copy, PartialEq, Eq, Structural, Debug)]
pub enum ToolbarPlacement {
    Automatic,
    Primary,
    Secondary,
    Navigation,
    Principal,
    Bottom,
}

#[derive(Clone, Debug)]
pub struct Segment {
    pub title: String,
    pub icon: Option<Icon>,
}

#[derive(Debug)]
pub enum ToolbarKind {
    Button,
    Toggle { on: bool },
    Label,
    Separator,
    Search,
    Menu { items: Vec<MenuItem> },
    Segmented { segments: Vec<Segment>, selected: usize },
}

#[derive(Debug)]
pub struct ToolbarItem {
    pub id: String,
    pub label: String,
    pub icon: Option<Icon>,
    pub enabled: bool,
    pub action: u64,
    pub placement: ToolbarPlacement,
    pub kind: ToolbarKind,
}

/// A targeted change of the model. Text and suggestions belong to search, which never reaches the
/// bar.
pub enum ToolbarPatch {
    On { item: String, on: bool },
    Selected { item: String, index: usize },
    Enabled { item: String, on: bool },
    Text,
    Suggestions,
}

/// The first item named `id`, from position `from`.
pub open spec fn item_from(items: Seq<ToolbarItem>, id: Seq<char>, from: int) -> Option<int>
    decreases items.len() - from,
{
    if from < 0 || from >= items.len() {
        None
    } else if items[from].id@ == id {
        Some(from)
    } else {
        item_from(items, id, from + 1)
    }
}

/// The first item named `id`.
pub open spec fn item_named(items: Seq<ToolbarItem>, id: Seq<char>) -> Option<int> {
    item_from(items, id, 0)
}

fn find_item(items: &Vec<ToolbarItem>, id: &String) -> (r: Option<usize>)
    ensures
        match r {
            Some(i) => item_named(items@, id@) == Some(i as int) && i < items@.len(),
            None => item_named(items@, id@) is None,
        },
{
    let mut i: usize = 0;
    while i < items.len()
        invariant
            i <= items@.len(),
            item_named(items@, id@) == item_from(items@, id@, i as int),
        decreases items@.len() - i,
    {
        if items[i].id == *id {
            return Some(i);
        }
        i = i + 1;
    }
    None
}

/// The item `patch` changes, as it is afterwards; `None` when it changes nothing.
pub open spec fn patched(items: Seq<ToolbarItem>, patch: ToolbarPatch) -> Option<(int, ToolbarItem)> {
    match patch {
        ToolbarPatch::On { item, on } => match item_named(items, item@) {
            Some(i) => match items[i].kind {
                ToolbarKind::Toggle { on: o } if o != on => Some(
                    (i, ToolbarItem { kind: ToolbarKind::Toggle { on }, ..items[i] }),
                ),
                _ => None,
            },
            None => None,
        },
        ToolbarPatch::Selected { item, index } => match item_named(items, item@) {
            Some(i) => match items[i].kind {
                ToolbarKind::Segmented { segments, selected } if index < segments@.len()
                    && selected != index => Some(
                    (
                        i,
                        ToolbarItem {
                            kind: ToolbarKind::Segmented { segments, selected: index },
                            ..items[i]
                        },
                    ),
                ),
                _ => None,
            },
            None => None,
        },
        ToolbarPatch::Enabled { item, on } => match item_named(items, item@) {
            Some(i) => if items[i].enabled != on {
                Some((i, ToolbarItem { enabled: on, ..items[i] }))
            } else {
                None
            },
            None => None,
        },
        _ => None,
    }
}

/// Apply a targeted patch to the model; whether something changed.
pub fn patch_toolbar_model(items: &mut Vec<ToolbarItem>, patch: &ToolbarPatch) -> (changed: bool)
    ensures
        match patched(old(items)@, *patch) {
            Some((i, item)) => changed && final(items)@ == old(items)@.update(i, item),
            None => !changed && final(items)@ == old(items)@,
        },
{
    match patch {
        ToolbarPatch::On { item, on } => match find_item(items, item) {
            Some(i) => {
                let differs = match &items[i].kind {
                    ToolbarKind::Toggle { on: o } => *o != *on,
                    _ => false,
                };
                if differs {
                    items[i].kind = ToolbarKind::Toggle { on: *on };
                }
                differs
            },
            None => false,
        },
        ToolbarPatch::Selected { item, index } => match find_item(items, item) {
            Some(i) => match &mut items[i].kind {
                ToolbarKind::Segmented { segments, selected } => {
                    if *index < segments.len() && *selected != *index {
                        *selected = *index;
                        true
                    } else {
                        false
                    }
                },
                _ => false,
            },
            None => false,
        },
        ToolbarPatch::Enabled { item, on } => match find_item(items, item) {
            Some(i) => {
                if items[i].enabled != *on {
                    items[i].enabled = *on;
                    true
                } else {
                    false
                }
            },
            None => false,
        },
        _ => false,
    }
}

/// What firing an item reports.
#[derive(Clone, Copy, PartialEq, Eq, Structural, Debug)]
pub enum Fired {
    /// A toggle whose item is gone, or is no toggle any more.
    Nothing,
    /// A button: report the action.
    Action(u64),
    /// A toggle: the model is already flipped; re-place the bar, then report the new state.
    Toggled { action: u64, on: bool },
}

/// Run an item's command: a toggle flips the model first, so that the bar shows the new state
/// before the app confirms it.
pub fn fire_toolbar_item(
    items: &mut Vec<ToolbarItem>,
    action: u64,
    toggle: bool,
    item: &String,
) -> (r: Fired)
    ensures
        !toggle ==> r == Fired::Action(action) && final(items)@ == old(items)@,
        toggle ==> match item_named(old(items)@, item@) {
            Some(i) => match old(items)@[i].kind {
                ToolbarKind::Toggle { on } => r == (Fired::Toggled { action, on: !on })
                    && final(items)@ == old(items)@.update(
                    i,
                    ToolbarItem { kind: ToolbarKind::Toggle { on: !on }, ..old(items)@[i] },
                ),
                _ => r is Nothing && final(items)@ == old(items)@,
            },
            None => r is Nothing && final(items)@ == old(items)@,
        },
{
    if !toggle {
        return Fired::Action(action);
    }
    match find_item(items, item) {
        Some(i) => match &mut items[i].kind {
            ToolbarKind::Toggle { on } => {
                let now = !*on;
                *on = now;
                Fired::Toggled { action, on: now }
            },
            _ => Fired::Nothing,
        },
        None => Fired::Nothing,
    }
}

/// A segment is chosen from its pull-down. Whether the bar is re-placed; the choice is reported
/// either way.
pub fn choose_segment(items: &mut Vec<ToolbarItem>, item: &String, index: usize) -> (changed: bool)
    ensures
        match item_named(old(items)@, item@) {
            Some(i) => match old(items)@[i].kind {
                ToolbarKind::Segmented { segments, selected } => changed && final(items)@ == old(
                    items,
                )@.update(
                    i,
                    ToolbarItem {
                        kind: ToolbarKind::Segmented { segments, selected: index },
                        ..old(items)@[i]
                    },
                ),
                _ => !changed && final(items)@ == old(items)@,
            },
            None => !changed && final(items)@ == old(items)@,
        },
{
    match find_item(items, item) {
        Some(i) => match &mut items[i].kind {
            ToolbarKind::Segmented { segments, selected } => {
                *selected = index;
                true
            },
            _ => false,
        },
        None => false,
    }
}

/// What a control shows: the first of `icons` that resolves to an image, else `word`.
pub struct Face {
    pub icons: Vec<Icon>,
    pub word: String,
}

/// The command of a button or toggle.
#[derive(Clone, Debug)]
pub struct Fire {
    pub action: u64,
    pub toggle: bool,
    pub item: String,
}

pub enum BarWhat {
    /// A fixed space, 16 points wide.
    Space,
    /// A disabled title.
    Text { title: String },
    /// A pull-down.
    Pull { face: Face, title: String, children: Vec<MenuEl> },
    /// A button; `selected` is a toggle's pressed-in look.
    Press { face: Face, selected: Option<bool>, fire: Fire },
}

/// What the bar's overflow shows in a control's place.
pub enum Overflow {
    /// The pull-down's own children under a title and icon.
    Menu { title: String, icon: Option<Icon> },
    /// One entry that runs the same command.
    Action { title: String, enabled: bool, checked: Option<bool>, icon: Option<Icon>, fire: Fire },
}

/// One native bar item.
pub struct BarItem {
    pub what: BarWhat,
    pub enabled: bool,
    /// The accessibility label; a plain text item has none.
    pub label: Option<String>,
    pub overflow: Option<Overflow>,
}

pub open spec fn one_icon(icon: Option<Icon>) -> Seq<Icon> {
    match icon {
        Some(icon) => seq![icon],
        None => Seq::empty(),
    }
}

fn icon_list(icon: &Option<Icon>) -> (r: Vec<Icon>)
    ensures
        r@ == one_icon(*icon),
{
    let mut out: Vec<Icon> = Vec::new();
    match icon {
        Some(icon) => {
            out.push(icon.clone());
        },
        None => {},
    }
    out
}

/// What names a control in the overflow: its label, or for a segmented control without one, the
/// segment in force.
pub open spec fn overflow_title(item: ToolbarItem) -> Seq<char> {
    match item.kind {
        ToolbarKind::Segmented { segments, selected } if item.label@.len() == 0 => if selected
            < segments@.len() {
            segments@[selected as int].title@
        } else {
            Seq::empty()
        },
        _ => item.label@,
    }
}

pub open spec fn is_toggle(item: ToolbarItem) -> bool {
    item.kind is Toggle
}

pub open spec fn fire_of(fire: Fire, item: ToolbarItem) -> bool {
    fire.action == item.action && fire.toggle == is_toggle(item) && fire.item@ == item.id@
}

/// The pull-down row of segment `i`.
pub open spec fn segment_row(item: ToolbarItem, segments: Seq<Segment>, selected: usize, i: int, el:
    MenuEl) -> bool {
    &&& el matches MenuEl::Action { title, enabled, checked, icon, run }
    &&& title@ == segments[i].title@
    &&& enabled == item.enabled
    &&& checked == Some(i == selected)
    &&& icon == segments[i].icon
    &&& run matches MenuRun::Choose { item: id, index, action }
    &&& id@ == item.id@
    &&& index == i
    &&& action == item.action
}

/// The control `item` puts on a bar.
pub open spec fn bar_what(item: ToolbarItem, what: BarWhat) -> bool {
    match item.kind {
        ToolbarKind::Search => false,
        ToolbarKind::Separator => what is Space,
        ToolbarKind::Label => what matches BarWhat::Text { title } && title@ == item.label@,
        ToolbarKind::Menu { items } => what matches BarWhat::Pull { face, title, children }
            && face.icons@ == one_icon(item.icon) && face.word@ == item.label@ && title@.len() == 0
            && menu(items@, children@),
        ToolbarKind::Segmented { segments, selected } => what matches BarWhat::Pull {
            face,
            title,
            children,
        } && face.icons@ == one_icon(item.icon) + (if selected < segments@.len() {
            one_icon(segments@[selected as int].icon)
        } else {
            Seq::empty()
        }) && face.word@ == (if selected < segments@.len() {
            segments@[selected as int].title@
        } else {
            item.label@
        }) && title@ == item.label@ && children@.len() == segments@.len() && forall|i: int|
            0 <= i < segments@.len() ==> segment_row(
                item,
                segments@,
                selected,
                i,
                #[trigger] children@[i],
            ),
        ToolbarKind::Button => what matches BarWhat::Press { face, selected, fire } && face.icons@
            == one_icon(item.icon) && face.word@ == item.label@ && selected is None && fire_of(
            fire,
            item,
        ),
        ToolbarKind::Toggle { on } => what matches BarWhat::Press { face, selected, fire }
            && face.icons@ == one_icon(item.icon) && face.word@ == item.label@ && selected == Some(
            on,
        ) && fire_of(fire, item),
    }
}

/// What the overflow shows for `item`: nothing nameless; a pull-down keeps its children under the
/// title and icon; everything else runs the command the control runs, a toggle checked.
pub open spec fn overflow_of(item: ToolbarItem, overflow: Option<Overflow>) -> bool {
    if overflow_title(item).len() == 0 {
        overflow is None
    } else if item.kind is Menu || item.kind is Segmented {
        overflow matches Some(Overflow::Menu { title, icon }) && title@ == overflow_title(item)
            && icon == item.icon
    } else {
        overflow matches Some(Overflow::Action { title, enabled, checked, icon, fire }) && title@
            == overflow_title(item) && enabled == item.enabled && checked == (match item.kind {
            ToolbarKind::Toggle { on } => Some(on),
            _ => None,
        }) && icon == item.icon && fire_of(fire, item)
    }
}

/// The whole bar item of `item`. A plain text item is disabled and carries nothing else.
pub open spec fn bar_item(item: ToolbarItem, bar: BarItem) -> bool {
    &&& bar_what(item, bar.what)
    &&& if item.kind is Label {
        !bar.enabled && bar.label is None && bar.overflow is None
    } else {
        &&& bar.enabled == item.enabled
        &&& bar.label matches Some(label)
        &&& label@ == item.label@
        &&& overflow_of(item, bar.overflow)
    }
}

/// The bar items of `items`, in order; search has none.
pub open spec fn bar_items(items: Seq<ToolbarItem>, bars: Seq<BarItem>) -> bool
    decreases items.len(),
{
    if items.len() == 0 {
        bars.len() == 0
    } else if items.last().kind is Search {
        bar_items(items.drop_last(), bars)
    } else {
        bars.len() > 0 && bar_item(items.last(), bars.last()) && bar_items(
            items.drop_last(),
            bars.drop_last(),
        )
    }
}

fn new_fire(item: &ToolbarItem) -> (r: Fire)
    ensures
        fire_of(r, *item),
{
    let toggle = match &item.kind {
        ToolbarKind::Toggle { .. } => true,
        _ => false,
    };
    Fire { action: item.action, toggle, item: item.id.clone() }
}

fn segment_rows(item: &ToolbarItem, segments: &Vec<Segment>, selected: usize) -> (els: Vec<MenuEl>)
    ensures
        els@.len() == segments@.len(),
        forall|i: int|
            0 <= i < segments@.len() ==> segment_row(
                *item,
                segments@,
                selected,
                i,
                #[trigger] els@[i],
            ),
{
    let mut els: Vec<MenuEl> = Vec::new();
    let n: usize = segments.len();
    for i in 0..n
        invariant
            n == segments@.len(),
            els@.len() == i,
            forall|j: int|
                0 <= j < i ==> segment_row(*item, segments@, selected, j, #[trigger] els@[j]),
    {
        els.push(
            MenuEl::Action {
                title: segments[i].title.clone(),
                enabled: item.enabled,
                checked: Some(i == selected),
                icon: clone_icon(&segments[i].icon),
                run: MenuRun::Choose { item: item.id.clone(), index: i, action: item.action },
            },
        );
    }
    els
}

fn empty_string() -> (r: String)
    ensures
        r@ == Seq::<char>::empty(),
{
    proof {
        reveal_strlit("");
    }
    let r = "".to_string();
    proof {
        assert(r@ =~= Seq::<char>::empty());
    }
    r
}

fn overflow_name(item: &ToolbarItem) -> (r: String)
    ensures
        r@ == overflow_title(*item),
{
    match &item.kind {
        ToolbarKind::Segmented { segments, selected } if item.label.as_str().unicode_len() == 0 => {
            if *selected < segments.len() {
                segments[*selected].title.clone()
            } else {
                empty_string()
            }
        },
        _ => item.label.clone(),
    }
}

/// What the bar's overflow shows in an item's place once the width runs out.
pub fn menu_representation(item: &ToolbarItem) -> (r: Option<Overflow>)
    ensures
        overflow_of(*item, r),
{
    let title = overflow_name(item);
    if title.as_str().unicode_len() == 0 {
        return None;
    }
    let checked = match &item.kind {
        ToolbarKind::Menu { .. } => {
            return Some(Overflow::Menu { title, icon: clone_icon(&item.icon) });
        },
        ToolbarKind::Segmented { .. } => {
            return Some(Overflow::Menu { title, icon: clone_icon(&item.icon) });
        },
        ToolbarKind::Toggle { on } => Some(*on),
        _ => None,
    };
    Some(
        Overflow::Action {
            title,
            enabled: item.enabled,
            checked,
            icon: clone_icon(&item.icon),
            fire: new_fire(item),
        },
    )
}

fn build_bar_item(item: &ToolbarItem) -> (r: Option<BarItem>)
    ensures
        match r {
            Some(bar) => bar_item(*item, bar),
            None => item.kind is Search,
        },
        item.kind is Search ==> r is None,
{
    let what = match &item.kind {
        ToolbarKind::Search => {
            return None;
        },
        ToolbarKind::Separator => BarWhat::Space,
        ToolbarKind::Label => {
            return Some(
                BarItem {
                    what: BarWhat::Text { title: item.label.clone() },
                    enabled: false,
                    label: None,
                    overflow: None,
                },
            );
        },
        ToolbarKind::Menu { items } => BarWhat::Pull {
            face: Face { icons: icon_list(&item.icon), word: item.label.clone() },
            title: empty_string(),
            children: build_ui_menu(items),
        },
        ToolbarKind::Segmented { segments, selected } => {
            let mut icons = icon_list(&item.icon);
            let word = if *selected < segments.len() {
                let mut own = icon_list(&segments[*selected].icon);
                icons.append(&mut own);
                segments[*selected].title.clone()
            } else {
                item.label.clone()
            };
            proof {
                assert(icons@ =~= one_icon(item.icon) + (if *selected < segments@.len() {
                    one_icon(segments@[*selected as int].icon)
                } else {
                    Seq::empty()
                }));
            }
            BarWhat::Pull {
                face: Face { icons, word },
                title: item.label.clone(),
                children: segment_rows(item, segments, *selected),
            }
        },
        ToolbarKind::Button => BarWhat::Press {
            face: Face { icons: icon_list(&item.icon), word: item.label.clone() },
            selected: None,
            fire: new_fire(item),
        },
        ToolbarKind::Toggle { on } => BarWhat::Press {
            face: Face { icons: icon_list(&item.icon), word: item.label.clone() },
            selected: Some(*on),
            fire: new_fire(item),
        },
    };
    Some(
        BarItem {
            what,
            enabled: item.enabled,
            label: Some(item.label.clone()),
            overflow: menu_representation(item),
        },
    )
}

/// Fresh bar items for the controls of `items` at `at`, in that order. Built anew for every bar:
/// a bar item belongs to one bar at a time.
pub fn build_toolbar_items(items: &Vec<ToolbarItem>, at: &Vec<usize>) -> (bars: Vec<BarItem>)
    requires
        forall|k: int| 0 <= k < at@.len() ==> #[trigger] at@[k] < items@.len(),
    ensures
        bar_items(picked(items@, at@), bars@),
{
    let mut bars: Vec<BarItem> = Vec::new();
    let n: usize = at.len();
    for k in 0..n
        invariant
            n == at@.len(),
            forall|j: int| 0 <= j < at@.len() ==> #[trigger] at@[j] < items@.len(),
            bar_items(picked(items@, at@).take(k as int), bars@),
    {
        let ghost before = bars@;
        proof {
            let all = picked(items@, at@);
            assert(all.take(k + 1).drop_last() == all.take(k as int));
            assert(all.take(k + 1).last() == items@[at@[k as int] as int]);
        }
        match build_bar_item(&items[at[k]]) {
            Some(bar) => {
                bars.push(bar);
                proof {
                    assert(bars@.drop_last() == before);
                }
            },
            None => {},
        }
    }
    proof {
        assert(picked(items@, at@).take(n as int) == picked(items@, at@));
    }
    bars
}

/// The items at the positions `at`.
pub open spec fn picked(items: Seq<ToolbarItem>, at: Seq<usize>) -> Seq<ToolbarItem> {
    Seq::new(at.len(), |k: int| items[at[k] as int])
}

/// Whether a bar can hold `item`: the sidebar affordance is UIKit's own, search rides the
/// navigation surface, and a separator means nothing on a bar that folds its overflow away.
pub open spec fn is_control(item: ToolbarItem, sidebar_toggle: Seq<char>) -> bool {
    item.id@ != sidebar_toggle && !(item.kind is Separator) && !(item.kind is Search)
}

/// The positions, before `n`, of the controls of `items`.
pub open spec fn controls_before(items: Seq<ToolbarItem>, sidebar_toggle: Seq<char>, n: int) -> Seq<
    usize,
>
    decreases n,
{
    if n <= 0 {
        Seq::empty()
    } else if is_control(items[n - 1], sidebar_toggle) {
        controls_before(items, sidebar_toggle, n - 1).push((n - 1) as usize)
    } else {
        controls_before(items, sidebar_toggle, n - 1)
    }
}

/// The positions of the items a bar can hold, in declaration order.
pub fn bar_controls(items: &Vec<ToolbarItem>, sidebar_toggle: &String) -> (at: Vec<usize>)
    ensures
        at@ == controls_before(items@, sidebar_toggle@, items@.len() as int),
        forall|k: int| 0 <= k < at@.len() ==> #[trigger] at@[k] < items@.len(),
{
    let mut at: Vec<usize> = Vec::new();
    let n: usize = items.len();
    for i in 0..n
        invariant
            n == items@.len(),
            at@ == controls_before(items@, sidebar_toggle@, i as int),
            forall|k: int| 0 <= k < at@.len() ==> #[trigger] at@[k] < i,
    {
        let own = match &items[i].kind {
            ToolbarKind::Separator => false,
            ToolbarKind::Search => false,
            _ => true,
        };
        if own && items[i].id != *sidebar_toggle {
            at.push(i);
        }
    }
    at
}

/// Which placements a slot takes.
#[derive(Clone, Copy, PartialEq, Eq, Structural, Debug)]
pub enum Slot {
    Leading,
    Title,
    Automatic,
    Primary,
    Secondary,
    Bottom,
    /// Automatic and primary together, in declaration order.
    Trailing,
}

pub open spec fn slot_takes(slot: Slot, placement: ToolbarPlacement) -> bool {
    match slot {
        Slot::Leading => placement == ToolbarPlacement::Navigation,
        Slot::Title => placement == ToolbarPlacement::Principal,
        Slot::Automatic => placement == ToolbarPlacement::Automatic,
        Slot::Primary => placement == ToolbarPlacement::Primary,
        Slot::Secondary => placement == ToolbarPlacement::Secondary,
        Slot::Bottom => placement == ToolbarPlacement::Bottom,
        Slot::Trailing => placement == ToolbarPlacement::Automatic || placement
            == ToolbarPlacement::Primary,
    }
}

/// The positions of `at` whose items a slot takes, in order.
pub open spec fn slotted(items: Seq<ToolbarItem>, at: Seq<usize>, slot: Slot) -> Seq<usize>
    decreases at.len(),
{
    if at.len() == 0 {
        at
    } else if slot_takes(slot, items[at.last() as int].placement) {
        slotted(items, at.drop_last(), slot).push(at.last())
    } else {
        slotted(items, at.drop_last(), slot)
    }
}

fn take_slot(items: &Vec<ToolbarItem>, at: &Vec<usize>, slot: Slot) -> (out: Vec<usize>)
    requires
        forall|k: int| 0 <= k < at@.len() ==> #[trigger] at@[k] < items@.len(),
    ensures
        out@ == slotted(items@, at@, slot),
{
    let mut out: Vec<usize> = Vec::new();
    let n: usize = at.len();
    for k in 0..n
        invariant
            n == at@.len(),
            forall|j: int| 0 <= j < at@.len() ==> #[trigger] at@[j] < items@.len(),
            out@ == slotted(items@, at@.take(k as int), slot),
    {
        proof {
            assert(at@.take(k + 1).drop_last() == at@.take(k as int));
        }
        let p = items[at[k]].placement;
        let takes = match slot {
            Slot::Leading => p == ToolbarPlacement::Navigation,
            Slot::Title => p == ToolbarPlacement::Principal,
            Slot::Automatic => p == ToolbarPlacement::Automatic,
            Slot::Primary => p == ToolbarPlacement::Primary,
            Slot::Secondary => p == ToolbarPlacement::Secondary,
            Slot::Bottom => p == ToolbarPlacement::Bottom,
            Slot::Trailing => p == ToolbarPlacement::Automatic || p == ToolbarPlacement::Primary,
        };
        if takes {
            out.push(at[k]);
        }
    }
    proof {
        assert(at@.take(n as int) == at@);
    }
    out
}

/// One page's chrome: positions of items, slot by slot. The leading items stand beside the back
/// button, never in its place. Only the first title item counts.
pub struct Chrome {
    pub leading: Vec<usize>,
    pub title: Option<usize>,
    pub automatic: Vec<usize>,
    pub primary: Vec<usize>,
    pub secondary: Vec<usize>,
    pub bottom: Vec<usize>,
}

/// Split the controls at `at` across a page's slots.
pub fn apply_chrome(items: &Vec<ToolbarItem>, at: &Vec<usize>) -> (r: Chrome)
    requires
        forall|k: int| 0 <= k < at@.len() ==> #[trigger] at@[k] < items@.len(),
    ensures
        r.leading@ == slotted(items@, at@, Slot::Leading),
        r.title == (if slotted(items@, at@, Slot::Title).len() > 0 {
            Some(slotted(items@, at@, Slot::Title)[0])
        } else {
            None
        }),
        r.automatic@ == slotted(items@, at@, Slot::Automatic),
        r.primary@ == slotted(items@, at@, Slot::Primary),
        r.secondary@ == slotted(items@, at@, Slot::Secondary),
        r.bottom@ == slotted(items@, at@, Slot::Bottom),
{
    let principal = take_slot(items, at, Slot::Title);
    let title = if principal.len() > 0 {
        Some(principal[0])
    } else {
        None
    };
    Chrome {
        leading: take_slot(items, at, Slot::Leading),
        title,
        automatic: take_slot(items, at, Slot::Automatic),
        primary: take_slot(items, at, Slot::Primary),
        secondary: take_slot(items, at, Slot::Secondary),
        bottom: take_slot(items, at, Slot::Bottom),
    }
}

/// The trailing items of a bar that draws plain ones only, in the order it takes them: rightmost
/// first, so that the first declared ends up leftmost.
pub fn flat_trailing(items: &Vec<ToolbarItem>, at: &Vec<usize>) -> (out: Vec<usize>)
    requires
        forall|k: int| 0 <= k < at@.len() ==> #[trigger] at@[k] < items@.len(),
    ensures
        out@ == (slotted(items@, at@, Slot::Trailing) + slotted(
            items@,
            at@,
            Slot::Secondary,
        )).reverse(),
{
    let mut flat = take_slot(items, at, Slot::Trailing);
    let mut rest = take_slot(items, at, Slot::Secondary);
    flat.append(&mut rest);
    let mut out: Vec<usize> = Vec::new();
    let n: usize = flat.len();
    for k in 0..n
        invariant
            n == flat@.len(),
            out@ == flat@.reverse().take(k as int),
    {
        out.push(flat[n - 1 - k]);
        proof {
            assert(flat@.reverse()[k as int] == flat@[n - 1 - k]);
            assert(flat@.reverse().take(k as int).push(flat@[n - 1 - k]) == flat@.reverse().take(
                k + 1,
            ));
        }
    }
    proof {
        assert(flat@.reverse().take(n as int) == flat@.reverse());
    }
    out
}

/// A group of trailing items.
pub enum Group {
    /// One item, which a crowded bar may fold away.
    Optional(usize),
    /// Items that are never folded away.
    Fixed(Vec<usize>),
}

/// `groups` are optional ones, one for each position of `at`, in order.
pub open spec fn optionals(groups: Seq<Group>, at: Seq<usize>) -> bool {
    &&& groups.len() == at.len()
    &&& forall|k: int| 0 <= k < at.len() ==> #[trigger] groups[k] == Group::Optional(at[k])
}

/// `groups` are the trailing groups of these items: an optional one for each automatic item, one
/// fixed group of all primary items if there are any, and an optional one for each secondary item.
pub open spec fn grouped(
    groups: Seq<Group>,
    automatic: Seq<usize>,
    primary: Seq<usize>,
    secondary: Seq<usize>,
) -> bool {
    let first = automatic.len() as int;
    let rest = first + if primary.len() > 0 {
        1int
    } else {
        0int
    };
    &&& groups.len() == rest + secondary.len()
    &&& optionals(groups.take(first), automatic)
    &&& primary.len() > 0 ==> (groups[first] matches Group::Fixed(items) && items@ == primary)
    &&& optionals(groups.skip(rest), secondary)
}

fn push_optionals(groups: &mut Vec<Group>, at: &Vec<usize>)
    ensures
        final(groups)@.len() == old(groups)@.len() + at@.len(),
        final(groups)@.take(old(groups)@.len() as int) == old(groups)@,
        optionals(final(groups)@.skip(old(groups)@.len() as int), at@),
{
    let n: usize = at.len();
    for k in 0..n
        invariant
            n == at@.len(),
            groups@.len() == old(groups)@.len() + k,
            groups@.take(old(groups)@.len() as int) == old(groups)@,
            forall|j: int|
                0 <= j < k ==> #[trigger] groups@[old(groups)@.len() + j] == Group::Optional(at@[j]),
    {
        let ghost before = groups@;
        groups.push(Group::Optional(at[k]));
        proof {
            assert(groups@.take(old(groups)@.len() as int) =~= before.take(
                old(groups)@.len() as int,
            ));
        }
    }
    proof {
        let tail = groups@.skip(old(groups)@.len() as int);
        assert forall|j: int| 0 <= j < at@.len() implies #[trigger] tail[j] == Group::Optional(
            at@[j],
        ) by {
            assert(tail[j] == groups@[old(groups)@.len() + j]);
        }
    }
}

/// The trailing groups of a page's chrome, in the order a bar takes them. An optional group apiece
/// is what lets a bar fold the items away one at a time as the width runs out.
pub fn trailing_groups(c: &Chrome) -> (r: Vec<Group>)
    ensures
        grouped(r@, c.automatic@, c.primary@, c.secondary@),
{
    let mut groups: Vec<Group> = Vec::new();
    push_optionals(&mut groups, &c.automatic);
    let ghost first = c.automatic@.len() as int;
    proof {
        assert(groups@.skip(0) =~= groups@);
        assert(groups@.take(first) =~= groups@);
    }
    let ghost autos = groups@;
    if c.primary.len() > 0 {
        groups.push(Group::Fixed(copied(&c.primary)));
    }
    let ghost both = groups@;
    push_optionals(&mut groups, &c.secondary);
    proof {
        assert(both.take(first) =~= autos);
        assert(groups@.take(both.len() as int).take(first) =~= groups@.take(first));
        if c.primary@.len() > 0 {
            assert(groups@.take(both.len() as int)[first] == both[first]);
        }
    }
    groups
}

fn copied(v: &Vec<usize>) -> (out: Vec<usize>)
    ensures
        out@ == v@,
{
    let mut out: Vec<usize> = Vec::new();
    let n: usize = v.len();
    for i in 0..n
        invariant
            n == v@.len(),
            out@ == v@.take(i as int),
    {
        out.push(v[i]);
        proof {
            assert(v@.take(i as int).push(v@[i as int]) =~= v@.take(i + 1));
        }
    }
    proof {
        assert(v@.take(n as int) =~= v@);
    }
    out
}

/// How a bar takes its trailing items.
pub enum Trailing {
    /// In groups: a navigation bar, which has an overflow.
    Groups(Vec<Group>),
    /// As plain items, rightmost first: a tabs host's shared bar, which draws no groups.
    Plain(Vec<usize>),
}

/// What one navigation item takes. The items of the bottom bar are not among them.
pub struct BarLayout {
    /// Beside the back button; none leaves the bar's own.
    pub left: Vec<usize>,
    pub title: Option<usize>,
    pub trailing: Trailing,
}

/// Lower the controls at `at` onto one navigation item. `groups_ok` says whether its bar draws
/// groups.
pub fn apply_items_styled(items: &Vec<ToolbarItem>, at: &Vec<usize>, groups_ok: bool) -> (r:
    BarLayout)
    requires
        forall|k: int| 0 <= k < at@.len() ==> #[trigger] at@[k] < items@.len(),
    ensures
        r.left@ == slotted(items@, at@, Slot::Leading),
        r.title == (if slotted(items@, at@, Slot::Title).len() > 0 {
            Some(slotted(items@, at@, Slot::Title)[0])
        } else {
            None
        }),
        match r.trailing {
            Trailing::Groups(groups) => groups_ok && grouped(
                groups@,
                slotted(items@, at@, Slot::Automatic),
                slotted(items@, at@, Slot::Primary),
                slotted(items@, at@, Slot::Secondary),
            ),
            Trailing::Plain(flat) => !groups_ok && flat@ == (slotted(items@, at@, Slot::Trailing)
                + slotted(items@, at@, Slot::Secondary)).reverse(),
        },
{
    let chrome = apply_chrome(items, at);
    let trailing = if groups_ok {
        Trailing::Groups(trailing_groups(&chrome))
    } else {
        Trailing::Plain(flat_trailing(items, at))
    };
    BarLayout { left: chrome.leading, title: chrome.title, trailing }
}

/// Where one navigation controller shows its window's bar.
#[derive(Clone, Copy, PartialEq, Eq, Structural, Debug)]
pub enum BarPlacement {
    /// On its navigation bar: the stack that is showing pages.
    NavBar,
    /// Nowhere: an expanded split's sidebar or list column.
    Nowhere,
    /// Not its concern: a stack nested inside another host's page.
    Nested,
}

/// A navigation host as a bar finds it: UIKit's own answer to whether it is collapsed, the view of
/// its outermost controller, and the views that one lies in.
pub struct HostView {
    pub host: NavHost,
    pub native_collapsed: bool,
    pub view: Option<usize>,
    pub ancestors: Vec<usize>,
}

/// Whether `a` lies inside `b`'s view.
pub open spec fn inside(a: HostView, b: HostView) -> bool {
    a.view is Some && b.view is Some && a.view != b.view && a.ancestors@.contains(b.view->0)
}

/// What one host says of `nav`'s bar; `None` when `nav` is no stack of its.
pub open spec fn placement_by(hosts: Seq<HostView>, h: HostView, nav: usize) -> Option<
    BarPlacement,
> {
    match h.host.split {
        None => if h.host.nav != nav {
            None
        } else if exists|j: int| 0 <= j < hosts.len() && inside(h, #[trigger] hosts[j]) {
            Some(BarPlacement::Nested)
        } else {
            Some(BarPlacement::NavBar)
        },
        Some(parts) => if parts.primary_nav == nav || parts.supplementary_nav == Some(nav) {
            Some(
                if h.native_collapsed {
                    BarPlacement::NavBar
                } else {
                    BarPlacement::Nowhere
                },
            )
        } else if h.host.nav == nav {
            Some(BarPlacement::NavBar)
        } else {
            None
        },
    }
}

/// The first host, from `from`, with a say; a controller of no host shows the bar.
pub open spec fn placement_from(hosts: Seq<HostView>, nav: usize, from: int) -> BarPlacement
    decreases hosts.len() - from,
{
    if from < 0 || from >= hosts.len() {
        BarPlacement::NavBar
    } else {
        match placement_by(hosts, hosts[from], nav) {
            Some(p) => p,
            None => placement_from(hosts, nav, from + 1),
        }
    }
}

fn contains(v: &Vec<usize>, x: usize) -> (r: bool)
    ensures
        r == v@.contains(x),
{
    let n: usize = v.len();
    for i in 0..n
        invariant
            n == v@.len(),
            forall|j: int| 0 <= j < i ==> v@[j] != x,
    {
        if v[i] == x {
            return true;
        }
    }
    false
}

fn nested_in_any(hosts: &Vec<HostView>, h: &HostView) -> (r: bool)
    ensures
        r == exists|j: int| 0 <= j < hosts@.len() && inside(*h, #[trigger] hosts@[j]),
{
    let n: usize = hosts.len();
    for j in 0..n
        invariant
            n == hosts@.len(),
            forall|k: int| 0 <= k < j ==> !inside(*h, #[trigger] hosts@[k]),
    {
        match (h.view, hosts[j].view) {
            (Some(a), Some(b)) => {
                if a != b && contains(&h.ancestors, b) {
                    proof {
                        assert(inside(*h, hosts@[j as int]));
                    }
                    return true;
                }
            },
            _ => {},
        }
    }
    false
}

/// Where `nav` shows its window's bar.
pub fn bar_placement(hosts: &Vec<HostView>, nav: usize) -> (r: BarPlacement)
    ensures
        r == placement_from(hosts@, nav, 0),
{
    let mut i: usize = 0;
    while i < hosts.len()
        invariant
            i <= hosts@.len(),
            placement_from(hosts@, nav, 0) == placement_from(hosts@, nav, i as int),
        decreases hosts@.len() - i,
    {
        let h = &hosts[i];
        match h.host.split {
            None => {
                if h.host.nav == nav {
                    if nested_in_any(hosts, h) {
                        return BarPlacement::Nested;
                    }
                    return BarPlacement::NavBar;
                }
            },
            Some(parts) => {
                let column = parts.primary_nav == nav || match parts.supplementary_nav {
                    Some(snav) => snav == nav,
                    None => false,
                };
                if column {
                    if h.native_collapsed {
                        return BarPlacement::NavBar;
                    }
                    return BarPlacement::Nowhere;
                }
                if h.host.nav == nav {
                    return BarPlacement::NavBar;
                }
            },
        }
        i = i + 1;
    }
    BarPlacement::NavBar
}

/// Whether a host lies under a window root.
pub open spec fn under(h: HostView, root: usize) -> bool {
    h.view is Some && (h.view == Some(root) || h.ancestors@.contains(root))
}

/// The stacks of one host: the detail's, the sidebar's, and the list's.
pub open spec fn stacks_of(h: HostView) -> Seq<usize> {
    match h.host.split {
        None => seq![h.host.nav],
        Some(parts) => seq![h.host.nav, parts.primary_nav] + crate::split::one(
            parts.supplementary_nav,
        ),
    }
}

pub open spec fn navs_under(hosts: Seq<HostView>, root: usize) -> Seq<usize>
    decreases hosts.len(),
{
    if hosts.len() == 0 {
        Seq::empty()
    } else if under(hosts.last(), root) {
        navs_under(hosts.drop_last(), root) + stacks_of(hosts.last())
    } else {
        navs_under(hosts.drop_last(), root)
    }
}

/// Every navigation controller of every host under a window root.
pub fn toolbar_navs_under(hosts: &Vec<HostView>, root: usize) -> (out: Vec<usize>)
    ensures
        out@ == navs_under(hosts@, root),
{
    let mut out: Vec<usize> = Vec::new();
    let n: usize = hosts.len();
    for i in 0..n
        invariant
            n == hosts@.len(),
            out@ == navs_under(hosts@.take(i as int), root),
    {
        proof {
            assert(hosts@.take(i + 1).drop_last() == hosts@.take(i as int));
        }
        let ghost before = out@;
        let h = &hosts[i];
        let here = match h.view {
            Some(v) => v == root || contains(&h.ancestors, root),
            None => false,
        };
        if here {
            out.push(h.host.nav);
            match h.host.split {
                None => {},
                Some(parts) => {
                    out.push(parts.primary_nav);
                    match parts.supplementary_nav {
                        Some(snav) => {
                            out.push(snav);
                        },
                        None => {},
                    }
                },
            }
            proof {
                assert(out@ =~= before + stacks_of(hosts@[i as int]));
            }
        }
    }
    proof {
        assert(hosts@.take(n as int) == hosts@);
    }
    out
}

/// One window's toolbar: the model as the app last set it, and the bar docked at the window's top
/// while nothing else carries the items.
pub struct WindowToolbar {
    pub root: usize,
    pub items: Vec<ToolbarItem>,
    pub docked: Option<usize>,
}

/// Where a window's items go.
pub enum Place {
    /// The window has no toolbar.
    Gone,
    /// On the top page of the navigation controller the selected tab shows, as groups.
    TabPage,
    /// On the tabs host's own bar, flat.
    TabBar,
    /// On a bar of the window's own; built when there is none yet.
    Dock,
    /// On every page of these stacks, each where [`bar_placement`] says.
    Pages(Vec<usize>),
}

/// What re-placing a bar asks for: the docked bar to take away, if any, and where the items go.
pub struct Reapply {
    pub undock: Option<usize>,
    pub place: Place,
}

/// The adaptive tabs host under a window root, as a bar finds it.
#[derive(Clone, Copy, PartialEq, Eq, Structural, Debug)]
pub enum TabsChrome {
    /// The tab in front holds, or composes, a navigation controller with a page on top.
    Page,
    /// It does not.
    Bare,
}

/// The stacks of `navs` that show their window's bar or have a say in it, in order.
pub open spec fn not_nested(hosts: Seq<HostView>, navs: Seq<usize>) -> Seq<usize>
    decreases navs.len(),
{
    if navs.len() == 0 {
        navs
    } else if placement_from(hosts, navs.last(), 0) == BarPlacement::Nested {
        not_nested(hosts, navs.drop_last())
    } else {
        not_nested(hosts, navs.drop_last()).push(navs.last())
    }
}

impl Chrome {
    /// Nothing in any slot.
    pub open spec fn bare(self) -> bool {
        self.leading@.len() == 0 && self.title is None && self.automatic@.len() == 0
            && self.primary@.len() == 0 && self.secondary@.len() == 0 && self.bottom@.len() == 0
    }
}

/// What clearing a window's bar asks for.
pub struct Clear {
    /// The tabs host under the root, whose item sheds the window's items as a page does.
    pub tabs: Option<TabsChrome>,
    /// The stacks whose every page sheds the window's items, and whose bottom bar hides.
    pub navs: Vec<usize>,
    /// What each of them is left with.
    pub chrome: Chrome,
}

/// Take a window's bar off every page under it. A stack nested inside another host's page never had
/// the bar, and keeps what it has.
pub fn clear_window_toolbar(hosts: &Vec<HostView>, root: usize, tabs: Option<TabsChrome>) -> (r:
    Clear)
    ensures
        r.tabs == tabs,
        r.navs@ == not_nested(hosts@, navs_under(hosts@, root)),
        r.chrome.bare(),
{
    let all = toolbar_navs_under(hosts, root);
    let mut navs: Vec<usize> = Vec::new();
    let n: usize = all.len();
    for i in 0..n
        invariant
            n == all@.len(),
            navs@ == not_nested(hosts@, all@.take(i as int)),
    {
        proof {
            assert(all@.take(i + 1).drop_last() == all@.take(i as int));
        }
        if bar_placement(hosts, all[i]) != BarPlacement::Nested {
            navs.push(all[i]);
        }
    }
    proof {
        assert(all@.take(n as int) == all@);
    }
    let chrome = Chrome {
        leading: Vec::new(),
        title: None,
        automatic: Vec::new(),
        primary: Vec::new(),
        secondary: Vec::new(),
        bottom: Vec::new(),
    };
    Clear { tabs, navs, chrome }
}

/// The toolbars of every window, one per root.
pub struct Toolbars {
    pub bars: Vec<WindowToolbar>,
}

/// The position, from `from`, of `root`'s toolbar.
pub open spec fn bar_from(bars: Seq<WindowToolbar>, root: usize, from: int) -> Option<int>
    decreases bars.len() - from,
{
    if from < 0 || from >= bars.len() {
        None
    } else if bars[from].root == root {
        Some(from)
    } else {
        bar_from(bars, root, from + 1)
    }
}

impl Toolbars {
    /// One toolbar per root.
    pub open spec fn wf(self) -> bool {
        forall|i: int, j: int|
            0 <= i < j < self.bars@.len() ==> (#[trigger] self.bars@[i]).root != (
            #[trigger] self.bars@[j]).root
    }

    /// `root`'s toolbar.
    pub open spec fn at(self, root: usize) -> Option<int> {
        bar_from(self.bars@, root, 0)
    }

    pub fn new() -> (r: Toolbars)
        ensures
            r.wf(),
            r.bars@.len() == 0,
    {
        Toolbars { bars: Vec::new() }
    }

    pub fn find(&self, root: usize) -> (r: Option<usize>)
        ensures
            match r {
                Some(i) => self.at(root) == Some(i as int) && i < self.bars@.len()
                    && self.bars@[i as int].root == root,
                None => self.at(root) is None && forall|i: int|
                    0 <= i < self.bars@.len() ==> (#[trigger] self.bars@[i]).root != root,
            },
    {
        let mut i: usize = 0;
        while i < self.bars.len()
            invariant
                i <= self.bars@.len(),
                self.at(root) == bar_from(self.bars@, root, i as int),
                forall|j: int| 0 <= j < i ==> (#[trigger] self.bars@[j]).root != root,
            decreases self.bars@.len() - i,
        {
            if self.bars[i].root == root {
                return Some(i);
            }
            i = i + 1;
        }
        None
    }

    /// The bar a window docks at its top, if it has one.
    pub fn docked(&self, root: usize) -> (r: Option<usize>)
        ensures
            r == (match self.at(root) {
                Some(i) => self.bars@[i].docked,
                None => None,
            }),
    {
        match self.find(root) {
            Some(i) => self.bars[i].docked,
            None => None,
        }
    }

    /// The docked bar, taken: the caller removes it and has the window lay out again.
    pub fn undock(&mut self, root: usize) -> (r: Option<usize>)
        requires
            old(self).wf(),
        ensures
            final(self).wf(),
            match old(self).at(root) {
                Some(i) => r == old(self).bars@[i].docked && final(self).bars@ == old(
                    self,
                ).bars@.update(i, WindowToolbar { docked: None, ..old(self).bars@[i] }),
                None => r is None && final(self).bars@ == old(self).bars@,
            },
    {
        match self.find(root) {
            Some(i) => {
                let bar = self.bars[i].docked;
                self.bars[i].docked = None;
                bar
            },
            None => None,
        }
    }

    /// The bar docked for `root` is `bar`.
    pub fn dock(&mut self, root: usize, bar: usize)
        requires
            old(self).wf(),
        ensures
            final(self).wf(),
            match old(self).at(root) {
                Some(i) => final(self).bars@ == old(self).bars@.update(
                    i,
                    WindowToolbar { docked: Some(bar), ..old(self).bars@[i] },
                ),
                None => final(self).bars@ == old(self).bars@,
            },
    {
        match self.find(root) {
            Some(i) => {
                self.bars[i].docked = Some(bar);
            },
            None => {},
        }
    }

    /// Re-place a window's bar: after a model change, and after a collapse or expand. `tabs` is
    /// the adaptive tabs host under the root, `navs` the stacks of its navigation hosts.
    pub fn reapply(&mut self, root: usize, tabs: Option<TabsChrome>, navs: Vec<usize>) -> (r:
        Reapply)
        requires
            old(self).wf(),
        ensures
            final(self).wf(),
            match old(self).at(root) {
                None => r.place is Gone && r.undock is None && final(self).bars@ == old(self).bars@,
                Some(i) => {
                    let docks = tabs is None && navs@.len() == 0;
                    &&& r.undock == if docks {
                        None
                    } else {
                        old(self).bars@[i].docked
                    }
                    &&& final(self).bars@ == if docks {
                        old(self).bars@
                    } else {
                        old(self).bars@.update(
                            i,
                            WindowToolbar { docked: None, ..old(self).bars@[i] },
                        )
                    }
                    &&& match tabs {
                        Some(TabsChrome::Page) => r.place is TabPage,
                        Some(TabsChrome::Bare) => r.place is TabBar,
                        None => if navs@.len() == 0 {
                            r.place is Dock
                        } else {
                            r.place == Place::Pages(navs)
                        },
                    }
                },
            },
    {
        if self.find(root).is_none() {
            return Reapply { undock: None, place: Place::Gone };
        }
        match tabs {
            Some(TabsChrome::Page) => Reapply { undock: self.undock(root), place: Place::TabPage },
            Some(TabsChrome::Bare) => Reapply { undock: self.undock(root), place: Place::TabBar },
            None => {
                if navs.len() == 0 {
                    Reapply { undock: None, place: Place::Dock }
                } else {
                    Reapply { undock: self.undock(root), place: Place::Pages(navs) }
                }
            },
        }
    }

    /// A page shows on a stack that [`bar_placement`] placed: the docked bar to take away, and
    /// whether the page takes the window's items. `None` leaves the page alone.
    pub fn page_takes(&mut self, root: usize, placement: BarPlacement) -> (r: Option<
        (Option<usize>, bool),
    >)
        requires
            old(self).wf(),
        ensures
            final(self).wf(),
            match old(self).at(root) {
                Some(i) if placement != BarPlacement::Nested => {
                    &&& r == Some((old(self).bars@[i].docked, placement == BarPlacement::NavBar))
                    &&& final(self).bars@ == old(self).bars@.update(
                        i,
                        WindowToolbar { docked: None, ..old(self).bars@[i] },
                    )
                },
                _ => r is None && final(self).bars@ == old(self).bars@,
            },
    {
        if placement == BarPlacement::Nested || self.find(root).is_none() {
            return None;
        }
        let undock = self.undock(root);
        Some((undock, placement == BarPlacement::NavBar))
    }

    /// Set a window's items: the same docked bar is filled afresh when they are re-placed. An empty
    /// list ends the bar, and [`clear_window_toolbar`] says which pages shed it. Returns the docked
    /// bar to take away, and whether to re-place.
    pub fn set_toolbar(&mut self, root: usize, items: Vec<ToolbarItem>) -> (r: (Option<usize>, bool))
        requires
            old(self).wf(),
        ensures
            final(self).wf(),
            items@.len() == 0 ==> {
                &&& !r.1
                &&& match old(self).at(root) {
                    Some(i) => r.0 == old(self).bars@[i].docked && final(self).bars@ == old(
                        self,
                    ).bars@.remove(i),
                    None => r.0 is None && final(self).bars@ == old(self).bars@,
                }
            },
            items@.len() > 0 ==> {
                &&& r == (None::<usize>, true)
                &&& match old(self).at(root) {
                    Some(i) => final(self).bars@ == old(self).bars@.update(
                        i,
                        WindowToolbar { root, items, docked: old(self).bars@[i].docked },
                    ),
                    None => final(self).bars@ == old(self).bars@.push(
                        WindowToolbar { root, items, docked: None },
                    ),
                }
            },
    {
        let found = self.find(root);
        if items.len() == 0 {
            return match found {
                Some(i) => {
                    let gone = self.bars.remove(i);
                    proof {
                        assert forall|a: int, b: int| 0 <= a < b < self.bars@.len() implies (
                        #[trigger] self.bars@[a]).root != (#[trigger] self.bars@[b]).root by {
                            let a0 = if a < i {
                                a
                            } else {
                                a + 1
                            };
                            let b0 = if b < i {
                                b
                            } else {
                                b + 1
                            };
                            assert(old(self).bars@[a0].root != old(self).bars@[b0].root);
                        }
                    }
                    (gone.docked, false)
                },
                None => (None, false),
            };
        }
        match found {
            Some(i) => {
                let docked = self.bars[i].docked;
                self.bars[i] = WindowToolbar { root, items, docked };
            },
            None => {
                self.bars.push(WindowToolbar { root, items, docked: None });
            },
        }
        (None, true)
    }

    /// Apply a targeted patch; whether to re-place the bar.
    pub fn update_toolbar(&mut self, root: usize, patch: &ToolbarPatch) -> (changed: bool)
        requires
            old(self).wf(),
        ensures
            final(self).wf(),
            match old(self).at(root) {
                None => !changed && final(self).bars@ == old(self).bars@,
                Some(i) => {
                    let before = old(self).bars@[i];
                    let after = final(self).bars@[i];
                    &&& final(self).bars@ == old(self).bars@.update(i, after)
                    &&& after.root == before.root && after.docked == before.docked
                    &&& match patched(before.items@, *patch) {
                        Some((k, item)) => changed && after.items@ == before.items@.update(k, item),
                        None => !changed && after.items@ == before.items@,
                    }
                },
            },
    {
        match self.find(root) {
            None => false,
            Some(i) => patch_toolbar_model(&mut self.bars[i].items, patch),
        }
    }
}

proof fn lemma_slotted(items: Seq<ToolbarItem>, at: Seq<usize>, slot: Slot, x: usize)
    ensures
        slotted(items, at, slot).contains(x) <==> at.contains(x) && slot_takes(
            slot,
            items[x as int].placement,
        ),
    decreases at.len(),
{
    if at.len() > 0 {
        let front = at.drop_last();
        lemma_slotted(items, front, slot, x);
        assert(at == front.push(at.last()));
        assert(at.contains(x) <==> front.contains(x) || x == at.last()) by {
            if front.contains(x) {
                let i = choose|i: int| 0 <= i < front.len() && front[i] == x;
                assert(at[i] == x);
            }
            assert(at[at.len() - 1] == at.last());
        }
        let rest = slotted(items, front, slot);
        let full = rest.push(at.last());
        assert(full.contains(x) <==> rest.contains(x) || x == at.last()) by {
            if rest.contains(x) {
                let i = choose|i: int| 0 <= i < rest.len() && rest[i] == x;
                assert(full[i] == x);
            }
            assert(full[full.len() - 1] == at.last());
        }
    }
}

/// The six slots of a page.
pub open spec fn page_slot(k: int) -> Slot {
    if k == 0 {
        Slot::Leading
    } else if k == 1 {
        Slot::Title
    } else if k == 2 {
        Slot::Automatic
    } else if k == 3 {
        Slot::Primary
    } else if k == 4 {
        Slot::Secondary
    } else {
        Slot::Bottom
    }
}

/// Every control has exactly one slot on a page: none is dropped, none is placed twice.
pub proof fn law_every_control_has_one_slot(items: Seq<ToolbarItem>, at: Seq<usize>, x: usize)
    requires
        at.contains(x),
    ensures
        exists|k: int|
            0 <= k < 6 && slotted(items, at, #[trigger] page_slot(k)).contains(x) && forall|j: int|
                0 <= j < 6 && j != k ==> !slotted(items, at, #[trigger] page_slot(j)).contains(x),
{
    let p = items[x as int].placement;
    assert forall|j: int| 0 <= j < 6 implies slotted(items, at, #[trigger] page_slot(j)).contains(x)
        == slot_takes(page_slot(j), p) by {
        lemma_slotted(items, at, page_slot(j), x);
    }
    let k: int = match p {
        ToolbarPlacement::Navigation => 0,
        ToolbarPlacement::Principal => 1,
        ToolbarPlacement::Automatic => 2,
        ToolbarPlacement::Primary => 3,
        ToolbarPlacement::Secondary => 4,
        ToolbarPlacement::Bottom => 5,
    };
    assert(slot_takes(page_slot(k), p));
    assert(slotted(items, at, page_slot(k)).contains(x));
    assert forall|j: int| 0 <= j < 6 && j != k implies !slotted(
        items,
        at,
        #[trigger] page_slot(j),
    ).contains(x) by {
        assert(!slot_takes(page_slot(j), p));
    }
}

/// An item of the bottom bar is on no navigation item: neither beside the back button, nor the
/// title, nor among the trailing ones, in groups or plain.
pub proof fn law_bottom_items_stay_at_the_bottom(
    items: Seq<ToolbarItem>,
    at: Seq<usize>,
    slot: Slot,
    x: usize,
)
    requires
        slotted(items, at, Slot::Bottom).contains(x),
        slot != Slot::Bottom,
    ensures
        at.contains(x),
        !slotted(items, at, slot).contains(x),
{
    lemma_slotted(items, at, Slot::Bottom, x);
    lemma_slotted(items, at, slot, x);
}

/// Clearing reaches every page that shows the bar: each stack under the root that is no nested one
/// sheds it, and no other stack is touched.
pub proof fn law_clearing_reaches_every_page(hosts: Seq<HostView>, navs: Seq<usize>, nav: usize)
    ensures
        not_nested(hosts, navs).contains(nav) <==> navs.contains(nav) && placement_from(hosts, nav, 0)
            != BarPlacement::Nested,
    decreases navs.len(),
{
    if navs.len() > 0 {
        let front = navs.drop_last();
        law_clearing_reaches_every_page(hosts, front, nav);
        assert(navs.contains(nav) <==> front.contains(nav) || nav == navs.last()) by {
            if front.contains(nav) {
                let i = choose|i: int| 0 <= i < front.len() && front[i] == nav;
                assert(navs[i] == nav);
            }
            assert(navs[navs.len() - 1] == navs.last());
            if navs.contains(nav) {
                let i = choose|i: int| 0 <= i < navs.len() && navs[i] == nav;
                if i < front.len() {
                    assert(front[i] == nav);
                }
            }
        }
        let rest = not_nested(hosts, front);
        let full = rest.push(navs.last());
        assert(full.contains(nav) <==> rest.contains(nav) || nav == navs.last()) by {
            if rest.contains(nav) {
                let i = choose|i: int| 0 <= i < rest.len() && rest[i] == nav;
                assert(full[i] == nav);
            }
            assert(full[full.len() - 1] == navs.last());
        }
    }
}

/// A model that already says what a patch asks for is not touched: applying a patch twice changes
/// the bar once.
pub proof fn law_patch_applies_once(items: Seq<ToolbarItem>, patch: ToolbarPatch)
    ensures
        patched(items, patch) matches Some((i, item)) ==> patched(items.update(i, item), patch) is None,
{
    let after = match patched(items, patch) {
        Some((i, item)) => items.update(i, item),
        None => items,
    };
    let id = match patch {
        ToolbarPatch::On { item, .. } => item@,
        ToolbarPatch::Selected { item, .. } => item@,
        ToolbarPatch::Enabled { item, .. } => item@,
        _ => Seq::empty(),
    };
    lemma_item_found(items, id, 0);
    lemma_same_ids(items, after, id, 0);
}

proof fn lemma_item_found(items: Seq<ToolbarItem>, id: Seq<char>, from: int)
    requires
        0 <= from,
    ensures
        item_from(items, id, from) matches Some(i) ==> from <= i < items.len() && items[i].id@ == id,
    decreases items.len() - from,
{
    if from < items.len() {
        lemma_item_found(items, id, from + 1);
    }
}

proof fn lemma_same_ids(a: Seq<ToolbarItem>, b: Seq<ToolbarItem>, id: Seq<char>, from: int)
    requires
        0 <= from,
        a.len() == b.len(),
        forall|i: int| 0 <= i < a.len() ==> (#[trigger] a[i]).id@ == (#[trigger] b[i]).id@,
    ensures
        item_from(a, id, from) == item_from(b, id, from),
    decreases a.len() - from,
{
    if from < a.len() {
        assert(a[from].id@ == b[from].id@);
        lemma_same_ids(a, b, id, from + 1);
    }
}

proof fn lemma_bar_at(items: Seq<ToolbarItem>, bars: Seq<BarItem>, i: int)
    requires
        bar_items(items, bars),
        forall|k: int| 0 <= k < items.len() ==> !((#[trigger] items[k]).kind is Search),
        0 <= i < items.len(),
    ensures
        bars.len() == items.len(),
        bar_item(items[i], bars[i]),
    decreases items.len(),
{
    let n = items.len() - 1;
    assert(!(items[n].kind is Search));
    let front = items.drop_last();
    assert forall|k: int| 0 <= k < front.len() implies !((#[trigger] front[k]).kind is Search) by {
        assert(front[k] == items[k]);
    }
    if n > 0 {
        lemma_bar_at(front, bars.drop_last(), if i < n {
            i
        } else {
            0
        });
        assert(bars.drop_last().len() == n);
        if i < n {
            assert(bars.drop_last()[i] == bars[i]);
        }
    } else {
        assert(bar_items(front, bars.drop_last()));
    }
}

/// A control on the bar can be used exactly when its item is enabled, and is known by its item's
/// label. A text is neither.
pub proof fn law_bar_control_is_enabled_as_its_item(
    items: &Vec<ToolbarItem>,
    at: &Vec<usize>,
    bars: Vec<BarItem>,
    i: int,
)
    requires
        call_ensures(build_toolbar_items, (items, at), bars),
        forall|k: int| 0 <= k < at@.len() ==> #[trigger] at@[k] < items@.len(),
        forall|k: int| 0 <= k < items@.len() ==> !((#[trigger] items@[k]).kind is Search),
        0 <= i < at@.len(),
    ensures
        bars@.len() == at@.len(),
        ({
            let item = items@[at@[i] as int];
            if item.kind is Label {
                !bars@[i].enabled && bars@[i].label is None && bars@[i].overflow is None
            } else {
                bars@[i].enabled == item.enabled && (bars@[i].label matches Some(label) && label@
                    == item.label@)
            }
        }),
{
    let all = picked(items@, at@);
    assert forall|k: int| 0 <= k < all.len() implies !((#[trigger] all[k]).kind is Search) by {
        assert(at@[k] < items@.len());
    }
    lemma_bar_at(all, bars@, i);
}

/// A control on the bar is what its item is. A button or toggle runs its own item's command, a toggle
/// shown pressed in exactly when it is on; a label is its text, and a separator a space.
pub proof fn law_bar_control_runs_its_item(
    items: &Vec<ToolbarItem>,
    at: &Vec<usize>,
    bars: Vec<BarItem>,
    i: int,
)
    requires
        call_ensures(build_toolbar_items, (items, at), bars),
        forall|k: int| 0 <= k < at@.len() ==> #[trigger] at@[k] < items@.len(),
        forall|k: int| 0 <= k < items@.len() ==> !((#[trigger] items@[k]).kind is Search),
        0 <= i < at@.len(),
    ensures
        ({
            let item = items@[at@[i] as int];
            &&& item.kind is Button || item.kind is Toggle ==> (bars@[i].what matches BarWhat::Press {
                face,
                selected,
                fire,
            } && {
                &&& fire.action == item.action
                &&& fire.item@ == item.id@
                &&& fire.toggle == item.kind is Toggle
                &&& item.kind is Button ==> selected is None
                &&& item.kind matches ToolbarKind::Toggle { on } ==> selected == Some(on)
                &&& face.word@ == item.label@
                &&& item.icon matches Some(icon) ==> face.icons@ == seq![icon]
                &&& item.icon is None ==> face.icons@.len() == 0
            })
            &&& item.kind is Label ==> (bars@[i].what matches BarWhat::Text { title } && title@
                == item.label@)
            &&& item.kind is Separator ==> bars@[i].what is Space
        }),
{
    let all = picked(items@, at@);
    assert forall|k: int| 0 <= k < all.len() implies !((#[trigger] all[k]).kind is Search) by {
        assert(at@[k] < items@.len());
    }
    lemma_bar_at(all, bars@, i);
}

/// A segmented item is a pull-down of its segments: one row each, in order, titled and drawn as the
/// segment, usable as the item, checked exactly at the selection, and choosing that very segment of
/// that very item. It shows the segment in force.
pub proof fn law_segments_are_chosen_from_the_bar(
    items: &Vec<ToolbarItem>,
    at: &Vec<usize>,
    bars: Vec<BarItem>,
    i: int,
    j: int,
)
    requires
        call_ensures(build_toolbar_items, (items, at), bars),
        forall|k: int| 0 <= k < at@.len() ==> #[trigger] at@[k] < items@.len(),
        forall|k: int| 0 <= k < items@.len() ==> !((#[trigger] items@[k]).kind is Search),
        0 <= i < at@.len(),
    ensures
        items@[at@[i] as int].kind matches ToolbarKind::Segmented { segments, selected } ==> {
            let item = items@[at@[i] as int];
            &&& bars@[i].what matches BarWhat::Pull { face, title, children }
            &&& title@ == item.label@
            &&& children@.len() == segments@.len()
            &&& selected < segments@.len() ==> face.word@ == segments@[selected as int].title@
            &&& selected >= segments@.len() ==> face.word@ == item.label@
            &&& item.icon matches Some(icon) ==> face.icons@.len() > 0 && face.icons@[0] == icon
            &&& item.icon is None && selected < segments@.len() ==> (
            segments@[selected as int].icon matches Some(icon) ==> face.icons@ == seq![icon])
            &&& 0 <= j < segments@.len() ==> (children@[j] matches MenuEl::Action {
                title: row,
                enabled,
                checked,
                icon,
                run,
            } && {
                &&& row@ == segments@[j].title@
                &&& enabled == item.enabled
                &&& checked == Some(j == selected)
                &&& icon == segments@[j].icon
                &&& run matches MenuRun::Choose { item: id, index, action }
                &&& id@ == item.id@
                &&& index == j
                &&& action == item.action
            })
        },
{
    let all = picked(items@, at@);
    assert forall|k: int| 0 <= k < all.len() implies !((#[trigger] all[k]).kind is Search) by {
        assert(at@[k] < items@.len());
    }
    lemma_bar_at(all, bars@, i);
    match items@[at@[i] as int].kind {
        ToolbarKind::Segmented { segments, selected } => {
            match bars@[i].what {
                BarWhat::Pull { face, title, children } => {
                    if 0 <= j < segments@.len() {
                        assert(segment_row(
                            items@[at@[i] as int],
                            segments@,
                            selected,
                            j,
                            children@[j],
                        ));
                    }
                    assert(Seq::<Icon>::empty() + one_icon(segments@[selected as int].icon)
                        =~= one_icon(segments@[selected as int].icon));
                },
                _ => {},
            }
        },
        _ => {},
    }
}

/// A menu item is a pull-down of every entry of its menu, in order, under its own face.
pub proof fn law_menus_keep_their_entries_on_the_bar(
    items: &Vec<ToolbarItem>,
    at: &Vec<usize>,
    bars: Vec<BarItem>,
    i: int,
)
    requires
        call_ensures(build_toolbar_items, (items, at), bars),
        forall|k: int| 0 <= k < at@.len() ==> #[trigger] at@[k] < items@.len(),
        forall|k: int| 0 <= k < items@.len() ==> !((#[trigger] items@[k]).kind is Search),
        0 <= i < at@.len(),
    ensures
        items@[at@[i] as int].kind matches ToolbarKind::Menu { items: entries } ==> {
            let item = items@[at@[i] as int];
            &&& bars@[i].what matches BarWhat::Pull { face, title, children }
            &&& face.word@ == item.label@
            &&& item.icon matches Some(icon) ==> face.icons@ == seq![icon]
            &&& item.icon is None ==> face.icons@.len() == 0
            &&& title@.len() == 0
            &&& crate::menu::shown(children@) == crate::menu::declared(
                entries@,
                0,
                entries@.len() as int,
            )
        },
{
    let all = picked(items@, at@);
    assert forall|k: int| 0 <= k < all.len() implies !((#[trigger] all[k]).kind is Search) by {
        assert(at@[k] < items@.len());
    }
    lemma_bar_at(all, bars@, i);
    match items@[at@[i] as int].kind {
        ToolbarKind::Menu { items: entries } => match bars@[i].what {
            BarWhat::Pull { face, title, children } => {
                crate::menu::law_menu_keeps_every_entry_in_order(entries@, children@);
            },
            _ => {},
        },
        _ => {},
    }
}

/// Search is never on the bar, and takes nobody's place there.
pub proof fn law_search_has_no_bar_item(
    items: &Vec<ToolbarItem>,
    alone: &Vec<usize>,
    bars: Vec<BarItem>,
)
    requires
        call_ensures(build_toolbar_items, (items, alone), bars),
        alone@.len() == 1,
        alone@[0] < items@.len(),
        items@[alone@[0] as int].kind is Search,
    ensures
        bars@.len() == 0,
{
    reveal_with_fuel(bar_items, 2);
    assert(picked(items@, alone@).drop_last() =~= Seq::<ToolbarItem>::empty());
}

/// What folds away keeps its command. In the overflow a button or toggle with a label is one entry
/// of that label that runs the same command, usable and checked as the control is; a pull-down keeps
/// its title and icon; and what has no name is not there.
pub proof fn law_overflow_keeps_the_command(item: &ToolbarItem, r: Option<Overflow>)
    requires
        call_ensures(menu_representation, (item,), r),
    ensures
        item.label@.len() == 0 && !(item.kind is Segmented) ==> r is None,
        item.label@.len() > 0 ==> r is Some,
        item.label@.len() > 0 && (item.kind is Menu || item.kind is Segmented) ==> (r matches Some(
            Overflow::Menu { title, icon },
        ) && title@ == item.label@ && icon == item.icon),
        item.label@.len() > 0 && !(item.kind is Menu) && !(item.kind is Segmented) ==> (
        r matches Some(Overflow::Action { title, enabled, checked, icon, fire }) && {
            &&& title@ == item.label@
            &&& enabled == item.enabled
            &&& item.kind matches ToolbarKind::Toggle { on } ==> checked == Some(on)
            &&& !(item.kind is Toggle) ==> checked is None
            &&& icon == item.icon
            &&& fire.action == item.action
            &&& fire.item@ == item.id@
            &&& fire.toggle == item.kind is Toggle
        }),
        item.kind matches ToolbarKind::Segmented { segments, selected } ==> item.label@.len() == 0
            && selected < segments@.len() && segments@[selected as int].title@.len() > 0 ==> (
        r matches Some(Overflow::Menu { title, icon }) && title@ == segments@[selected as int].title@),
{
}

/// The first item of a name is the one that is meant.
proof fn lemma_first_named(items: Seq<ToolbarItem>, id: Seq<char>, i: int, from: int)
    requires
        0 <= from <= i < items.len(),
        items[i].id@ == id,
        forall|k: int| 0 <= k < i ==> (#[trigger] items[k]).id@ != id,
    ensures
        item_from(items, id, from) == Some(i),
    decreases i - from,
{
    if from < i {
        lemma_first_named(items, id, i, from + 1);
    }
}

/// An enabling patch is seen on the bar: the item it names, and no other, has that state afterwards,
/// and the control rebuilt for it can be used exactly then.
pub proof fn law_enabling_patch_reaches_the_bar(
    items: &mut Vec<ToolbarItem>,
    id: String,
    on: bool,
    changed: bool,
    i: int,
    rebuilt: &Vec<ToolbarItem>,
    at: &Vec<usize>,
    bars: Vec<BarItem>,
)
    requires
        call_ensures(
            patch_toolbar_model,
            (items, &ToolbarPatch::Enabled { item: id, on }),
            changed,
        ),
        0 <= i < old(items)@.len(),
        old(items)@[i].id@ == id@,
        forall|k: int| 0 <= k < i ==> (#[trigger] old(items)@[k]).id@ != id@,
        !(old(items)@[i].kind is Search) && !(old(items)@[i].kind is Label),
        final(items)@ == rebuilt@,
        at@ == seq![i as usize],
        call_ensures(build_toolbar_items, (rebuilt, at), bars),
    ensures
        changed <==> old(items)@[i].enabled != on,
        final(items)@ == old(items)@.update(i, final(items)@[i]),
        final(items)@[i].enabled == on,
        final(items)@[i].kind == old(items)@[i].kind,
        final(items)@[i].action == old(items)@[i].action,
        bars@.len() == 1,
        bars@[0].enabled == on,
{
    lemma_first_named(old(items)@, id@, i, 0);
    let all = picked(rebuilt@, at@);
    assert(rebuilt.len() == rebuilt@.len());
    assert(at@.len() == 1 && at@[0] as int == i);
    assert(all.len() == 1 && all[0] == final(items)@[i]);
    lemma_bar_at(all, bars@, 0);
    assert(final(items)@ =~= old(items)@.update(i, final(items)@[i]));
}

/// A state patch turns the toggle it names, and a selection patch the segmented control it names, to
/// just that, and changes nothing else: no other item, and nothing that has no such state.
pub proof fn law_state_patches_reach_their_item(
    a: &mut Vec<ToolbarItem>,
    b: &mut Vec<ToolbarItem>,
    id: String,
    on: bool,
    index: usize,
    turned: bool,
    chosen: bool,
    i: int,
)
    requires
        call_ensures(patch_toolbar_model, (a, &ToolbarPatch::On { item: id, on }), turned),
        call_ensures(patch_toolbar_model, (b, &ToolbarPatch::Selected { item: id, index }), chosen),
        *old(a) == *old(b),
        0 <= i < old(a)@.len(),
        old(a)@[i].id@ == id@,
        forall|k: int| 0 <= k < i ==> (#[trigger] old(a)@[k]).id@ != id@,
    ensures
        old(a)@[i].kind matches ToolbarKind::Toggle { on: was } ==> (turned <==> was != on)
            && final(a)@[i].kind == (ToolbarKind::Toggle { on }),
        !(old(a)@[i].kind is Toggle) ==> !turned && final(a)@ == old(a)@,
        final(a)@ == old(a)@.update(i, final(a)@[i]),
        final(a)@[i].enabled == old(a)@[i].enabled && final(a)@[i].id == old(a)@[i].id,
        old(b)@[i].kind matches ToolbarKind::Segmented { segments, selected } ==> if index
            < segments@.len() {
            (chosen <==> selected != index) && final(b)@[i].kind == (ToolbarKind::Segmented {
                segments,
                selected: index,
            })
        } else {
            !chosen && final(b)@ == old(b)@
        },
        !(old(b)@[i].kind is Segmented) ==> !chosen && final(b)@ == old(b)@,
        final(b)@ == old(b)@.update(i, final(b)@[i]),
{
    lemma_first_named(old(a)@, id@, i, 0);
    assert(final(a)@ =~= old(a)@.update(i, final(a)@[i]));
    assert(final(b)@ =~= old(b)@.update(i, final(b)@[i]));
}

/// A patch of an item that is not there, or of search, changes nothing.
pub proof fn law_patch_of_nobody_changes_nothing(
    items: &mut Vec<ToolbarItem>,
    patch: ToolbarPatch,
    changed: bool,
    id: Seq<char>,
)
    requires
        call_ensures(patch_toolbar_model, (items, &patch), changed),
        forall|k: int| 0 <= k < old(items)@.len() ==> (#[trigger] old(items)@[k]).id@ != id,
        match patch {
            ToolbarPatch::On { item, .. } => item@ == id,
            ToolbarPatch::Selected { item, .. } => item@ == id,
            ToolbarPatch::Enabled { item, .. } => item@ == id,
            _ => true,
        },
    ensures
        !changed,
        final(items)@ == old(items)@,
{
    lemma_item_found(old(items)@, id, 0);
}

/// Firing a button reports its action and changes nothing; firing a toggle turns it over, reports the
/// state it is in then, and so twice is nothing.
pub proof fn law_fired_toggle_turns_over(
    once: &mut Vec<ToolbarItem>,
    twice: &mut Vec<ToolbarItem>,
    plain: &mut Vec<ToolbarItem>,
    action: u64,
    id: String,
    i: int,
    on: bool,
    first: Fired,
    second: Fired,
    button: Fired,
)
    requires
        call_ensures(fire_toolbar_item, (once, action, true, &id), first),
        *final(once) == *old(twice),
        call_ensures(fire_toolbar_item, (twice, action, true, &id), second),
        call_ensures(fire_toolbar_item, (plain, action, false, &id), button),
        0 <= i < old(once)@.len(),
        old(once)@[i].id@ == id@,
        forall|k: int| 0 <= k < i ==> (#[trigger] old(once)@[k]).id@ != id@,
        old(once)@[i].kind == (ToolbarKind::Toggle { on }),
    ensures
        first == (Fired::Toggled { action, on: !on }),
        final(once)@[i].kind == (ToolbarKind::Toggle { on: !on }),
        second == (Fired::Toggled { action, on }),
        final(twice)@ == old(once)@,
        button == Fired::Action(action),
        final(plain)@ == old(plain)@,
{
    lemma_first_named(old(once)@, id@, i, 0);
    lemma_same_ids(old(once)@, final(once)@, id@, 0);
    assert(final(twice)@ =~= old(once)@);
}

/// A segment chosen from its pull-down is the one in force afterwards, and nothing else changes.
pub proof fn law_chosen_segment_is_in_force(
    items: &mut Vec<ToolbarItem>,
    id: String,
    index: usize,
    changed: bool,
    i: int,
)
    requires
        call_ensures(choose_segment, (items, &id, index), changed),
        0 <= i < old(items)@.len(),
        old(items)@[i].id@ == id@,
        forall|k: int| 0 <= k < i ==> (#[trigger] old(items)@[k]).id@ != id@,
    ensures
        old(items)@[i].kind matches ToolbarKind::Segmented { segments, selected } ==> changed
            && final(items)@[i].kind == (ToolbarKind::Segmented { segments, selected: index })
            && final(items)@ == old(items)@.update(i, final(items)@[i]),
        !(old(items)@[i].kind is Segmented) ==> !changed && final(items)@ == old(items)@,
{
    lemma_first_named(old(items)@, id@, i, 0);
    assert(final(items)@ =~= old(items)@.update(i, final(items)@[i]) || final(items)@
        == old(items)@);
}

/// The positions of `at` whose items have a placement, in order.
pub open spec fn placed(items: Seq<ToolbarItem>, at: Seq<usize>, p: ToolbarPlacement) -> Seq<usize> {
    at.filter(|k: usize| items[k as int].placement == p)
}

proof fn lemma_placed(items: Seq<ToolbarItem>, at: Seq<usize>)
    ensures
        slotted(items, at, Slot::Leading) == placed(items, at, ToolbarPlacement::Navigation),
        slotted(items, at, Slot::Title) == placed(items, at, ToolbarPlacement::Principal),
        slotted(items, at, Slot::Automatic) == placed(items, at, ToolbarPlacement::Automatic),
        slotted(items, at, Slot::Primary) == placed(items, at, ToolbarPlacement::Primary),
        slotted(items, at, Slot::Secondary) == placed(items, at, ToolbarPlacement::Secondary),
        slotted(items, at, Slot::Bottom) == placed(items, at, ToolbarPlacement::Bottom),
        slotted(items, at, Slot::Trailing) == at.filter(
            |k: usize|
                items[k as int].placement == ToolbarPlacement::Automatic
                    || items[k as int].placement == ToolbarPlacement::Primary,
        ),
    decreases at.len(),
{
    reveal(Seq::filter);
    if at.len() > 0 {
        lemma_placed(items, at.drop_last());
    }
}

/// Every item goes where it was placed, in the order the items were declared: beside the back button,
/// in the title's place (the first one), among the trailing ones, or on the bottom bar.
pub proof fn law_items_go_where_they_were_placed(
    items: &Vec<ToolbarItem>,
    at: &Vec<usize>,
    c: Chrome,
)
    requires
        call_ensures(apply_chrome, (items, at), c),
    ensures
        c.leading@ == placed(items@, at@, ToolbarPlacement::Navigation),
        c.title == (if placed(items@, at@, ToolbarPlacement::Principal).len() > 0 {
            Some(placed(items@, at@, ToolbarPlacement::Principal)[0])
        } else {
            None
        }),
        c.automatic@ == placed(items@, at@, ToolbarPlacement::Automatic),
        c.primary@ == placed(items@, at@, ToolbarPlacement::Primary),
        c.secondary@ == placed(items@, at@, ToolbarPlacement::Secondary),
        c.bottom@ == placed(items@, at@, ToolbarPlacement::Bottom),
{
    lemma_placed(items@, at@);
}

/// A navigation item takes the navigation items on its left and the first principal one as its title.
/// A bar without groups takes the trailing items rightmost first: read from the left they are the
/// automatic and primary ones as declared, then the secondary ones.
pub proof fn law_flat_bar_reads_as_declared(
    items: &Vec<ToolbarItem>,
    at: &Vec<usize>,
    flat: BarLayout,
    grouped_: BarLayout,
    plain: Vec<usize>,
)
    requires
        call_ensures(apply_items_styled, (items, at, false), flat),
        call_ensures(apply_items_styled, (items, at, true), grouped_),
        call_ensures(flat_trailing, (items, at), plain),
    ensures
        flat.left@ == placed(items@, at@, ToolbarPlacement::Navigation),
        grouped_.left@ == flat.left@,
        grouped_.title == flat.title,
        flat.title == (if placed(items@, at@, ToolbarPlacement::Principal).len() > 0 {
            Some(placed(items@, at@, ToolbarPlacement::Principal)[0])
        } else {
            None
        }),
        flat.trailing matches Trailing::Plain(v) && v@ == plain@,
        grouped_.trailing is Groups,
        plain@.reverse() == at@.filter(
            |k: usize|
                items@[k as int].placement == ToolbarPlacement::Automatic
                    || items@[k as int].placement == ToolbarPlacement::Primary,
        ) + placed(items@, at@, ToolbarPlacement::Secondary),
{
    lemma_placed(items@, at@);
    let whole = at@.filter(
        |k: usize|
            items@[k as int].placement == ToolbarPlacement::Automatic || items@[k as int].placement
                == ToolbarPlacement::Primary,
    ) + placed(items@, at@, ToolbarPlacement::Secondary);
    assert(whole.reverse().reverse() =~= whole);
}

/// A bar with groups folds its automatic and secondary items away one at a time, each in an optional
/// group of its own, and never the primary ones, which ride together between them.
pub proof fn law_primary_items_are_never_folded(
    items: &Vec<ToolbarItem>,
    at: &Vec<usize>,
    layout: BarLayout,
    i: int,
)
    requires
        call_ensures(apply_items_styled, (items, at, true), layout),
    ensures
        ({
            let autos = placed(items@, at@, ToolbarPlacement::Automatic);
            let primes = placed(items@, at@, ToolbarPlacement::Primary);
            let seconds = placed(items@, at@, ToolbarPlacement::Secondary);
            let mid: int = if primes.len() > 0 {
                1
            } else {
                0
            };
            &&& layout.trailing matches Trailing::Groups(g)
            &&& g@.len() == autos.len() + mid + seconds.len()
            &&& 0 <= i < autos.len() ==> g@[i] == Group::Optional(autos[i])
            &&& primes.len() > 0 ==> (g@[autos.len() as int] matches Group::Fixed(all) && all@
                == primes)
            &&& 0 <= i < seconds.len() ==> g@[autos.len() + mid + i] == Group::Optional(seconds[i])
        }),
{
    lemma_placed(items@, at@);
    let autos = placed(items@, at@, ToolbarPlacement::Automatic);
    let primes = placed(items@, at@, ToolbarPlacement::Primary);
    let mid: int = if primes.len() > 0 {
        1
    } else {
        0
    };
    match layout.trailing {
        Trailing::Groups(g) => {
            if 0 <= i < autos.len() {
                assert(g@.take(autos.len() as int)[i] == g@[i]);
            }
            if 0 <= i < placed(items@, at@, ToolbarPlacement::Secondary).len() {
                assert(g@.skip(autos.len() + mid)[i] == g@[autos.len() + mid + i]);
            }
        },
        _ => {},
    }
}

/// The bar holds every item but the separators, search and the sidebar's own toggle, each once and in
/// order.
pub proof fn law_bar_holds_every_control(
    items: &Vec<ToolbarItem>,
    toggle: &String,
    at: Vec<usize>,
    i: int,
    j: int,
)
    requires
        call_ensures(bar_controls, (items, toggle), at),
        0 <= i < items@.len(),
        i <= usize::MAX,
    ensures
        at@.contains(i as usize) <==> !(items@[i].kind is Separator) && !(items@[i].kind is Search)
            && items@[i].id@ != toggle@,
        0 <= j < at@.len() ==> at@[j] < items@.len(),
        0 < j < at@.len() ==> at@[j - 1] < at@[j],
{
    assert(items.len() == items@.len());
    lemma_controls(items@, toggle@, items@.len() as int, i, j);
}

proof fn lemma_controls(items: Seq<ToolbarItem>, toggle: Seq<char>, n: int, i: int, j: int)
    requires
        0 <= n <= items.len() <= usize::MAX,
    ensures
        ({
            let at = controls_before(items, toggle, n);
            &&& 0 <= i < n ==> (at.contains(i as usize) <==> !(items[i].kind is Separator) && !(
            items[i].kind is Search) && items[i].id@ != toggle)
            &&& n <= i <= usize::MAX ==> !at.contains(i as usize)
            &&& 0 <= j < at.len() ==> at[j] < n
            &&& 0 < j < at.len() ==> at[j - 1] < at[j]
        }),
    decreases n,
{
    if n > 0 {
        lemma_controls(items, toggle, n - 1, i, j);
        let before = controls_before(items, toggle, n - 1);
        let at = controls_before(items, toggle, n);
        if before.len() > 0 {
            lemma_controls(items, toggle, n - 1, i, before.len() - 1);
        }
        if is_control(items[n - 1], toggle) {
            assert(at == before.push((n - 1) as usize));
            assert(0 <= i <= usize::MAX ==> (at.contains(i as usize) <==> before.contains(i as usize)
                || i == n - 1)) by {
                if before.contains(i as usize) {
                    let k = choose|k: int| 0 <= k < before.len() && before[k] == i as usize;
                    assert(at[k] == i as usize);
                }
                assert(at[at.len() - 1] == (n - 1) as usize);
                if at.contains(i as usize) {
                    let k = choose|k: int| 0 <= k < at.len() && at[k] == i as usize;
                    if k < before.len() {
                        assert(before[k] == i as usize);
                    }
                }
            }
            if 0 <= j < at.len() && j < before.len() {
                assert(at[j] == before[j]);
            }
            if 0 < j < at.len() {
                assert(at[j - 1] == before[j - 1]);
                lemma_controls(items, toggle, n - 1, i, j - 1);
            }
        }
    }
}

/// Whether `nav` is one of a host's stacks.
pub open spec fn has_stack(h: HostView, nav: usize) -> bool {
    h.host.nav == nav || (h.host.split matches Some(parts) && (parts.primary_nav == nav
        || parts.supplementary_nav == Some(nav)))
}

/// The bar shows on the stack that shows pages. On a plain stack it does, unless the stack lies inside
/// another host's page, whose concern the bar is; on a split it shows on the detail, and on the
/// sidebar and the list only once the columns are one stack; and a stack of no host shows it.
pub proof fn law_bar_shows_where_pages_show(
    hosts: &Vec<HostView>,
    nav: usize,
    i: int,
    r: BarPlacement,
)
    requires
        call_ensures(bar_placement, (hosts, nav), r),
        0 <= i < hosts@.len(),
        has_stack(hosts@[i], nav),
        forall|k: int| 0 <= k < hosts@.len() && k != i ==> !has_stack(#[trigger] hosts@[k], nav),
    ensures
        ({
            let h = hosts@[i];
            &&& h.host.split is None ==> (r == BarPlacement::Nested <==> exists|j: int|
                0 <= j < hosts@.len() && (#[trigger] hosts@[j]).view is Some && h.view is Some
                    && hosts@[j].view != h.view && h.ancestors@.contains(hosts@[j].view->0))
            &&& h.host.split is None ==> r != BarPlacement::Nowhere
            &&& h.host.split matches Some(parts) ==> if parts.primary_nav == nav
                || parts.supplementary_nav == Some(nav) {
                r == if h.native_collapsed {
                    BarPlacement::NavBar
                } else {
                    BarPlacement::Nowhere
                }
            } else {
                r == BarPlacement::NavBar
            }
        }),
{
    lemma_placement_at(hosts@, nav, i, 0);
    let h = hosts@[i];
    if h.host.split is None {
        if exists|j: int| 0 <= j < hosts@.len() && inside(h, #[trigger] hosts@[j]) {
            let j = choose|j: int| 0 <= j < hosts@.len() && inside(h, #[trigger] hosts@[j]);
            assert(hosts@[j].view is Some && hosts@[j].view != h.view);
        }
        if exists|j: int|
            0 <= j < hosts@.len() && (#[trigger] hosts@[j]).view is Some && h.view is Some
                && hosts@[j].view != h.view && h.ancestors@.contains(hosts@[j].view->0) {
            let j = choose|j: int|
                0 <= j < hosts@.len() && (#[trigger] hosts@[j]).view is Some && h.view is Some
                    && hosts@[j].view != h.view && h.ancestors@.contains(hosts@[j].view->0);
            assert(inside(h, hosts@[j]));
        }
    }
}

proof fn lemma_placement_at(hosts: Seq<HostView>, nav: usize, i: int, from: int)
    requires
        0 <= from <= i < hosts.len(),
        has_stack(hosts[i], nav),
        forall|k: int| 0 <= k < hosts.len() && k != i ==> !has_stack(#[trigger] hosts[k], nav),
    ensures
        Some(placement_from(hosts, nav, from)) == placement_by(hosts, hosts[i], nav),
    decreases i - from,
{
    if from < i {
        assert(!has_stack(hosts[from], nav));
        lemma_placement_at(hosts, nav, i, from + 1);
    }
}

/// A stack of no host shows the bar.
pub proof fn law_lone_stack_shows_the_bar(hosts: &Vec<HostView>, nav: usize, r: BarPlacement)
    requires
        call_ensures(bar_placement, (hosts, nav), r),
        forall|k: int| 0 <= k < hosts@.len() ==> !has_stack(#[trigger] hosts@[k], nav),
    ensures
        r == BarPlacement::NavBar,
{
    lemma_no_placement(hosts@, nav, 0);
}

proof fn lemma_no_placement(hosts: Seq<HostView>, nav: usize, from: int)
    requires
        0 <= from,
        forall|k: int| 0 <= k < hosts.len() ==> !has_stack(#[trigger] hosts[k], nav),
    ensures
        placement_from(hosts, nav, from) == BarPlacement::NavBar,
    decreases hosts.len() - from,
{
    if from < hosts.len() {
        assert(!has_stack(hosts[from], nav));
        lemma_no_placement(hosts, nav, from + 1);
    }
}

/// A window's bar concerns every stack of every host that lies under its root, and no other. Clearing
/// the bar leaves each of those bare but the ones inside another host's page.
pub proof fn law_bar_concerns_every_stack_under_its_root(
    hosts: &Vec<HostView>,
    root: usize,
    tabs: Option<TabsChrome>,
    navs: Vec<usize>,
    clear: Clear,
    nav: usize,
    where_: BarPlacement,
)
    requires
        call_ensures(toolbar_navs_under, (hosts, root), navs),
        call_ensures(clear_window_toolbar, (hosts, root, tabs), clear),
        call_ensures(bar_placement, (hosts, nav), where_),
    ensures
        navs@.contains(nav) <==> exists|i: int|
            0 <= i < hosts@.len() && has_stack(#[trigger] hosts@[i], nav) && hosts@[i].view is Some && (
            hosts@[i].view == Some(root) || hosts@[i].ancestors@.contains(root)),
        clear.navs@.contains(nav) <==> navs@.contains(nav) && where_ != BarPlacement::Nested,
        clear.tabs == tabs,
        clear.chrome.leading@.len() == 0 && clear.chrome.title is None && clear.chrome.automatic@.len()
            == 0 && clear.chrome.primary@.len() == 0 && clear.chrome.secondary@.len() == 0
            && clear.chrome.bottom@.len() == 0,
{
    lemma_navs_under(hosts@, root, nav);
    law_clearing_reaches_every_page(hosts@, navs@, nav);
}

proof fn lemma_stacks_of(h: HostView, nav: usize)
    ensures
        stacks_of(h).contains(nav) <==> has_stack(h, nav),
{
    let all = stacks_of(h);
    match h.host.split {
        None => {
            assert(all[0] == h.host.nav);
        },
        Some(parts) => {
            assert(all[0] == h.host.nav);
            assert(all[1] == parts.primary_nav);
            match parts.supplementary_nav {
                Some(snav) => {
                    assert(all[2] == snav);
                },
                None => {},
            }
        },
    }
}

proof fn lemma_navs_under(hosts: Seq<HostView>, root: usize, nav: usize)
    ensures
        navs_under(hosts, root).contains(nav) <==> exists|i: int|
            0 <= i < hosts.len() && has_stack(#[trigger] hosts[i], nav) && hosts[i].view is Some && (
            hosts[i].view == Some(root) || hosts[i].ancestors@.contains(root)),
    decreases hosts.len(),
{
    if hosts.len() > 0 {
        let front = hosts.drop_last();
        let last = hosts.last();
        lemma_navs_under(front, root, nav);
        lemma_stacks_of(last, nav);
        let a = navs_under(front, root);
        let b = stacks_of(last);
        assert((a + b).contains(nav) <==> a.contains(nav) || b.contains(nav)) by {
            if a.contains(nav) {
                let i = choose|i: int| 0 <= i < a.len() && a[i] == nav;
                assert((a + b)[i] == nav);
            }
            if b.contains(nav) {
                let i = choose|i: int| 0 <= i < b.len() && b[i] == nav;
                assert((a + b)[a.len() + i] == nav);
            }
        }
        if exists|i: int|
            0 <= i < front.len() && has_stack(#[trigger] front[i], nav) && front[i].view is Some && (
            front[i].view == Some(root) || front[i].ancestors@.contains(root)) {
            let i = choose|i: int|
                0 <= i < front.len() && has_stack(#[trigger] front[i], nav) && front[i].view is Some
                    && (front[i].view == Some(root) || front[i].ancestors@.contains(root));
            assert(hosts[i] == front[i]);
        }
        if exists|i: int|
            0 <= i < hosts.len() && has_stack(#[trigger] hosts[i], nav) && hosts[i].view is Some && (
            hosts[i].view == Some(root) || hosts[i].ancestors@.contains(root)) {
            let i = choose|i: int|
                0 <= i < hosts.len() && has_stack(#[trigger] hosts[i], nav) && hosts[i].view is Some
                    && (hosts[i].view == Some(root) || hosts[i].ancestors@.contains(root));
            if i < front.len() {
                assert(front[i] == hosts[i]);
            }
        }
        if under(last, root) && has_stack(last, nav) {
            assert(hosts[hosts.len() - 1] == last);
        }
    }
}

proof fn lemma_bar_at_root(bars: Seq<WindowToolbar>, root: usize, i: int, from: int)
    requires
        0 <= from <= i < bars.len(),
        bars[i].root == root,
        forall|k: int| 0 <= k < i ==> (#[trigger] bars[k]).root != root,
    ensures
        bar_from(bars, root, from) == Some(i),
    decreases i - from,
{
    if from < i {
        lemma_bar_at_root(bars, root, i, from + 1);
    }
}

proof fn lemma_no_bar_at(bars: Seq<WindowToolbar>, root: usize, from: int)
    requires
        0 <= from,
        forall|k: int| 0 <= k < bars.len() ==> (#[trigger] bars[k]).root != root,
    ensures
        bar_from(bars, root, from) is None,
    decreases bars.len() - from,
{
    if from < bars.len() {
        lemma_no_bar_at(bars, root, from + 1);
    }
}

/// A window's items, once set, are its bar's: a bar it had keeps its docked one and takes the items,
/// a window without one gets one, and an empty list ends it. No other window's bar changes.
pub proof fn law_window_has_the_items_it_was_given(
    t: &mut Toolbars,
    root: usize,
    items: Vec<ToolbarItem>,
    r: (Option<usize>, bool),
    i: int,
)
    requires
        call_ensures(Toolbars::set_toolbar, (t, root, items), r),
    ensures
        0 <= i < old(t).bars@.len() && old(t).bars@[i].root == root && (forall|k: int|
            0 <= k < i ==> (#[trigger] old(t).bars@[k]).root != root) ==> if items@.len() == 0 {
            r == (old(t).bars@[i].docked, false) && final(t).bars@ == old(t).bars@.remove(i)
        } else {
            &&& r == (None::<usize>, true)
            &&& final(t).bars@[i].items == items
            &&& final(t).bars@[i].root == root
            &&& final(t).bars@[i].docked == old(t).bars@[i].docked
            &&& final(t).bars@ == old(t).bars@.update(i, final(t).bars@[i])
        },
        (forall|k: int| 0 <= k < old(t).bars@.len() ==> (#[trigger] old(t).bars@[k]).root != root)
            ==> if items@.len() == 0 {
            r == (None::<usize>, false) && final(t).bars@ == old(t).bars@
        } else {
            &&& r == (None::<usize>, true)
            &&& final(t).bars@.len() == old(t).bars@.len() + 1
            &&& final(t).bars@.drop_last() == old(t).bars@
            &&& final(t).bars@.last().root == root
            &&& final(t).bars@.last().items == items
            &&& final(t).bars@.last().docked is None
        },
{
    if 0 <= i < old(t).bars@.len() && old(t).bars@[i].root == root && (forall|k: int|
        0 <= k < i ==> (#[trigger] old(t).bars@[k]).root != root) {
        lemma_bar_at_root(old(t).bars@, root, i, 0);
        if items@.len() > 0 {
            assert(final(t).bars@ =~= old(t).bars@.update(i, final(t).bars@[i]));
        }
    }
    if forall|k: int| 0 <= k < old(t).bars@.len() ==> (#[trigger] old(t).bars@[k]).root != root {
        lemma_no_bar_at(old(t).bars@, root, 0);
        if items@.len() > 0 {
            assert(final(t).bars@.drop_last() =~= old(t).bars@);
        }
    }
}

/// A window's items have one place: the page or the bar of its tabs, else the pages of its stacks, else
/// a bar docked in the window; and only the last keeps a docked bar.
pub proof fn law_bar_has_one_place(
    t: &mut Toolbars,
    root: usize,
    tabs: Option<TabsChrome>,
    navs: Vec<usize>,
    r: Reapply,
    i: int,
)
    requires
        call_ensures(Toolbars::reapply, (t, root, tabs, navs), r),
        0 <= i < old(t).bars@.len(),
        old(t).bars@[i].root == root,
        forall|k: int| 0 <= k < i ==> (#[trigger] old(t).bars@[k]).root != root,
    ensures
        tabs == Some(TabsChrome::Page) <==> r.place is TabPage,
        tabs == Some(TabsChrome::Bare) <==> r.place is TabBar,
        tabs is None && navs@.len() == 0 <==> r.place is Dock,
        tabs is None && navs@.len() > 0 ==> r.place == Place::Pages(navs),
        r.place is Dock ==> r.undock is None && final(t).bars@ == old(t).bars@,
        !(r.place is Dock) ==> r.undock == old(t).bars@[i].docked && final(t).bars@[i].docked is None,
        final(t).bars@[i].items == old(t).bars@[i].items,
{
    lemma_bar_at_root(old(t).bars@, root, i, 0);
    match tabs {
        Some(TabsChrome::Page) => {},
        Some(TabsChrome::Bare) => {},
        None => {},
    }
}

/// A page takes its window's items exactly where its stack shows the bar. Once any page has a say, the
/// window's docked bar is taken away; a page inside another host's page has none.
pub proof fn law_page_takes_the_bar_where_it_shows(
    t: &mut Toolbars,
    root: usize,
    placement: BarPlacement,
    r: Option<(Option<usize>, bool)>,
    i: int,
)
    requires
        call_ensures(Toolbars::page_takes, (t, root, placement), r),
        0 <= i < old(t).bars@.len(),
        old(t).bars@[i].root == root,
        forall|k: int| 0 <= k < i ==> (#[trigger] old(t).bars@[k]).root != root,
    ensures
        placement == BarPlacement::Nested ==> r is None && final(t).bars@ == old(t).bars@,
        placement == BarPlacement::NavBar ==> r == Some((old(t).bars@[i].docked, true)),
        placement == BarPlacement::Nowhere ==> r == Some((old(t).bars@[i].docked, false)),
        placement != BarPlacement::Nested ==> final(t).bars@[i].docked is None,
        final(t).bars@[i].items == old(t).bars@[i].items,
{
    lemma_bar_at_root(old(t).bars@, root, i, 0);
}

/// A bar docked for a window is that window's until it is undocked, and undocking hands it back.
pub proof fn law_docked_bar_is_handed_back(
    docked: &mut Toolbars,
    undocked: &mut Toolbars,
    root: usize,
    bar: usize,
    seen: Option<usize>,
    back: Option<usize>,
    i: int,
)
    requires
        call_ensures(Toolbars::dock, (docked, root, bar), ()),
        call_ensures(Toolbars::docked, (&*final(docked), root), seen),
        *final(docked) == *old(undocked),
        call_ensures(Toolbars::undock, (undocked, root), back),
        0 <= i < old(docked).bars@.len(),
        old(docked).bars@[i].root == root,
        forall|k: int| 0 <= k < i ==> (#[trigger] old(docked).bars@[k]).root != root,
    ensures
        seen == Some(bar),
        back == Some(bar),
        final(undocked).bars@[i].docked is None,
        final(undocked).bars@[i].items == old(docked).bars@[i].items,
        final(docked).bars@ == old(docked).bars@.update(i, final(docked).bars@[i]),
        final(undocked).bars@ == old(docked).bars@.update(i, final(undocked).bars@[i]),
{
    lemma_bar_at_root(old(docked).bars@, root, i, 0);
    assert(final(docked).bars@ =~= old(docked).bars@.update(i, final(docked).bars@[i]));
    assert forall|k: int| 0 <= k < i implies (#[trigger] final(docked).bars@[k]).root != root by {
        assert(final(docked).bars@[k] == old(docked).bars@[k]);
    }
    lemma_bar_at_root(final(docked).bars@, root, i, 0);
    assert(final(undocked).bars@ =~= old(docked).bars@.update(i, final(undocked).bars@[i]));
}

/// A patch of a window's bar changes that window's items as a patch of the items would, and nothing
/// else.
pub proof fn law_window_patch_is_its_items_patch(
    t: &mut Toolbars,
    items: &mut Vec<ToolbarItem>,
    root: usize,
    patch: ToolbarPatch,
    changed: bool,
    same: bool,
    i: int,
)
    requires
        call_ensures(Toolbars::update_toolbar, (t, root, &patch), changed),
        call_ensures(patch_toolbar_model, (items, &patch), same),
        0 <= i < old(t).bars@.len(),
        old(t).bars@[i].root == root,
        forall|k: int| 0 <= k < i ==> (#[trigger] old(t).bars@[k]).root != root,
        old(items)@ == old(t).bars@[i].items@,
    ensures
        changed == same,
        final(t).bars@[i].items@ == final(items)@,
        final(t).bars@[i].docked == old(t).bars@[i].docked,
        final(t).bars@ == old(t).bars@.update(i, final(t).bars@[i]),
{
    lemma_bar_at_root(old(t).bars@, root, i, 0);
}

/// Trailing items are grouped as a bar takes them: an optional group for each automatic item, one fixed
/// group of all the primary ones where there are any, and an optional group for each secondary one.
pub proof fn law_trailing_items_are_grouped(c: &Chrome, r: Vec<Group>, i: int)
    requires
        call_ensures(trailing_groups, (c,), r),
    ensures
        ({
            let first = c.automatic@.len() as int;
            let rest = first + if c.primary@.len() > 0 {
                1int
            } else {
                0int
            };
            &&& r@.len() == rest + c.secondary@.len()
            &&& 0 <= i < first ==> r@[i] == Group::Optional(c.automatic@[i])
            &&& c.primary@.len() > 0 ==> (r@[first] matches Group::Fixed(items) && items@
                == c.primary@)
            &&& 0 <= i < c.secondary@.len() ==> r@[rest + i] == Group::Optional(c.secondary@[i])
        }),
{
    let first = c.automatic@.len() as int;
    let rest = first + if c.primary@.len() > 0 {
        1int
    } else {
        0int
    };
    assert(grouped(r@, c.automatic@, c.primary@, c.secondary@));
    if 0 <= i < first {
        assert(r@.take(first)[i] == r@[i]);
    }
    if 0 <= i < c.secondary@.len() {
        assert(r@.skip(rest)[i] == r@[rest + i]);
    }
}

/// No window has a bar at first.
pub proof fn law_no_window_has_a_bar_at_first(t: Toolbars)
    requires
        call_ensures(Toolbars::new, (), t),
    ensures
        t.bars@.len() == 0,
{
}

/// A toggle or a segment of an item that is gone does nothing, and so does a toggle of an item that is
/// none any more.
pub proof fn law_control_of_an_item_gone_does_nothing(
    toggled: &mut Vec<ToolbarItem>,
    chosen: &mut Vec<ToolbarItem>,
    changed: &mut Vec<ToolbarItem>,
    id: String,
    action: u64,
    index: usize,
    i: int,
    gone: Fired,
    segment: bool,
    other: Fired,
)
    requires
        call_ensures(fire_toolbar_item, (toggled, action, true, &id), gone),
        forall|k: int| 0 <= k < old(toggled)@.len() ==> (#[trigger] old(toggled)@[k]).id@ != id@,
        call_ensures(choose_segment, (chosen, &id, index), segment),
        forall|k: int| 0 <= k < old(chosen)@.len() ==> (#[trigger] old(chosen)@[k]).id@ != id@,
        call_ensures(fire_toolbar_item, (changed, action, true, &id), other),
        0 <= i < old(changed)@.len(),
        old(changed)@[i].id@ == id@,
        forall|k: int| 0 <= k < i ==> (#[trigger] old(changed)@[k]).id@ != id@,
        !(old(changed)@[i].kind is Toggle),
    ensures
        gone is Nothing && final(toggled)@ == old(toggled)@,
        !segment && final(chosen)@ == old(chosen)@,
        other is Nothing && final(changed)@ == old(changed)@,
{
    lemma_item_found(old(toggled)@, id@, 0);
    lemma_item_found(old(chosen)@, id@, 0);
    lemma_first_named(old(changed)@, id@, i, 0);
}

} // verus!
