use day_uikit::menu::{
    build_ui_menu, clone_icon, summoned, ui_role_label, ui_role_selector, EditSelector, Icon, MenuEl,
    MenuItem, MenuRole, MenuRun,
};
use day_uikit::split::{NavHost, SplitParts};
use day_uikit::toolbar::{
    apply_chrome, apply_items_styled, bar_controls, bar_placement, build_toolbar_items,
    choose_segment, clear_window_toolbar, fire_toolbar_item, flat_trailing, menu_representation,
    patch_toolbar_model, toolbar_navs_under, trailing_groups, BarItem, BarPlacement, BarWhat, Fired,
    Group, HostView, Overflow, Place, Segment, TabsChrome, ToolbarItem, ToolbarKind, ToolbarPatch,
    ToolbarPlacement, Toolbars, Trailing,
};
use day_uikit::types::NodeId;

fn action(label: &str, action: u64, role: Option<MenuRole>) -> MenuItem {
    MenuItem::Action {
        action,
        label: label.to_string(),
        enabled: true,
        checked: None,
        role,
        icon: None,
    }
}

fn title(el: &MenuEl) -> &str {
    match el {
        MenuEl::Action { title, .. } => title,
        MenuEl::Menu { title, .. } => title,
        MenuEl::Inline { .. } => "inline",
    }
}

fn run(el: &MenuEl) -> &MenuRun {
    match el {
        MenuEl::Action { run, .. } => run,
        _ => panic!("no action"),
    }
}

#[test]
fn role_labels() {
    let all = [
        (MenuRole::Cut, "Cut"),
        (MenuRole::Copy, "Copy"),
        (MenuRole::Paste, "Paste"),
        (MenuRole::SelectAll, "Select All"),
        (MenuRole::Undo, "Undo"),
        (MenuRole::Redo, "Redo"),
        (MenuRole::Delete, "Delete"),
        (MenuRole::About, "About"),
        (MenuRole::Quit, "Quit"),
        (MenuRole::Preferences, "Settings"),
        (MenuRole::Minimize, "Minimize"),
        (MenuRole::CloseWindow, "Close"),
        (MenuRole::Fullscreen, "Full Screen"),
        (MenuRole::NewWindow, "New Window"),
    ];
    for (role, label) in all {
        assert_eq!(ui_role_label(role), label);
    }
    assert_eq!(ui_role_selector(MenuRole::Paste), Some(EditSelector::Paste));
    assert_eq!(ui_role_selector(MenuRole::Undo), None);
}

#[test]
fn a_flat_menu_stays_flat() {
    let items = vec![
        MenuItem::Separator,
        action("", 0, Some(MenuRole::Copy)),
        action("Own", 0, Some(MenuRole::Cut)),
        action("", 9, Some(MenuRole::About)),
        action("", 0, Some(MenuRole::Quit)),
        action("Plain", 0, None),
        MenuItem::Separator,
    ];
    let menu = build_ui_menu(&items);
    let titles: Vec<&str> = menu.iter().map(title).collect();
    assert_eq!(titles, vec!["Copy", "Own", "About", "Quit", "Plain"]);
    assert!(matches!(run(&menu[0]), MenuRun::Send(EditSelector::Copy)));
    assert!(matches!(run(&menu[1]), MenuRun::Send(EditSelector::Cut)));
    assert!(matches!(run(&menu[2]), MenuRun::Dispatch(9)));
    assert!(matches!(run(&menu[3]), MenuRun::Nothing));
    assert!(matches!(run(&menu[4]), MenuRun::Dispatch(0)));
}

#[test]
fn separators_part_a_menu_into_sections() {
    let items = vec![
        action("a", 1, None),
        MenuItem::Separator,
        MenuItem::Separator,
        action("b", 2, None),
        MenuItem::Submenu {
            label: "More".to_string(),
            items: vec![action("c", 3, None), MenuItem::Separator, action("d", 4, None)],
        },
    ];
    let menu = build_ui_menu(&items);
    assert_eq!(menu.len(), 2);
    let MenuEl::Inline { children: second } = &menu[1] else {
        panic!("not a section");
    };
    assert_eq!(title(&second[0]), "b");
    let MenuEl::Menu { title: more, children } = &second[1] else {
        panic!("not a submenu");
    };
    assert_eq!((more.as_str(), children.len()), ("More", 2));
    assert!(build_ui_menu(&Vec::new()).is_empty());
}

fn entries(els: &[MenuEl], out: &mut Vec<String>) {
    for el in els {
        match el {
            MenuEl::Action { title, .. } => out.push(title.clone()),
            MenuEl::Menu { children, .. } => entries(children, out),
            MenuEl::Inline { children } => entries(children, out),
        }
    }
}

#[test]
fn a_menu_keeps_every_entry_in_order() {
    let items = vec![
        action("1", 1, None),
        MenuItem::Submenu { label: "s".to_string(), items: vec![action("2", 2, None)] },
        MenuItem::Separator,
        action("3", 3, None),
    ];
    let mut all = Vec::new();
    entries(&build_ui_menu(&items), &mut all);
    assert_eq!(all, vec!["1", "2", "3"]);
}

#[test]
fn icons_are_cloned() {
    assert!(matches!(clone_icon(&Some(Icon::Symbol(4))), Some(Icon::Symbol(4))));
    let image = Some(Icon::Image("x".to_string()));
    assert!(matches!(clone_icon(&image), Some(Icon::Image(n)) if n == "x"));
    assert!(clone_icon(&None).is_none());
}

fn item(id: &str, placement: ToolbarPlacement, kind: ToolbarKind) -> ToolbarItem {
    ToolbarItem {
        id: id.to_string(),
        label: id.to_uppercase(),
        icon: None,
        enabled: true,
        action: 7,
        placement,
        kind,
    }
}

fn model() -> Vec<ToolbarItem> {
    vec![
        item("go", ToolbarPlacement::Navigation, ToolbarKind::Button),
        item("t", ToolbarPlacement::Principal, ToolbarKind::Label),
        item("on", ToolbarPlacement::Automatic, ToolbarKind::Toggle { on: false }),
        item("-", ToolbarPlacement::Automatic, ToolbarKind::Separator),
        item("find", ToolbarPlacement::Automatic, ToolbarKind::Search),
        item("do", ToolbarPlacement::Primary, ToolbarKind::Button),
        item("menu", ToolbarPlacement::Secondary, ToolbarKind::Menu { items: Vec::new() }),
        item(
            "seg",
            ToolbarPlacement::Bottom,
            ToolbarKind::Segmented {
                segments: vec![
                    Segment { title: "One".to_string(), icon: Some(Icon::Symbol(1)) },
                    Segment { title: "Two".to_string(), icon: None },
                ],
                selected: 0,
            },
        ),
        item("side", ToolbarPlacement::Navigation, ToolbarKind::Button),
        item("t2", ToolbarPlacement::Principal, ToolbarKind::Button),
    ]
}

#[test]
fn every_control_has_one_slot() {
    let items = model();
    let at = bar_controls(&items, &"side".to_string());
    assert_eq!(at, vec![0, 1, 2, 5, 6, 7, 9]);
    let c = apply_chrome(&items, &at);
    assert_eq!((c.leading, c.title, c.automatic), (vec![0], Some(1), vec![2]));
    assert_eq!((c.primary, c.secondary, c.bottom), (vec![5], vec![6], vec![7]));
    assert_eq!(flat_trailing(&items, &at), vec![6, 5, 2]);
    assert_eq!(apply_chrome(&items, &Vec::new()).title, None);
}

fn spelled(groups: &[Group]) -> Vec<(bool, Vec<usize>)> {
    groups
        .iter()
        .map(|g| match g {
            Group::Optional(k) => (false, vec![*k]),
            Group::Fixed(at) => (true, at.clone()),
        })
        .collect()
}

#[test]
fn trailing_items_ride_in_groups() {
    let p = |id: &str, placement| item(id, placement, ToolbarKind::Button);
    let items = vec![
        p("s1", ToolbarPlacement::Secondary),
        p("p1", ToolbarPlacement::Primary),
        p("a1", ToolbarPlacement::Automatic),
        p("b", ToolbarPlacement::Bottom),
        p("p2", ToolbarPlacement::Primary),
        p("a2", ToolbarPlacement::Automatic),
        p("s2", ToolbarPlacement::Secondary),
        p("n", ToolbarPlacement::Navigation),
    ];
    let at: Vec<usize> = (0..items.len()).collect();
    let all = vec![
        (false, vec![2]),
        (false, vec![5]),
        (true, vec![1, 4]),
        (false, vec![0]),
        (false, vec![6]),
    ];
    assert_eq!(spelled(&trailing_groups(&apply_chrome(&items, &at))), all);
    let layout = apply_items_styled(&items, &at, true);
    assert_eq!((layout.left, layout.title), (vec![7], None));
    assert!(matches!(layout.trailing, Trailing::Groups(g) if spelled(&g) == all));
    let plain = apply_items_styled(&items, &at, false);
    assert!(matches!(plain.trailing, Trailing::Plain(f) if f == vec![6, 0, 5, 4, 2, 1]));
    let few = trailing_groups(&apply_chrome(&items, &vec![0, 2]));
    assert_eq!(spelled(&few), vec![(false, vec![2]), (false, vec![0])]);
}

#[test]
fn a_menu_without_entries_is_not_summoned() {
    assert!(summoned(&Vec::new()).is_none());
    assert_eq!(summoned(&vec![action("Go", 1, None)]).map(|m| m.len()), Some(1));
}

#[test]
fn a_patch_applies_once() {
    let mut items = model();
    let on = ToolbarPatch::On { item: "on".to_string(), on: true };
    assert!(patch_toolbar_model(&mut items, &on));
    assert!(!patch_toolbar_model(&mut items, &on));
    assert!(matches!(items[2].kind, ToolbarKind::Toggle { on: true }));
    let pick = |index| ToolbarPatch::Selected { item: "seg".to_string(), index };
    assert!(patch_toolbar_model(&mut items, &pick(1)));
    assert!(!patch_toolbar_model(&mut items, &pick(1)));
    assert!(!patch_toolbar_model(&mut items, &pick(2)));
    let off = ToolbarPatch::Enabled { item: "go".to_string(), on: false };
    assert!(patch_toolbar_model(&mut items, &off));
    assert!(!patch_toolbar_model(&mut items, &off));
    assert!(!items[0].enabled);
    let wrong = ToolbarPatch::On { item: "go".to_string(), on: true };
    assert!(!patch_toolbar_model(&mut items, &wrong));
    let missing = ToolbarPatch::Enabled { item: "nobody".to_string(), on: false };
    assert!(!patch_toolbar_model(&mut items, &missing));
    assert!(!patch_toolbar_model(&mut items, &ToolbarPatch::Text));
    assert!(!patch_toolbar_model(&mut items, &ToolbarPatch::Suggestions));
}

#[test]
fn items_fire() {
    let mut items = model();
    let id = "on".to_string();
    assert_eq!(fire_toolbar_item(&mut items, 7, false, &id), Fired::Action(7));
    assert_eq!(fire_toolbar_item(&mut items, 7, true, &id), Fired::Toggled { action: 7, on: true });
    assert_eq!(fire_toolbar_item(&mut items, 7, true, &id), Fired::Toggled { action: 7, on: false });
    assert_eq!(fire_toolbar_item(&mut items, 7, true, &"go".to_string()), Fired::Nothing);
    assert_eq!(fire_toolbar_item(&mut items, 7, true, &"gone".to_string()), Fired::Nothing);
    assert!(choose_segment(&mut items, &"seg".to_string(), 1));
    assert!(matches!(items[7].kind, ToolbarKind::Segmented { selected: 1, .. }));
    assert!(!choose_segment(&mut items, &"go".to_string(), 1));
    assert!(!choose_segment(&mut items, &"gone".to_string(), 1));
}

fn bar(items: &Vec<ToolbarItem>, at: usize) -> BarItem {
    build_toolbar_items(items, &vec![at]).remove(0)
}

#[test]
fn bar_items_are_built() {
    let items = model();
    let button = bar(&items, 0);
    assert!(button.enabled);
    assert_eq!(button.label.as_deref(), Some("GO"));
    assert!(matches!(&button.what, BarWhat::Press { face, selected: None, fire }
        if face.word == "GO" && fire.action == 7 && !fire.toggle && fire.item == "go"));
    let label = bar(&items, 1);
    assert!(!label.enabled && label.label.is_none() && label.overflow.is_none());
    assert!(matches!(&label.what, BarWhat::Text { title } if title == "T"));
    let toggle = bar(&items, 2);
    assert!(matches!(&toggle.what, BarWhat::Press { selected: Some(false), fire, .. } if fire.toggle));
    assert!(matches!(bar(&items, 3).what, BarWhat::Space));
    assert!(build_toolbar_items(&items, &vec![4]).is_empty());
    assert!(matches!(&bar(&items, 6).what, BarWhat::Pull { title, children, .. }
        if title.is_empty() && children.is_empty()));
    let BarWhat::Pull { face, title, children } = bar(&items, 7).what else {
        panic!("not a pull-down");
    };
    assert_eq!((face.word.as_str(), face.icons.len(), title.as_str()), ("One", 1, "SEG"));
    assert!(matches!(&children[1], MenuEl::Action { title, checked: Some(false),
        run: MenuRun::Choose { item, index: 1, action: 7 }, .. } if title == "Two" && item == "seg"));
    assert!(matches!(&children[0], MenuEl::Action { checked: Some(true), .. }));
}

#[test]
fn the_overflow_names_what_it_can() {
    let mut items = model();
    assert!(matches!(menu_representation(&items[2]),
        Some(Overflow::Action { title, checked: Some(false), .. }) if title == "ON"));
    assert!(matches!(menu_representation(&items[6]),
        Some(Overflow::Menu { title, .. }) if title == "MENU"));
    items[7].label = String::new();
    assert!(matches!(menu_representation(&items[7]),
        Some(Overflow::Menu { title, .. }) if title == "One"));
    items[0].label = String::new();
    assert!(menu_representation(&items[0]).is_none());
}

fn host(nav: usize, split: Option<SplitParts>) -> NavHost {
    NavHost { nav, host_node: NodeId(1), split, collapsed: false, day_pop: false, search: false }
}

fn split() -> SplitParts {
    SplitParts {
        split_vc: 1,
        primary_nav: 20,
        supplementary_nav: Some(30),
        list_width: None,
        list_shown: true,
        container: 9,
        list_vc: None,
        secondary_placeholder: None,
    }
}

fn seen(host: NavHost, collapsed: bool, view: usize, ancestors: Vec<usize>) -> HostView {
    HostView { host, native_collapsed: collapsed, view: Some(view), ancestors }
}

#[test]
fn a_bar_shows_on_the_stack_that_shows_pages() {
    let open = vec![seen(host(10, Some(split())), false, 100, vec![500])];
    assert_eq!(bar_placement(&open, 10), BarPlacement::NavBar);
    assert_eq!(bar_placement(&open, 20), BarPlacement::Nowhere);
    assert_eq!(bar_placement(&open, 30), BarPlacement::Nowhere);
    let shut = vec![seen(host(10, Some(split())), true, 100, vec![500])];
    assert_eq!(bar_placement(&shut, 20), BarPlacement::NavBar);
    let nested = vec![
        seen(host(10, None), false, 100, vec![500]),
        seen(host(11, None), false, 101, vec![100, 500]),
    ];
    assert_eq!(bar_placement(&nested, 10), BarPlacement::NavBar);
    assert_eq!(bar_placement(&nested, 11), BarPlacement::Nested);
    assert_eq!(bar_placement(&nested, 99), BarPlacement::NavBar);
    assert_eq!(toolbar_navs_under(&open, 500), vec![10, 20, 30]);
    assert_eq!(toolbar_navs_under(&nested, 500), vec![10, 11]);
    assert_eq!(toolbar_navs_under(&nested, 501), Vec::<usize>::new());
}

#[test]
fn a_cleared_bar_leaves_every_page_bare() {
    let nested = vec![
        seen(host(10, Some(split())), false, 100, vec![500]),
        seen(host(11, None), false, 101, vec![100, 500]),
        seen(host(12, None), false, 102, vec![501]),
    ];
    let clear = clear_window_toolbar(&nested, 500, None);
    assert_eq!(clear.navs, vec![10, 20, 30]);
    assert!(clear.tabs.is_none());
    let c = &clear.chrome;
    assert_eq!(c.title, None);
    for slot in [&c.leading, &c.automatic, &c.primary, &c.secondary, &c.bottom] {
        assert!(slot.is_empty());
    }
    assert_eq!(clear_window_toolbar(&nested, 501, None).navs, vec![12]);
}

#[test]
fn a_window_places_its_bar() {
    let mut t = Toolbars::new();
    assert!(matches!(t.reapply(1, None, Vec::new()).place, Place::Gone));
    assert_eq!(t.set_toolbar(1, model()), (None, true));
    assert!(matches!(t.reapply(1, None, Vec::new()).place, Place::Dock));
    t.dock(1, 900);
    assert_eq!(t.docked(1), Some(900));
    assert_eq!(t.set_toolbar(1, model()), (None, true));
    assert_eq!(t.docked(1), Some(900));
    let r = t.reapply(1, None, vec![10]);
    assert_eq!(r.undock, Some(900));
    assert!(matches!(&r.place, Place::Pages(n) if *n == vec![10]));
    assert_eq!(t.docked(1), None);
    assert!(matches!(t.reapply(1, Some(TabsChrome::Page), Vec::new()).place, Place::TabPage));
    assert!(matches!(t.reapply(1, Some(TabsChrome::Bare), Vec::new()).place, Place::TabBar));
    t.dock(1, 901);
    assert_eq!(t.page_takes(1, BarPlacement::Nested), None);
    assert_eq!(t.page_takes(1, BarPlacement::Nowhere), Some((Some(901), false)));
    assert_eq!(t.page_takes(1, BarPlacement::NavBar), Some((None, true)));
    assert_eq!(t.page_takes(2, BarPlacement::NavBar), None);
    let off = ToolbarPatch::Enabled { item: "go".to_string(), on: false };
    assert!(t.update_toolbar(1, &off));
    assert!(!t.update_toolbar(1, &off));
    assert!(!t.update_toolbar(2, &off));
    t.dock(1, 902);
    assert_eq!(t.set_toolbar(1, Vec::new()), (Some(902), false));
    assert_eq!(t.find(1), None);
    assert_eq!(t.set_toolbar(1, Vec::new()), (None, false));
    assert_eq!(t.undock(1), None);
}
