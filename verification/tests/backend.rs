use day_uikit::draw::DrawOp;
use day_uikit::event::{Event, Sink};
use day_uikit::gesture::GestureKind;
use day_uikit::menu::MenuItem;
use day_uikit::nav_menu::MenuContent;
use day_uikit::nav_stack::Pane;
use day_uikit::list::RowHeight;
use day_uikit::piece::{
    realize, registry_key, Builtin, Kind, ListProps, NavMenuProps, NavProps, Props, SearchProps,
    TreeProps, Widget,
};
use day_uikit::scene::SceneEntry;
use day_uikit::split::{Fresh, Lowering, Presentation};
use day_uikit::style::{Cursor, PointerChange};
use day_uikit::toolbar::Fire;
use day_uikit::tree::{TreeAct, TreePatch};
use day_uikit::types::{NodeId, Point, Rect, Scalar, Size, Target};
use day_uikit::uikit::{
    made, Cap, Entered, Made, MenuReload, MenuUpdate, Native, Renderer, Support, Uikit,
};

fn renderer(kind: u64, make: u64) -> Renderer {
    Renderer { kind, make, update: 1, measure: None, release: Some(make + 100) }
}

fn backend() -> Uikit {
    Uikit::new(&Vec::new())
}

fn content(items: &[&str], sections: Vec<Option<String>>) -> MenuContent {
    MenuContent {
        items: items.iter().map(|s| s.to_string()).collect(),
        icons: vec![Some("i".to_string())],
        tints: Vec::new(),
        menus: Vec::new(),
        badge_icons: Vec::new(),
        badge_tints: Vec::new(),
        sections,
    }
}

#[test]
fn the_last_renderer_of_a_kind_wins() {
    let u = Uikit::new(&vec![renderer(1, 10), renderer(2, 20), renderer(1, 30)]);
    assert_eq!(u.renderer(1), Some(renderer(1, 30)));
    assert_eq!(u.renderer(2), Some(renderer(2, 20)));
    assert_eq!(u.renderer(3), None);
    assert_eq!(u.release_piece(1), Some(130));
    assert_eq!(u.release_piece(3), None);
}

#[test]
fn capabilities() {
    let u = backend();
    let emulated = [Cap::Cursor, Cap::BaselineAlignment, Cap::NavRepresent, Cap::NavContentList];
    for c in emulated {
        assert_eq!(u.capability(c, true), Support::Emulated);
    }
    let native = [
        Cap::Animation,
        Cap::AppBadgeCount,
        Cap::Appearance,
        Cap::Cover,
        Cap::Dialogs,
        Cap::EditBridge,
        Cap::FileDialogs,
        Cap::FontList,
        Cap::ListDelete,
        Cap::ListReorder,
        Cap::ListSwipeActions,
        Cap::NavHeader,
        Cap::NavSplit,
        Cap::NavTabs,
        Cap::NavTabsAdaptive,
        Cap::Snapshot,
        Cap::TextEditable,
        Cap::TextLinks,
        Cap::TextRuns,
        Cap::TextSelectable,
        Cap::TextSpellCheck,
        Cap::Toolbar,
        Cap::Tree,
        Cap::UndoBridge,
    ];
    for c in native {
        assert_eq!(u.capability(c, false), Support::Native);
    }
    assert_eq!(u.capability(Cap::MultiWindow, true), Support::Native);
    assert_eq!(u.capability(Cap::MultiWindow, false), Support::Unsupported);
    assert_eq!(u.capability(Cap::Other, true), Support::Unsupported);
}

fn empty(u: &Uikit) -> bool {
    u.targets.is_empty()
        && u.lists.is_empty()
        && u.trees.is_empty()
        && u.menu_fns.is_empty()
        && u.context_menus.is_empty()
        && u.navs.hosts.is_empty()
        && u.navs.queues.is_empty()
        && u.navs.pages.is_empty()
        && u.navs.covers.is_empty()
        && u.page_bars.is_empty()
        && u.nav_menus.is_empty()
        && u.gestures.kinds.is_empty()
        && u.ops.is_empty()
        && u.key_nodes.is_empty()
        && u.text_links.is_empty()
        && u.scenes.entries.is_empty()
}

#[test]
fn a_release_undoes_a_mount() {
    let all = [
        Made::Plain,
        Made::Wired,
        Made::Canvas,
        Made::Links,
        Made::List { selectable: true, row_height: Scalar(0) },
        Made::Host { nav: 3, split: None, collapsed: false, search: false },
        Made::Page { vc: 4, pane: Pane::Detail },
        Made::Cover { vc: 5 },
    ];
    for made in all {
        let mut u = backend();
        u.mount(7, NodeId(1), made);
        assert_eq!(empty(&u), made == Made::Plain);
        assert!(!u.release(7));
        assert!(empty(&u));
    }
}

#[test]
fn a_released_view_is_gone_from_every_table() {
    let mut u = backend();
    let point = Point { x: Scalar(0), y: Scalar(0) };
    let base = Rect { origin: point, size: Size { width: Scalar(0), height: Scalar(0) } };
    u.scenes.connected(SceneEntry { window: 1, root_view: 7, base, node: None });
    u.mount(7, NodeId(1), Made::Wired);
    u.mount(7, NodeId(1), Made::Page { vc: 40, pane: Pane::Detail });
    u.mount_tree(7, NodeId(1), true, Scalar(0));
    u.mount_menu(7, NodeId(1), content(&["a"], Vec::new()), None);
    u.set_page_bar(40, vec![Fire { action: 1, toggle: false, item: "x".to_string() }]);
    u.gestures.enable(7, GestureKind::Tap);
    u.replay(7, vec![DrawOp::Save]);
    u.set_context_menu(7, &vec![MenuItem::Separator]);
    u.set_context_menu_fn(7, 9);
    assert!(u.release(7));
    assert!(empty(&u));
    assert!(u.navs.menu_rows.contains_key(&7));
}

#[test]
fn a_release_leaves_other_views() {
    let mut u = backend();
    u.mount(7, NodeId(1), Made::Wired);
    u.mount(8, NodeId(2), Made::Wired);
    u.mount(9, NodeId(3), Made::Page { vc: 40, pane: Pane::List });
    u.set_cursor(7, Cursor::Text);
    u.release(7);
    assert_eq!(u.targets.get(&8), Some(&NodeId(2)));
    assert!(u.owns_frame(9) && !u.owns_frame(8));
    assert!(u.pointers.contains_key(&7));
}

fn native() -> Native {
    let fresh = Fresh {
        split_vc: 10,
        primary_nav: 11,
        secondary_nav: 12,
        supplementary_nav: 13,
        placeholder: 14,
    };
    Native { vc: 40, fresh, collapsed: true }
}

fn entered(b: Builtin, props: Props) -> (Uikit, Entered) {
    let mut u = backend();
    let mut sink = Sink::new();
    sink.install(9);
    let widget = realize(Kind::Builtin(b), props, false);
    let r = u.enter(&sink, 7, NodeId(3), widget, native());
    (u, r)
}

#[test]
fn a_realized_piece_stands_in_its_table() {
    let (u, r) = entered(Builtin::Toggle, Props::Toggle { on: true, enabled: true });
    assert!(matches!(r, Entered::Done));
    assert_eq!(u.targets.get(&7), Some(&NodeId(3)));
    let (u, _) = entered(Builtin::Canvas, Props::Mismatch);
    assert_eq!(u.key_nodes.get(&7), Some(&NodeId(3)));
    assert!(u.targets.is_empty());
    let tree = TreeProps { row_height: RowHeight::Uniform(Scalar(5)), selectable: true, multi_select: false };
    let (u, _) = entered(Builtin::Tree, Props::Tree(tree));
    assert_eq!(u.trees[&7].node, NodeId(3));
    let list = ListProps {
        row_height: RowHeight::Uniform(Scalar(5)),
        selectable: true,
        separators: None,
        reorderable: false,
        delete_label: String::new(),
    };
    let (u, _) = entered(Builtin::List, Props::List(list));
    assert_eq!((u.lists[&7].node, u.lists[&7].selectable), (NodeId(3), true));
    let menu = NavMenuProps { content: content(&["a", "b"], Vec::new()), selected: Some(1) };
    let (u, r) = entered(Builtin::NavMenu, Props::NavMenu(menu));
    assert!(matches!(r, Entered::Load(Some((0, 1)))));
    assert_eq!(u.nav_menus[&7].node, NodeId(3));
    let (u, _) =
        entered(Builtin::NavPage, Props::NavPage { title: "T".to_string(), pane: Pane::List });
    assert_eq!(u.navs.page_of(7).map(|p| (p.vc, p.pane)), Some((40, Pane::List)));
    let (u, _) = entered(Builtin::Cover, Props::Mismatch);
    assert_eq!((u.navs.covers[&7].vc, u.navs.covers[&7].node), (40, NodeId(3)));
    let (u, r) = entered(Builtin::Divider, Props::Mismatch);
    assert!(empty(&u) && matches!(r, Entered::Done));
}

#[test]
fn a_realized_host_stands_in_its_table() {
    let nav = |lowering, list_visible| {
        let search = Some(SearchProps { prompt: String::new(), text: String::new() });
        Props::Nav(NavProps { lowering, list_width: Some(Scalar(300)), list_visible, search })
    };
    let (u, _) = entered(Builtin::Nav, nav(Lowering::Stack, true));
    let h = u.navs.hosts[&7];
    assert_eq!((h.nav, h.host_node, h.split, h.collapsed, h.search), (40, NodeId(3), None, false, true));
    let (u, _) = entered(Builtin::Nav, nav(Lowering::Split, true));
    let h = u.navs.hosts[&7];
    let parts = h.split.unwrap();
    assert_eq!((h.nav, h.collapsed, parts.container, parts.list_shown), (12, true, 7, true));
    assert_eq!((parts.supplementary_nav, parts.secondary_placeholder), (Some(13), Some(14)));
    let (u, _) = entered(Builtin::Nav, nav(Lowering::Split, false));
    assert_eq!(u.navs.hosts[&7].split.unwrap().supplementary_nav, None);
    let (u, r) = entered(Builtin::Nav, nav(Lowering::Tabs, true));
    assert!(matches!(r, Entered::Report(Some(_))));
    assert_eq!(u.navs.tabs.hosts[&7].tabbar, 40);
    assert_eq!(made(&Widget::TabsHost, 7, native()), None);
}

#[test]
fn every_kind_has_a_number_of_its_own() {
    assert_ne!(
        registry_key(Kind::Builtin(Builtin::InspectorPane)),
        registry_key(Kind::Extension(0))
    );
    assert_ne!(
        registry_key(Kind::Builtin(Builtin::Picker)),
        registry_key(Kind::Builtin(Builtin::TextArea))
    );
}

#[test]
fn a_backend_starts_in_the_background() {
    let u = backend();
    assert!(!u.scenes.foreground && !u.scenes.active && !u.scenes.launching);
    assert!(u.scenes.pending.is_empty());
}

#[test]
fn a_cover_owns_its_frame() {
    let mut u = backend();
    u.mount(7, NodeId(1), Made::Cover { vc: 5 });
    assert!(u.owns_frame(7));
    assert_eq!(u.navs.covers[&7].vc, 5);
}

#[test]
fn a_tabs_host_reports_itself() {
    let mut u = backend();
    let mut sink = Sink::new();
    sink.install(9);
    let call = u.mount_tabs(&sink, 7, NodeId(3), 500).unwrap();
    assert_eq!(u.navs.tabs.hosts[&7].tabbar, 500);
    assert_eq!((call.sink, call.to), (9, Target::Node(NodeId(3))));
    assert_eq!(call.event, Event::NavPresentationChanged(Presentation::Tabs));
}

#[test]
fn menus_mark_their_selection() {
    let mut u = backend();
    let sections = vec![None, Some("H".to_string())];
    assert_eq!(
        u.mount_menu(7, NodeId(6), content(&["a", "b", "c"], sections), Some(2)),
        Some((1, 1))
    );
    let rows = &u.navs.menu_rows[&7];
    assert_eq!((rows.node, rows.titles.len(), rows.icons.len()), (6, 3, 1));
    assert!(u.mount_tabs(&Sink::new(), 20, NodeId(3), 500).is_none());
    let r = u.set_menu_items(7, content(&["x"], Vec::new()), Some(0), &vec![7, 20]);
    assert_eq!(
        r,
        MenuUpdate {
            reload: Some(MenuReload { relayout: true, path: Some((0, 0)) }),
            sync: Some(20),
        }
    );
    assert_eq!(u.nav_menus[&7].items, vec!["x".to_string()]);
    assert_eq!(u.navs.tabs.hosts[&20].titles, vec!["x".to_string()]);
    let gone = u.set_menu_items(99, content(&["x"], Vec::new()), None, &vec![99]);
    assert_eq!(gone, MenuUpdate { reload: None, sync: None });
}

#[test]
fn trees_are_patched() {
    let mut u = backend();
    u.mount_tree(7, NodeId(1), true, Scalar(0));
    assert!(matches!(
        u.patch_tree(7, TreePatch::Expand(3, true)),
        Some(TreeAct::Snapshot { animated: true })
    ));
    assert!(u.trees[&7].expanded.contains(&3));
    assert!(u.patch_tree(8, TreePatch::Reload).is_none());
}

#[test]
fn context_menus_replace_each_other() {
    let mut u = backend();
    assert_eq!(u.set_context_menu(7, &vec![MenuItem::Separator]), (false, true));
    assert_eq!(u.set_context_menu(7, &vec![MenuItem::Separator]), (true, true));
    assert_eq!(u.set_context_menu(7, &Vec::new()), (true, false));
    assert_eq!(u.set_context_menu(7, &Vec::new()), (false, false));
    assert!(!u.set_context_menu_fn(7, 1));
    assert!(u.set_context_menu_fn(7, 2));
    assert_eq!(u.menu_fns[&7], 2);
}

#[test]
fn cursors_are_set() {
    let mut u = backend();
    assert_eq!(u.set_cursor(7, Cursor::Text), PointerChange::Attach);
    assert_eq!(u.set_cursor(7, Cursor::Move), PointerChange::Invalidate);
    assert_eq!(u.set_cursor(7, Cursor::Default), PointerChange::Detach);
    assert_eq!(u.set_cursor(7, Cursor::Default), PointerChange::Nothing);
}
