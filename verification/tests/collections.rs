use day_uikit::event::{EditCommand, Event, Modifiers};
use day_uikit::keys::{
    can_perform, digit_name, key_modifiers, key_name, presses_began, responder_changed, EditState,
    KeyCode, KeyFlags, Press,
};
use day_uikit::list::{
    can_move_row, move_row, reorder_verdict, row_height, scroll_row, swipe_actions, target_for_move,
    Landing, ListData, RowHeight, ScrollTo, SwipeAction, SwipeEdge, SwipeOffer, DEFAULT_ROW_HEIGHT,
};
use day_uikit::menu::MenuItem;
use day_uikit::nav_menu::{Group, MenuContent, NavMenu};
use day_uikit::tabs::{
    select_waits, MenuRows, NavTabs, Select, TabPage, TabsTable, SELECT_ATTEMPTS,
};
use day_uikit::tree::{TreeAct, TreeData, TreePatch, Walk};
use day_uikit::types::{Color, NodeId, Scalar};

fn strings(all: &[&str]) -> Vec<String> {
    all.iter().map(|s| s.to_string()).collect()
}

fn some(all: &[Option<&str>]) -> Vec<Option<String>> {
    all.iter().map(|s| s.map(|s| s.to_string())).collect()
}

fn tint(x: f64) -> Color {
    let c = Scalar(x.to_bits());
    Color { r: c, g: c, b: c, a: Scalar(1.0f64.to_bits()) }
}

fn content(items: &[&str], sections: &[Option<&str>]) -> MenuContent {
    MenuContent {
        items: strings(items),
        icons: some(&[Some("star"), None]),
        tints: vec![Some(tint(0.5))],
        menus: vec![Vec::new(), vec![MenuItem::Separator]],
        badge_icons: some(&[None, Some("dot")]),
        badge_tints: vec![Some(tint(0.25)), Some(tint(0.75))],
        sections: some(sections),
    }
}

fn host() -> NavTabs {
    let mut t = NavTabs::new(500);
    t.insert_page(0, TabPage { vc: 1, key: 10 });
    t.insert_page(9, TabPage { vc: 2, key: 20 });
    t.insert_page(1, TabPage { vc: 3, key: 30 });
    t.set_rows(MenuRows { node: 6, titles: strings(&["A", "B"]), icons: some(&[None, Some("b")]) });
    t
}

#[test]
fn tabs_follow_their_pages() {
    let mut t = host();
    let plan = t.sync();
    let keys: Vec<usize> = plan.iter().map(|p| p.page.key).collect();
    assert_eq!(keys, vec![10, 30, 20]);
    assert!(plan.iter().all(|p| !p.reuse));
    let titles: Vec<&str> = plan.iter().map(|p| p.title.as_str()).collect();
    assert_eq!(titles, vec!["A", "B", ""]);
    assert_eq!(plan[1].icon.as_deref(), Some("b"));
    assert_eq!(plan[2].icon, None);
    assert!(t.suppress);
    t.driven();
    t.retitle(strings(&["X"]), Vec::new());
    let again = t.sync();
    assert!(again.iter().all(|p| p.reuse));
    assert_eq!(again[0].title, "X");
}

#[test]
fn a_tab_means_its_row() {
    let mut t = host();
    t.sync();
    assert_eq!(t.did_select(30), None);
    t.driven();
    assert_eq!(t.did_select(30), Some((NodeId(6), 1)));
    assert_eq!(t.did_select(99), None);
    assert_eq!(t.did_select_page(20), Some((NodeId(6), 2)));
    let mut early = NavTabs::new(1);
    early.insert_page(0, TabPage { vc: 1, key: 10 });
    early.sync();
    early.driven();
    assert_eq!(early.did_select(10), None);
    assert_eq!(early.did_select_page(10), None);
}

#[test]
fn a_page_inserted_before_it_keeps_a_page_its_tab() {
    let mut t = host();
    t.sync();
    t.driven();
    t.insert_page(0, TabPage { vc: 4, key: 40 });
    let plan = t.sync();
    assert!(!plan[0].reuse);
    assert!(plan[1].reuse && plan[1].page.key == 10);
    t.driven();
    assert_eq!(t.did_select(10), Some((NodeId(6), 1)));
}

#[test]
fn rows_are_selected_by_tab_or_by_index() {
    let mut t = host();
    assert_eq!(t.select(1), Select::Index(1));
    t.sync();
    assert_eq!(t.select(1), Select::Tab(30));
    assert!(t.suppress);
    assert_eq!(t.select(8), Select::Nothing);
    assert!(select_waits(true, SELECT_ATTEMPTS - 1));
    assert!(!select_waits(true, SELECT_ATTEMPTS));
    assert!(!select_waits(false, 0));
}

#[test]
fn a_classic_tab_bar_is_set_only_when_it_changed() {
    let mut t = host();
    t.retitle(vec!["One".to_string()], vec![Some("a.png".to_string()), None]);
    let same = t.sync_classic(Some(vec![1, 3, 2]), 1);
    assert!(same.roster.is_none());
    let dress: Vec<_> =
        same.dress.iter().map(|d| (d.vc, d.title.as_str(), d.icon.as_deref())).collect();
    assert_eq!(dress, vec![(1, "One", Some("a.png")), (3, "", None), (2, "", None)]);
    let changed = t.sync_classic(Some(vec![1, 3]), 1);
    assert_eq!(changed.dress.len(), 3);
    let plan = changed.roster.unwrap();
    assert_eq!((plan.vcs, plan.select), (vec![1, 3, 2], Some(1)));
    let moved = t.sync_classic(Some(vec![3, 1]), 0).roster.unwrap();
    assert_eq!((moved.vcs, moved.select), (vec![1, 3, 2], Some(1)));
    let gone = t.sync_classic(Some(vec![9, 1]), 0).roster.unwrap();
    assert_eq!(gone.select, Some(0));
    let outside = t.sync_classic(None, 7).roster.unwrap();
    assert_eq!(outside.select, None);
}

#[test]
fn the_nearest_tabs_host_encloses() {
    let mut table = TabsTable::new();
    table.hosts.insert(1, NavTabs::new(100));
    table.page_host.insert(5, 1);
    assert_eq!(table.enclosing_tabs_host(&vec![9, 5, 2]), Some(1));
    assert_eq!(table.enclosing_tabs_host(&vec![9, 1]), Some(1));
    assert_eq!(table.enclosing_tabs_host(&vec![9, 8]), None);
}

#[test]
fn groups_tile_the_rows() {
    let m = NavMenu::new(
        NodeId(1),
        content(&["a", "b", "c", "d"], &[None, Some("Two"), None, Some("Three")]),
    );
    assert_eq!(
        m.groups(),
        vec![Group { first: 0, len: 1 }, Group { first: 1, len: 2 }, Group { first: 3, len: 1 }]
    );
    assert_eq!(m.section_count(), 3);
    assert_eq!(m.rows_in_section(1), 2);
    assert_eq!(m.rows_in_section(9), 0);
    assert_eq!(m.heading(0), None);
    assert_eq!(m.heading(1).as_deref(), Some("Two"));
    assert_eq!(m.heading_count(), 2);
    assert_eq!(m.list_height(), 4 * 44 + 2 * 30 + 40);
    assert!(m.headers);
}

#[test]
fn paths_lead_back_to_their_rows() {
    let m = NavMenu::new(
        NodeId(1),
        content(&["a", "b", "c", "d"], &[Some("One"), None, Some("Two")]),
    );
    for row in 0..4 {
        let (s, i) = m.path_of(row).unwrap();
        assert_eq!(m.row_of(s, i), Some(row));
    }
    assert_eq!(m.path_of(2), Some((1, 0)));
    assert_eq!(m.path_of(4), None);
    assert_eq!(m.row_of(0, 2), None);
    assert_eq!(m.row_of(5, 0), None);
}

#[test]
fn a_menu_without_headings_is_one_group() {
    let mut m = NavMenu::new(NodeId(1), content(&["a", "b"], &[]));
    assert_eq!(m.groups(), vec![Group { first: 0, len: 2 }]);
    assert_eq!(m.list_height(), 128);
    assert!(m.set_items(content(&["a"], &[Some("H")])));
    assert!(!m.set_items(content(&["a", "b"], &[Some("G")])));
    let empty = NavMenu::new(NodeId(1), content(&[], &[]));
    assert_eq!(empty.section_count(), 1);
    assert_eq!(empty.rows_in_section(0), 0);
    assert_eq!(empty.list_height(), 40);
}

#[test]
fn row_faces_and_menus() {
    let m = NavMenu::new(NodeId(1), content(&["a", "b"], &[]));
    let a = m.row_face(0, 0);
    assert_eq!(a.title.as_deref(), Some("a"));
    assert_eq!(a.icon.as_deref(), Some("star"));
    assert_eq!(a.tint, Some(tint(0.5)));
    assert_eq!((a.accessories.badge, a.accessories.badge_tint), (None, None));
    let b = m.row_face(0, 1);
    assert_eq!(b.accessories.badge.as_deref(), Some("dot"));
    assert_eq!(b.accessories.badge_tint, Some(tint(0.75)));
    assert!(b.accessories.chevron);
    assert_eq!(m.row_face(7, 7).title.as_deref(), Some("a"));
    assert!(m.context_menu(0, 0).is_none());
    assert_eq!(m.context_menu(0, 1).map(|v| v.len()), Some(1));
    assert!(m.context_menu(3, 1).is_none());
}

#[test]
fn a_tree_restores_its_disclosure() {
    let mut t = TreeData::new(NodeId(4), true, Scalar(44.0f64.to_bits()));
    assert!(matches!(t.patch(TreePatch::Expand(1, true)), TreeAct::Snapshot { animated: true }));
    assert!(matches!(t.patch(TreePatch::Expand(2, true)), TreeAct::Snapshot { animated: true }));
    assert!(matches!(t.patch(TreePatch::Expand(2, false)), TreeAct::Snapshot { animated: true }));
    assert!(matches!(t.patch(TreePatch::Reload), TreeAct::Snapshot { animated: false }));
    match t.patch(TreePatch::Selected(vec![3])) {
        TreeAct::Select(tokens) => assert_eq!(tokens, vec![3]),
        _ => panic!("not selected"),
    }
    assert!(matches!(t.patch(TreePatch::Reveal(8)), TreeAct::Reveal(8)));
    let mut w = Walk::new();
    assert_eq!(w.next(), Some(None));
    let top = w.level(None, vec![1, 2], vec![true, false]).unwrap();
    assert_eq!((top.parent, top.tokens), (None, vec![1, 2]));
    assert_eq!(w.next(), Some(Some(1)));
    let under = w.level(Some(1), vec![5], vec![false]).unwrap();
    assert_eq!((under.parent, under.tokens), (Some(1), vec![5]));
    assert_eq!(w.next(), None);
    assert!(w.level(Some(2), Vec::new(), Vec::new()).is_none());
    assert_eq!(t.open_tokens(&w), vec![1]);
}

#[test]
fn a_tree_reports() {
    let t = TreeData::new(NodeId(4), false, Scalar(0));
    assert_eq!(t.report_selection(vec![1]), None);
    let t = TreeData::new(NodeId(4), true, Scalar(0));
    assert_eq!(t.report_selection(vec![1, 2]), Some(Event::TreeSelection(vec![1, 2])));
    assert_eq!(
        t.disclosure_tapped(9, true),
        Event::TreeExpanded { token: 9, expanded: false }
    );
}

#[test]
fn row_heights() {
    assert_eq!(f64::from_bits(DEFAULT_ROW_HEIGHT), 44.0);
    assert_eq!(row_height(RowHeight::Automatic), Scalar(44.0f64.to_bits()));
    assert_eq!(row_height(RowHeight::Uniform(Scalar(7))), Scalar(7));
}

#[test]
fn rows_are_moved_under_a_guard() {
    assert_eq!(reorder_verdict(None), -1);
    assert!(!can_move_row(None));
    assert!(can_move_row(Some(0)));
    assert!(!can_move_row(Some(-3)));
    assert_eq!(target_for_move(Some(4), 4), Landing::Proposed);
    assert_eq!(target_for_move(Some(2), 4), Landing::At(2));
    assert_eq!(target_for_move(Some(-1), 4), Landing::Home);
    assert_eq!(target_for_move(None, 4), Landing::Home);
    assert!(move_row(1, 2, true));
    assert!(!move_row(2, 2, true));
    assert!(!move_row(1, 2, false));
}

#[test]
fn lists_scroll_within_their_rows() {
    assert_eq!(scroll_row(ScrollTo::End, 0), None);
    assert_eq!(scroll_row(ScrollTo::Row(3), 0), None);
    assert_eq!(scroll_row(ScrollTo::End, 5), Some(4));
    assert_eq!(scroll_row(ScrollTo::Row(3), 5), Some(3));
    assert_eq!(scroll_row(ScrollTo::Row(30), 5), Some(4));
}

#[test]
fn a_selectable_list_reports_its_taps() {
    let mut l = ListData { node: NodeId(1), row_height: Scalar(0), selectable: true };
    assert_eq!(l.did_select(3), Some(Event::SelectionChanged(3)));
    l.selectable = false;
    assert_eq!(l.did_select(3), None);
}

#[test]
fn swipes_lead_with_deletion_on_the_trailing_edge() {
    let offer = |l: &str| SwipeOffer {
        label: l.to_string(),
        destructive: false,
        tint: None,
        symbol: None,
    };
    let word = "Remove".to_string();
    let both = swipe_actions(SwipeEdge::Trailing, true, &word, vec![offer("a"), offer("b")]);
    let both = both.unwrap();
    assert_eq!(both.len(), 3);
    assert!(matches!(&both[0], SwipeAction::Delete { title: Some(t) } if t == "Remove"));
    assert!(matches!(
        &both[2],
        SwipeAction::Offer { offer, edge: SwipeEdge::Trailing, index: 1 } if offer.label == "b"
    ));
    let glyph = swipe_actions(SwipeEdge::Trailing, true, &String::new(), Vec::new()).unwrap();
    assert!(matches!(&glyph[..], [SwipeAction::Delete { title: None }]));
    assert!(swipe_actions(SwipeEdge::Leading, true, &word, Vec::new()).is_none());
    let lead = swipe_actions(SwipeEdge::Leading, true, &word, vec![offer("a")]).unwrap();
    assert!(matches!(&lead[..], [SwipeAction::Offer { index: 0, .. }]));
    assert!(swipe_actions(SwipeEdge::Trailing, false, &word, Vec::new()).is_none());
}

fn flags(command: bool) -> KeyFlags {
    KeyFlags { shift: true, command, alternate: false, control: false }
}

#[test]
fn keys_have_names() {
    assert_eq!(key_name(KeyCode::LeftArrow, flags(true), ""), Some("ArrowLeft"));
    assert_eq!(key_name(KeyCode::RightArrow, flags(false), ""), Some("ArrowRight"));
    assert_eq!(key_name(KeyCode::UpArrow, flags(false), ""), Some("ArrowUp"));
    assert_eq!(key_name(KeyCode::DownArrow, flags(false), ""), Some("ArrowDown"));
    assert_eq!(key_name(KeyCode::DeleteForward, flags(false), ""), Some("Delete"));
    assert_eq!(key_name(KeyCode::DeleteOrBackspace, flags(false), ""), Some("Backspace"));
    assert_eq!(key_name(KeyCode::Other, flags(false), "7"), Some("7"));
    assert_eq!(key_name(KeyCode::Other, flags(true), "7"), None);
    assert_eq!(key_name(KeyCode::Other, flags(false), "77"), None);
    assert_eq!(key_name(KeyCode::Other, flags(false), "a"), None);
    for d in '0'..='9' {
        assert_eq!(digit_name(d), Some(d.to_string().as_str()));
    }
    assert_eq!(digit_name('x'), None);
}

#[test]
fn presses_are_reported_in_order() {
    let press = |code, typed: &str| Press { code, flags: flags(false), typed: typed.to_string() };
    let presses =
        vec![press(KeyCode::UpArrow, ""), press(KeyCode::Other, "q"), press(KeyCode::Other, "3")];
    let m = Modifiers { shift: true, primary: false, alt: false };
    let taken = presses_began(true, &presses);
    assert_eq!(taken.claimed, vec![true, false, true]);
    assert_eq!(
        taken.events,
        vec![
            Event::Key { name: "ArrowUp".to_string(), modifiers: m },
            Event::Key { name: "3".to_string(), modifiers: m },
        ]
    );
    let left = presses_began(false, &presses);
    assert!(left.events.is_empty());
    assert_eq!(left.claimed, vec![false; 3]);
    assert_eq!(
        key_modifiers(KeyFlags { shift: false, command: true, alternate: true, control: true }),
        Modifiers { shift: false, primary: true, alt: true }
    );
}

#[test]
fn canvas_focus_is_reported() {
    assert_eq!(
        responder_changed(Some(NodeId(2)), true, true),
        Some((NodeId(2), Event::FocusChanged(true)))
    );
    assert_eq!(responder_changed(Some(NodeId(2)), false, true), None);
    assert_eq!(responder_changed(None, true, true), None);
}

#[test]
fn edit_commands_are_enabled_by_the_app() {
    let s = EditState { can_cut: true, can_copy: false, can_paste: true, can_select_all: true };
    assert!(can_perform(s, EditCommand::Cut, false));
    assert!(!can_perform(s, EditCommand::Copy, true));
    assert!(can_perform(s, EditCommand::Paste, true));
    assert!(!can_perform(s, EditCommand::Paste, false));
    assert!(can_perform(s, EditCommand::SelectAll, false));
}
