use day_uikit::nav_stack::{
    confirm_user_pop, day_pages, detail_pages, gesture_should_begin, native_back, note_pop,
    owner_of, pane_of, press_back, pressed, set_again, set_stack, should_pop, top_page,
    triple_change, Apply, Back, BackHost, Entry, HostStack, NavOp, NavQueue, PageVc, Pane, PopNote,
    SetStack, TripleChange,
};
use day_uikit::navs::{enclosing_view_controller, Around, Cover, Insert, Navs, PageDress, Place, Removal};
use day_uikit::split::{
    first_split, Column, Fresh, NavAct, NavHost, NavPatch, Presentation, SplitConfig, SplitParts,
};
use day_uikit::tabs::{MenuRows, NavTabs, TabPage};
use day_uikit::types::{NodeId, Scalar};

fn detail(handle: usize, vc: usize) -> PageVc {
    PageVc { handle, vc, pane: Pane::Detail }
}

fn page(vc: usize) -> Entry {
    Entry::Page(vc)
}

fn replaced(plan: Apply) -> (u64, Vec<usize>) {
    match plan {
        Apply::Replace { generation, target } => (generation, target),
        _ => panic!("not a replacement"),
    }
}

fn parts(supplementary: Option<usize>, shown: bool) -> SplitParts {
    SplitParts {
        split_vc: 1,
        primary_nav: 2,
        supplementary_nav: supplementary,
        list_width: Some(Scalar(300.0f64.to_bits())),
        list_shown: shown,
        container: 9,
        list_vc: Some(30),
        secondary_placeholder: Some(77),
    }
}

fn split_host(collapsed: bool, supplementary: Option<usize>, shown: bool) -> NavHost {
    NavHost {
        nav: 4,
        host_node: NodeId(5),
        split: Some(parts(supplementary, shown)),
        collapsed,
        day_pop: false,
        search: false,
    }
}

fn stack_host(search: bool) -> NavHost {
    NavHost { nav: 4, host_node: NodeId(5), split: None, collapsed: false, day_pop: false, search }
}

fn stack(pages: Vec<usize>) -> HostStack {
    HostStack::Stack { pages, blank: None }
}

#[test]
fn two_changes_of_one_turn_are_one_set() {
    let mut q = NavQueue::new();
    assert!(q.queue_op(NavOp::Pop(2)));
    assert!(matches!(q.apply_ops(stack(vec![1, 2])), Apply::Nothing));
    assert!(!q.queue_op(NavOp::Push(3)));
    q.turn_ended();
    assert_eq!(replaced(q.apply_ops(stack(vec![1, 2]))).1, vec![1, 3]);
    assert!(matches!(q.apply_ops(stack(vec![1, 2])), Apply::Nothing));
}

#[test]
fn a_secondary_column_is_never_bare() {
    let mut n = Navs::new();
    n.hosts.insert(1, split_host(false, Some(3), true));
    n.queue_op(1, NavOp::Pop(5));
    n.turn_ended(1);
    assert_eq!(replaced(n.apply_ops(1, vec![5])).1, vec![77]);
    assert_eq!(n.queues[&1].in_flight, Some(vec![77]));
    n.hosts.insert(2, split_host(false, Some(3), true));
    n.queue_op(2, NavOp::Pop(5));
    n.turn_ended(2);
    assert_eq!(replaced(n.apply_ops(2, vec![5, 6])).1, vec![6]);
    n.hosts.insert(4, stack_host(false));
    n.queue_op(4, NavOp::Pop(5));
    n.turn_ended(4);
    assert_eq!(replaced(n.apply_ops(4, vec![5])).1, Vec::<usize>::new());
}

#[test]
fn changes_coalesce_into_one_set() {
    let mut q = NavQueue::new();
    assert!(q.queue_op(NavOp::Push(2)));
    assert!(!q.queue_op(NavOp::Push(3)));
    assert!(!q.queue_op(NavOp::Pop(2)));
    assert!(matches!(q.apply_ops(stack(vec![1])), Apply::Nothing));
    q.turn_ended();
    let (generation, target) = replaced(q.apply_ops(stack(vec![1])));
    assert_eq!((generation, target), (1, vec![1, 3]));
}

#[test]
fn one_set_at_a_time_and_none_forgotten() {
    let mut q = NavQueue::new();
    q.queue_op(NavOp::Push(2));
    q.turn_ended();
    let (g, _) = replaced(q.apply_ops(stack(vec![1])));
    assert!(q.queue_op(NavOp::Push(3)));
    q.turn_ended();
    assert!(matches!(q.apply_ops(stack(vec![1])), Apply::Nothing));
    assert!(!q.settle(g + 7));
    assert!(q.settle(g));
    let (g2, target) = replaced(q.apply_ops(stack(vec![1, 2])));
    assert_eq!((g2, target), (2, vec![1, 2, 3]));
    assert!(!q.settle(g2));
}

#[test]
fn a_stale_settle_is_ignored() {
    let mut q = NavQueue::new();
    q.queue_op(NavOp::Push(2));
    q.turn_ended();
    let (g, _) = replaced(q.apply_ops(stack(vec![1])));
    assert!(!q.settle(g - 1));
    assert_eq!(q.current_top(&vec![page(1)], None), Some(2));
    q.settle(g);
    assert_eq!(q.current_top(&vec![page(1)], None), Some(1));
}

#[test]
fn a_push_then_a_pop_is_nothing() {
    let mut q = NavQueue::new();
    q.queue_op(NavOp::Push(9));
    q.queue_op(NavOp::Pop(9));
    q.turn_ended();
    assert_eq!(replaced(q.apply_ops(stack(vec![1, 2]))).1, vec![1, 2]);
}

#[test]
fn a_pop_takes_one_page_only() {
    let mut q = NavQueue::new();
    q.queue_op(NavOp::Pop(2));
    q.turn_ended();
    assert_eq!(replaced(q.apply_ops(stack(vec![1, 2, 3]))).1, vec![1, 3]);
}

#[test]
fn popping_a_page_already_gone_changes_nothing() {
    let mut q = NavQueue::new();
    q.queue_op(NavOp::Pop(8));
    q.turn_ended();
    let target = replaced(q.apply_ops(stack(vec![1, 2]))).1;
    assert_eq!(set_stack(&vec![1, 2], &target), SetStack::Settled);
}

#[test]
fn a_host_gone_takes_its_changes_along() {
    let mut q = NavQueue::new();
    q.queue_op(NavOp::Push(2));
    q.turn_ended();
    assert!(matches!(q.apply_ops(HostStack::Gone), Apply::Nothing));
    assert!(q.queue_op(NavOp::Push(3)));
    q.turn_ended();
    match q.apply_ops(HostStack::CollapsedTriple) {
        Apply::Columns(ops) => assert_eq!(ops, vec![NavOp::Push(3)]),
        _ => panic!("not columns"),
    }
}

#[test]
fn a_stack_is_never_emptied_animated() {
    assert_eq!(set_stack(&vec![1], &Vec::new()), SetStack::Replace { animated: false });
    assert_eq!(set_stack(&vec![1], &vec![1, 2]), SetStack::Replace { animated: true });
    assert_eq!(set_stack(&vec![1], &vec![2]), SetStack::Replace { animated: true });
    assert_eq!(set_stack(&vec![1, 2], &vec![1, 2]), SetStack::Settled);
    assert!(set_again(true, true));
    assert!(!set_again(true, false));
    assert!(!set_again(false, true));
}

#[test]
fn a_nested_merge_reads_as_appended() {
    let stack = vec![page(1), Entry::Nav(50, vec![page(77), page(2), page(3)])];
    assert_eq!(day_pages(&stack, Some(77)), vec![1, 2, 3]);
    assert_eq!(day_pages(&stack, None), vec![1, 77, 2, 3]);
    assert_eq!(top_page(&stack, None), Some(3));
    assert_eq!(top_page(&Vec::new(), None), None);
    assert_eq!(top_page(&vec![page(77)], Some(77)), None);
    assert_eq!(top_page(&vec![page(77)], None), Some(77));
}

#[test]
fn a_held_page_has_an_owner() {
    let stack = vec![page(1), Entry::Nav(50, vec![page(2), page(3)])];
    assert_eq!(owner_of(10, &stack, 1), Some((10, None)));
    assert_eq!(owner_of(10, &stack, 50), Some((10, Some(1))));
    assert_eq!(owner_of(10, &stack, 2), Some((10, Some(1))));
    assert_eq!(owner_of(10, &stack, 3), Some((50, Some(2))));
    assert_eq!(owner_of(10, &stack, 4), None);
}

#[test]
fn panes_are_told_apart() {
    let pages = vec![
        PageVc { handle: 100, vc: 1, pane: Pane::Sidebar },
        PageVc { handle: 101, vc: 2, pane: Pane::List },
        detail(102, 3),
    ];
    assert_eq!(pane_of(&pages, 2), Some(Pane::List));
    assert_eq!(pane_of(&pages, 9), None);
    let stack = vec![page(1), page(2), page(3)];
    assert_eq!(detail_pages(&stack, None, &pages), vec![3]);
}

#[test]
fn a_collapsed_triple_is_driven_through_its_columns() {
    let pages = vec![PageVc { handle: 100, vc: 1, pane: Pane::Sidebar }, detail(101, 3)];
    let stack = vec![page(1), Entry::Nav(50, vec![page(3)])];
    match triple_change(NavOp::Push(4), 2, &stack, None, &pages) {
        TripleChange::Show(s) => assert_eq!(s, vec![3, 4]),
        _ => panic!("not shown"),
    }
    match triple_change(NavOp::Pop(3), 2, &stack, None, &pages) {
        TripleChange::Pop { owner, to } => assert_eq!((owner, to), (2, Some(1))),
        _ => panic!("not popped"),
    }
    assert!(matches!(triple_change(NavOp::Pop(8), 2, &stack, None, &pages), TripleChange::Nothing));
}

#[test]
fn pops_are_told_apart() {
    assert_eq!(note_pop(Some(true), true), PopNote::Ignore);
    assert_eq!(note_pop(None, false), PopNote::Ignore);
    assert_eq!(note_pop(Some(false), true), PopNote::Await);
    assert_eq!(note_pop(Some(false), false), PopNote::Confirm);
    let pages = vec![detail(100, 1), detail(101, 2)];
    let popped = vec![page(1), Entry::Nav(50, vec![page(2), page(9)])];
    assert_eq!(confirm_user_pop(&popped, &pages), 2);
}

#[test]
fn a_guard_with_nobody_to_answer_fails_open() {
    let n = NodeId(3);
    assert_eq!(should_pop(true, Some(n)), Back::Ask(n));
    assert_eq!(should_pop(true, None), Back::Pop);
    assert_eq!(should_pop(false, Some(n)), Back::Pop);
    assert_eq!(gesture_should_begin(1, false, false, Some(n)), Back::Refuse);
    assert_eq!(gesture_should_begin(2, true, false, Some(n)), Back::Refuse);
    assert_eq!(gesture_should_begin(2, false, true, Some(n)), Back::Ask(n));
    assert_eq!(press_back(false, 2, false, Some(n)), Back::Refuse);
    assert_eq!(press_back(true, 1, false, Some(n)), Back::Refuse);
    assert_eq!(press_back(true, 2, true, Some(n)), Back::Ask(n));
    assert!(pressed(Back::Ask(n), false));
    assert!(!pressed(Back::Pop, false));
    assert!(pressed(Back::Pop, true));
    assert!(!pressed(Back::Refuse, true));
}

#[test]
fn a_scripted_back_presses_the_deepest_host() {
    let h = |handle, shown, count, depth| BackHost { handle, shown, count, depth };
    let hosts = vec![h(1, true, 3, 2), h(2, true, 2, 5), h(3, false, 4, 9), h(4, true, 1, 9)];
    assert_eq!(native_back(&hosts), Some(1));
    assert_eq!(native_back(&vec![h(4, true, 1, 9)]), None);
    assert_eq!(native_back(&vec![h(1, true, 2, 4), h(2, true, 2, 4)]), Some(1));
}

#[test]
fn the_active_stack_follows_the_collapse() {
    assert_eq!(split_host(false, None, false).active_nav(), 4);
    assert_eq!(split_host(true, None, false).active_nav(), 2);
    assert_eq!(stack_host(false).active_nav(), 4);
    assert!(split_host(true, Some(3), true).is_collapsed_triple());
    assert!(!split_host(false, Some(3), true).is_collapsed_triple());
    assert_eq!(split_host(true, None, false).placeholder(), Some(77));
    assert_eq!(stack_host(false).placeholder(), None);
    assert_eq!(split_host(true, None, false).controller(), 1);
    assert_eq!(stack_host(false).controller(), 4);
}

#[test]
fn the_collapsed_stack_is_topped_by_what_shows() {
    let triple = split_host(false, Some(3), true);
    assert_eq!(triple.top_column_for_collapsing(&vec![page(5)]), Some(Column::Secondary));
    assert_eq!(triple.top_column_for_collapsing(&vec![page(77)]), Some(Column::Supplementary));
    let hidden = split_host(false, Some(3), false);
    assert_eq!(hidden.top_column_for_collapsing(&Vec::new()), Some(Column::Primary));
    assert_eq!(stack_host(false).top_column_for_collapsing(&Vec::new()), None);
}

#[test]
fn a_collapse_strands_no_page() {
    let mut h = split_host(false, None, false);
    let change = h.presentation_changed(false, vec![8], vec![5, 6]).unwrap();
    assert!(h.collapsed);
    assert_eq!(change.node, NodeId(5));
    assert_eq!(change.presentation, Presentation::Stack);
    assert!(!change.rehost);
    let strand = change.strand.unwrap();
    assert_eq!((strand.primary, strand.secondary, strand.merged), (2, 4, vec![8, 5, 6]));
    let back = h.presentation_changed(true, vec![8], vec![5]).unwrap();
    assert_eq!(back.presentation, Presentation::Split);
    assert!(back.rehost && back.strand.is_none());
    let mut merged = split_host(false, None, false);
    assert!(merged.presentation_changed(false, vec![8, 5], vec![6]).unwrap().strand.is_none());
    assert!(stack_host(false).presentation_changed(false, vec![1], vec![2]).is_none());
}

#[test]
fn a_rebuild_is_made_once_and_keeps_the_pages() {
    let mut h = split_host(false, None, true);
    let plan = h.rehost(false, Some(8), &vec![page(77), page(5)], true).unwrap();
    assert_eq!(plan.old_split, 1);
    assert_eq!(plan.emptied, vec![2, 4]);
    assert_eq!(
        plan.config,
        SplitConfig {
            triple: true,
            seed_secondary: false,
            list_width: Some(Scalar(300.0f64.to_bits())),
        }
    );
    assert_eq!((plan.container, plan.primary, plan.supplementary), (9, vec![8], vec![30]));
    assert_eq!(plan.secondary, vec![5]);
    assert!(plan.guarded);
    let fresh = Fresh {
        split_vc: 10,
        primary_nav: 20,
        secondary_nav: 40,
        supplementary_nav: 30,
        placeholder: 31,
    };
    h.rehosted(plan.config, fresh);
    assert_eq!(h.nav, 40);
    let parts = h.split.unwrap();
    assert_eq!(parts.container, 9);
    assert_eq!((parts.split_vc, parts.primary_nav), (10, 20));
    assert_eq!((parts.supplementary_nav, parts.secondary_placeholder), (Some(30), Some(31)));
    let double = first_split(None, true).build(fresh);
    assert_eq!((double.supplementary_nav, double.secondary_placeholder), (None, None));
    assert!(h.rehost(false, Some(8), &Vec::new(), false).is_none());
    assert_eq!(h.settle_columns(), vec![20, 40, 10]);
    assert_eq!(stack_host(false).settle_columns(), Vec::<usize>::new());
}

#[test]
fn a_collapsed_host_is_not_rebuilt() {
    assert!(split_host(true, None, true).rehost(false, None, &Vec::new(), false).is_none());
    assert!(split_host(false, None, true).rehost(true, None, &Vec::new(), false).is_none());
    assert!(stack_host(false).rehost(false, None, &Vec::new(), false).is_none());
    let to_double = split_host(false, Some(3), false).rehost(false, None, &Vec::new(), false).unwrap();
    assert!(!to_double.config.triple && !to_double.config.seed_secondary);
    assert_eq!(to_double.emptied, vec![2, 3, 4]);
    assert!(to_double.primary.is_empty() && to_double.supplementary.is_empty());
}

#[test]
fn host_patches() {
    let mut h = split_host(false, None, false);
    match h.patch(NavPatch::Title("Inbox".to_string()), Some(6)) {
        NavAct::Title(vc, t) => assert_eq!((vc, t.as_str()), (6, "Inbox")),
        _ => panic!("not titled"),
    }
    assert!(matches!(h.patch(NavPatch::Title("x".to_string()), None), NavAct::Nothing));
    assert!(matches!(h.patch(NavPatch::GuardTop(true), None), NavAct::Guard(4, true)));
    assert!(matches!(h.patch(NavPatch::ListVisible(true), None), NavAct::Column));
    assert!(h.split.unwrap().list_shown);
    assert!(matches!(h.patch(NavPatch::Pushed, None), NavAct::Nothing));
    assert!(matches!(h.patch(NavPatch::Select(1), None), NavAct::Nothing));
    let mut c = split_host(true, Some(3), true);
    assert!(matches!(
        c.patch(NavPatch::ListVisible(false), None),
        NavAct::TripleList { svc: 1, primary: 2, show: false }
    ));
    let mut d = split_host(true, None, true);
    assert!(matches!(d.patch(NavPatch::ListVisible(false), None), NavAct::Nothing));
}

#[test]
fn the_first_split_follows_the_first_destination() {
    let w = Some(Scalar(280.0f64.to_bits()));
    assert!(first_split(w, true).triple && first_split(w, true).seed_secondary);
    assert!(!first_split(w, false).triple && !first_split(w, false).seed_secondary);
    assert!(!first_split(None, true).triple);
}

fn around(chain: Vec<usize>) -> Around {
    Around { holder: false, chain, wide: false, enclosing_vc: None }
}

#[test]
fn a_page_goes_on_its_hosts_stack_and_off_it() {
    let mut n = Navs::new();
    n.hosts.insert(1, stack_host(true));
    n.add_page(detail(10, 100));
    n.add_page(PageVc { handle: 11, vc: 101, pane: Pane::Sidebar });
    let r = n.insert(1, 11, &around(vec![1]));
    assert_eq!(r.place, Place::Pushed { vc: 101, dress: PageDress::Search });
    assert!(r.schedule && !r.relayout && r.sync.is_none());
    let r = n.insert(1, 10, &around(vec![1]));
    assert_eq!(
        r,
        Insert {
            relayout: false,
            sync: None,
            place: Place::Pushed { vc: 100, dress: PageDress::Plain },
            schedule: false,
        }
    );
    assert_eq!(n.remove(1, 10), Removal::Popped { schedule: false });
    n.turn_ended(1);
    match n.apply_ops(1, Vec::new()) {
        Apply::Replace { generation, target } => {
            assert_eq!(target, vec![101]);
            assert!(!n.settled(1, generation));
        }
        _ => panic!("not replaced"),
    }
    assert_eq!(n.remove(1, 99), Removal::Nothing);
    assert_eq!(n.remove(50, 10), Removal::View);
    assert!(!n.settled(60, 1));
}

#[test]
fn an_inserted_page_removed_again_leaves_the_stack() {
    let mut n = Navs::new();
    n.hosts.insert(1, stack_host(false));
    n.add_page(detail(10, 100));
    n.insert(1, 10, &around(vec![1]));
    n.remove(1, 10);
    n.turn_ended(1);
    match n.apply_ops(1, vec![7]) {
        Apply::Replace { target, .. } => assert_eq!(target, vec![7]),
        _ => panic!("not replaced"),
    }
}

#[test]
fn columns_take_their_own_pages() {
    let mut n = Navs::new();
    n.hosts.insert(1, split_host(false, Some(3), true));
    n.add_page(PageVc { handle: 10, vc: 100, pane: Pane::List });
    n.add_page(PageVc { handle: 11, vc: 101, pane: Pane::Sidebar });
    assert_eq!(
        n.insert(1, 10, &around(vec![1])).place,
        Place::ListColumn { column: Some(3), vc: 100 }
    );
    assert_eq!(n.hosts[&1].split.unwrap().list_vc, Some(100));
    assert_eq!(
        n.insert(1, 11, &around(vec![1])).place,
        Place::SidebarColumn { nav: 2, vc: 101, dress: PageDress::Sidebar }
    );
    assert_eq!(
        n.insert(55, 10, &around(vec![55])).place,
        Place::ListColumn { column: None, vc: 100 }
    );
}

#[test]
fn a_tabs_host_takes_details_as_tabs() {
    let mut n = Navs::new();
    n.tabs.hosts.insert(1, NavTabs::new(500));
    n.add_page(detail(10, 100));
    n.add_page(PageVc { handle: 11, vc: 101, pane: Pane::Sidebar });
    n.menu_rows.insert(
        20,
        MenuRows { node: 6, titles: vec!["A".to_string()], icons: vec![None] },
    );
    let mut a = around(vec![1]);
    a.wide = true;
    assert_eq!(n.insert(1, 10, &a).place, Place::Tab { page: detail(10, 100), wrap: true });
    n.add_tab(1, 9, TabPage { vc: 700, key: 10 });
    assert_eq!(n.tabs.hosts[&1].pages, vec![TabPage { vc: 700, key: 10 }]);
    assert_eq!(n.insert(1, 11, &a).place, Place::KeptOut);
    assert_eq!(n.insert(1, 12, &a).place, Place::TabStray);
    let r = n.insert(11, 20, &around(vec![11]));
    assert_eq!(r.sync, Some(1));
    assert_eq!(n.tabs.hosts[&1].menu_node, 6);
    assert_eq!(n.tabs.hosts[&1].titles, vec!["A".to_string()]);
    assert!(n.menu_rows.is_empty());
}

#[test]
fn controllers_follow_their_views() {
    let mut n = Navs::new();
    n.hosts.insert(1, split_host(false, None, false));
    n.add_page(detail(10, 100));
    n.covers.insert(30, Cover { vc: 300, node: NodeId(3) });
    assert_eq!(n.controller_of(1), Some(1));
    assert_eq!(
        n.insert(10, 1, &around(vec![10])).place,
        Place::Contained { host_vc: 1, page_vc: 100 }
    );
    let mut a = around(vec![40]);
    a.enclosing_vc = Some(8);
    assert_eq!(n.insert(40, 1, &a).place, Place::Contained { host_vc: 1, page_vc: 8 });
    assert_eq!(n.insert(40, 1, &around(vec![40])).place, Place::Subview);
    assert_eq!(n.insert(40, 30, &a).place, Place::Cover);
    a.holder = true;
    let r = n.insert(40, 41, &a);
    assert!(r.relayout);
    assert_eq!(r.place, Place::Subview);
    assert_eq!(enclosing_view_controller(&vec![None, Some(3), Some(4)]), Some(3));
    assert_eq!(enclosing_view_controller(&vec![None]), None);
}

#[test]
fn a_day_pop_is_marked_on_its_host() {
    let mut n = Navs::new();
    n.hosts.insert(1, stack_host(false));
    n.set_day_pop(1, true);
    assert!(n.hosts[&1].day_pop);
    n.set_day_pop(2, true);
    assert!(!n.hosts.contains_key(&2));
}

#[test]
fn pages_are_found_and_released() {
    let mut n = Navs::new();
    n.add_page(detail(10, 100));
    n.add_page(detail(11, 101));
    n.add_page(detail(10, 102));
    assert_eq!(n.page_of(10), Some(detail(10, 102)));
    assert_eq!(n.release(10), Some(102));
    assert_eq!(n.page_of(10), None);
    assert_eq!(n.page_of(11), Some(detail(11, 101)));
    assert_eq!(n.release(10), None);
}
