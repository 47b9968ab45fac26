use day_uikit::anim::{
    uiview_anim_options, with_uikit_anim, AnimPlan, AnimSpec, Curve, Timing, LEAST_DAMPING,
    SHORTEST, SHORTEST_SPRING,
};
use day_uikit::control::{commit, fire, wires, ControlEvent, Focus, Sender, Trampoline, Wire, Wired};
use day_uikit::draw::Affine;
use day_uikit::event::{emit, lifecycle_supported, Call, Event, Lifecycle, Phase, PresentResult, Sink};
use day_uikit::frame::{holder_layout, scroll_leaf, HolderLayout, HolderScene, LeafLevel, LEAF_DEPTH};
use day_uikit::gesture::{
    phase_of, recognizes_simultaneously, should_begin, GestureKind, Gestures, Recognizer,
    RecognizerState,
};
use day_uikit::present::{
    answer, did_pick, present, Answer, ButtonRole, DialogButton, PresentPlan, PresentSpec,
};
use day_uikit::scene::{
    keyboard_rail, min_window_size, open_url, scene_activity_node, scene_placed, scene_target,
    Activity, Connect, FrameClock, KeyboardRail, SceneEntry, SceneState, Scenes, WindowOpen,
};
use day_uikit::style::{
    appearance_style, badge_count, button_look, dark_mode, day_role_from_traits, focus, focus_step, frame_mode,
    image_scaling, label_color, read_identifier, rect_edges, set_cursor, set_selectable,
    snapshot_view, style_for, surface, theme_override, ui_traits, AppBadge, Backing, ButtonLook,
    ButtonStyle, ContainerProps, ContentMode, Cursor, Edges, FocusAct, FocusEvent, FocusStage, FrameMode, InterfaceStyle,
    LabelColor, PointerChange, PointerStyle, RectEdges, Role, Scaling, Selectable, SnapshotError,
    Surface, TextRole, Trait, TraitBits,
};
use day_uikit::types::{Color, NodeId, Point, Rect, Scalar, Size, Target};
use std::collections::HashMap;

fn s(x: f64) -> Scalar {
    Scalar(x.to_bits())
}

fn pt(x: f64, y: f64) -> Point {
    Point { x: s(x), y: s(y) }
}

fn size(w: f64, h: f64) -> Size {
    Size { width: s(w), height: s(h) }
}

fn rect(h: f64) -> Rect {
    Rect { origin: pt(0.0, 0.0), size: size(100.0, h) }
}

fn color() -> Color {
    Color { r: s(0.1), g: s(0.2), b: s(0.3), a: s(1.0) }
}

#[test]
fn scalars_order_as_numbers() {
    let all = [f64::NEG_INFINITY, -2.5, -0.0, 0.0, 1e-300, 1.0, 7.5, f64::INFINITY, f64::NAN];
    for a in all {
        for b in all {
            assert_eq!(s(a).less(s(b)), a < b);
            assert_eq!(s(a).same(s(b)), a == b);
            assert_eq!(s(a).exceeds(s(b)), a.abs() > b.abs());
            let (max, min) = (s(a).max(s(b)), s(a).min(s(b)));
            let (want_max, want_min) = (a.max(b), a.min(b));
            if want_max.is_nan() {
                assert!(f64::from_bits(max.0).is_nan());
                assert!(f64::from_bits(min.0).is_nan());
            } else {
                assert_eq!(f64::from_bits(max.0), want_max);
                assert_eq!(f64::from_bits(min.0), want_min);
            }
        }
        assert_eq!(s(a).is_positive(), a > 0.0);
    }
}

#[test]
fn events_need_a_sink() {
    let mut sink = Sink::new();
    assert_eq!(emit(&sink, Target::Window, Event::Pressed), None);
    sink.install(7);
    assert_eq!(
        emit(&sink, Target::Node(NodeId(2)), Event::Pressed),
        Some(Call { sink: 7, to: Target::Node(NodeId(2)), event: Event::Pressed })
    );
    sink.install(8);
    assert_eq!(
        emit(&sink, Target::Window, Event::Undo { redo: true }),
        Some(Call { sink: 8, to: Target::Window, event: Event::Undo { redo: true } })
    );
}

#[test]
fn every_lifecycle_phase_is_delivered() {
    let all = [
        Lifecycle::WillEnterForeground,
        Lifecycle::DidEnterBackground,
        Lifecycle::DidBecomeActive,
        Lifecycle::WillResignActive,
        Lifecycle::DidReceiveMemoryWarning,
        Lifecycle::WillTerminate,
    ];
    assert!(all.into_iter().all(lifecycle_supported));
}

#[test]
fn animations_take_time() {
    assert_eq!(f64::from_bits(SHORTEST), 0.01);
    assert_eq!(f64::from_bits(SHORTEST_SPRING), 0.05);
    assert_eq!(f64::from_bits(LEAST_DAMPING), 0.05);
    assert_eq!(with_uikit_anim(None), AnimPlan::Now);
    let a = |curve, duration, delay| {
        with_uikit_anim(Some(AnimSpec { curve, duration: s(duration), delay: s(delay) }))
    };
    assert_eq!(
        a(Curve::EaseIn, 0.0, -1.0),
        AnimPlan::Timed { duration: s(0.01), delay: s(0.0), timing: Timing::EaseIn }
    );
    assert_eq!(
        a(Curve::Linear, 0.3, 0.1),
        AnimPlan::Timed { duration: s(0.3), delay: s(0.1), timing: Timing::Linear }
    );
    let spring = |damping: f64| match a(Curve::Spring { damping: s(damping) }, 0.01, 0.2) {
        AnimPlan::Spring { duration, delay, damping } => {
            assert_eq!((duration, delay), (s(0.05), s(0.2)));
            f64::from_bits(damping.0)
        }
        _ => panic!("not a spring"),
    };
    assert_eq!((spring(0.0), spring(0.5), spring(3.0)), (0.05, 0.5, 1.0));
    assert_eq!(uiview_anim_options(Curve::EaseInOut), Timing::EaseInOut);
    assert_eq!(uiview_anim_options(Curve::EaseOut), Timing::EaseOut);
}

#[test]
fn controls_report() {
    assert_eq!(fire(Sender::Switch(true)), Event::ToggleChanged(true));
    assert_eq!(fire(Sender::Slider(s(0.5))), Event::ValueChanged(s(0.5)));
    assert_eq!(fire(Sender::Field(Some("x".to_string()))), Event::TextChanged("x".to_string()));
    assert_eq!(fire(Sender::Field(None)), Event::TextChanged(String::new()));
    assert_eq!(fire(Sender::Other), Event::Pressed);
    assert_eq!(commit(Sender::Slider(s(2.0))), Some(Event::ValueCommitted(s(2.0))));
    assert_eq!(commit(Sender::Other), None);
    let mut f = Focus::new();
    assert_eq!(f.edit_began(9), Event::FocusChanged(true));
    assert_eq!(f.field, Some(9));
    assert_eq!(f.edit_exit(), Event::Submitted);
    assert_eq!(f.edit_ended(), Event::FocusChanged(false));
    assert_eq!(f.field, None);
}

#[test]
fn a_slider_commits_apart_from_its_changes() {
    let w = |method, on| Wire { method, on };
    assert_eq!(wires(Wired::Button), vec![w(Trampoline::Fire, ControlEvent::TouchUpInside)]);
    assert_eq!(wires(Wired::Toggle), vec![w(Trampoline::Fire, ControlEvent::ValueChanged)]);
    assert_eq!(
        wires(Wired::Slider),
        vec![
            w(Trampoline::Fire, ControlEvent::ValueChanged),
            w(Trampoline::Commit, ControlEvent::TouchUp),
        ]
    );
    assert_eq!(wires(Wired::TextField).len(), 4);
}

#[test]
fn gestures_report() {
    let at = pt(1.0, 2.0);
    let go = |kind, travel, scale| {
        day_uikit::gesture::fire(kind, RecognizerState::Changed, at, travel, scale)
    };
    let d = go(GestureKind::Drag, Some(pt(3.0, 4.0)), None);
    assert!(!d.reset);
    assert_eq!(
        d.event,
        Event::Drag { phase: Phase::Changed, location: at, travel: pt(3.0, 4.0) }
    );
    let p = go(GestureKind::Pan, Some(pt(3.0, 4.0)), None);
    assert!(p.reset);
    assert_eq!(p.event, Event::Pan { phase: Phase::Changed, delta: pt(3.0, 4.0), location: at });
    assert!(!go(GestureKind::Pan, None, None).reset);
    assert_eq!(
        go(GestureKind::Pinch, None, None).event,
        Event::Pinch { phase: Phase::Changed, scale: s(1.0), location: at }
    );
    assert_eq!(
        go(GestureKind::Hover, None, None).event,
        Event::Hover { phase: Phase::Changed, location: at }
    );
    assert_eq!(go(GestureKind::Tap, None, None).event, Event::Tap(at));
    assert_eq!(phase_of(RecognizerState::Began), Phase::Began);
    assert_eq!(phase_of(RecognizerState::Cancelled), Phase::Ended);
    assert_eq!(phase_of(RecognizerState::Failed), Phase::Ended);
    assert_eq!(phase_of(RecognizerState::Possible), Phase::Changed);
}

#[test]
fn a_vertical_pan_is_left_to_the_scroll() {
    assert!(!should_begin(Some(pt(1.0, -5.0)), true));
    assert!(should_begin(Some(pt(-5.0, 1.0)), true));
    assert!(should_begin(Some(pt(1.0, 5.0)), false));
    assert!(should_begin(None, true));
    assert!(recognizes_simultaneously(GestureKind::Drag));
    assert!(!recognizes_simultaneously(GestureKind::Pinch));
}

#[test]
fn a_view_has_one_recognizer_of_a_kind() {
    let mut g = Gestures::new();
    assert_eq!(
        g.enable(1, GestureKind::Pan),
        Some(Recognizer { kind: GestureKind::Pan, touches: Some(2), delegate: true })
    );
    assert_eq!(g.enable(1, GestureKind::Pan), None);
    assert_eq!(
        g.enable(1, GestureKind::Tap),
        Some(Recognizer { kind: GestureKind::Tap, touches: None, delegate: false })
    );
    assert!(g.enable(2, GestureKind::Pan).is_some());
    g.release(1);
    assert!(g.enable(1, GestureKind::Pan).is_some());
    assert_eq!(g.enable(2, GestureKind::Pan), None);
}

#[test]
fn one_absorbing_leaf_bleeds() {
    let wrap = LeafLevel { children: 1, hosted: false, scroll: false };
    let scroll = LeafLevel { children: 1, hosted: false, scroll: true };
    let host = LeafLevel { children: 1, hosted: true, scroll: false };
    let two = LeafLevel { children: 2, hosted: true, scroll: true };
    assert!(scroll_leaf(&vec![scroll]));
    assert!(scroll_leaf(&vec![wrap, wrap, host]));
    assert!(!scroll_leaf(&vec![wrap, two, scroll]));
    assert!(!scroll_leaf(&vec![wrap]));
    let mut deep = vec![wrap; LEAF_DEPTH - 1];
    deep.push(scroll);
    assert!(scroll_leaf(&deep));
    deep.insert(0, wrap);
    assert!(!scroll_leaf(&deep));
}

#[test]
fn a_holder_lays_out_when_its_base_changes() {
    let scene = |target| Some(HolderScene { base: rect(50.0), target });
    assert_eq!(holder_layout(None, rect(60.0)), None);
    assert_eq!(holder_layout(scene(Target::Window), rect(50.0)), None);
    assert_eq!(
        holder_layout(scene(Target::Window), rect(60.0)),
        Some(HolderLayout { frame: rect(60.0), target: Target::Window, primary: true })
    );
    let node = Target::Node(NodeId(3));
    assert_eq!(
        holder_layout(scene(node), rect(60.0)),
        Some(HolderLayout { frame: rect(60.0), target: node, primary: false })
    );
}

#[test]
fn looks() {
    assert_eq!(button_look(ButtonStyle::Compact), ButtonLook::Plain);
    assert_eq!(button_look(ButtonStyle::Prominent), ButtonLook::BorderedProminent);
    assert_eq!(button_look(ButtonStyle::Tinted(color())), ButtonLook::Filled(color()));
    let p = |section_card, background, radius, clips| {
        surface(Some(ContainerProps { section_card, background, corner_radius: s(radius), clips }))
    };
    assert_eq!(surface(None), Surface::Bare);
    assert_eq!(p(false, None, 0.0, false), Surface::Bare);
    assert_eq!(p(true, None, 8.0, false), Surface::Card { radius: s(8.0) });
    assert_eq!(
        p(false, None, 8.0, false),
        Surface::Styled { background: None, radius: s(8.0), masks: true }
    );
    assert_eq!(
        p(false, Some(color()), 0.0, false),
        Surface::Styled { background: Some(color()), radius: s(0.0), masks: false }
    );
    assert_eq!(label_color(None, TextRole::Primary), LabelColor::Unset);
    assert_eq!(label_color(None, TextRole::Secondary), LabelColor::Secondary);
    assert_eq!(label_color(Some(color()), TextRole::Secondary), LabelColor::Explicit(color()));
    assert_eq!(image_scaling(ContentMode::Fill), Scaling::AspectFill);
    assert_eq!(image_scaling(ContentMode::Fit), Scaling::AspectFit);
    assert_eq!(image_scaling(ContentMode::Stretch), Scaling::ScaleToFill);
}

#[test]
fn pointers_come_and_go() {
    assert_eq!(style_for(Cursor::Text, false), PointerStyle::BeamVertical);
    assert_eq!(style_for(Cursor::VerticalText, false), PointerStyle::BeamHorizontal);
    assert_eq!(style_for(Cursor::Hidden, true), PointerStyle::Hidden);
    assert_eq!(style_for(Cursor::Grab, true), PointerStyle::Highlight);
    assert_eq!(style_for(Cursor::Grab, false), PointerStyle::System);
    assert_eq!(style_for(Cursor::Move, true), PointerStyle::Lift);
    assert_eq!(style_for(Cursor::Other, true), PointerStyle::System);
    let mut p = HashMap::new();
    assert_eq!(set_cursor(&mut p, 1, Cursor::Default), PointerChange::Nothing);
    assert_eq!(set_cursor(&mut p, 1, Cursor::Text), PointerChange::Attach);
    assert_eq!(set_cursor(&mut p, 1, Cursor::Move), PointerChange::Invalidate);
    assert_eq!(p[&1], Cursor::Move);
    assert_eq!(set_cursor(&mut p, 1, Cursor::Default), PointerChange::Detach);
    assert!(p.is_empty());
}

#[test]
fn roles_read_back() {
    let bits = |t: Option<Trait>| TraitBits {
        button: t == Some(Trait::Button),
        adjustable: t == Some(Trait::Adjustable),
        header: t == Some(Trait::Header),
        image: t == Some(Trait::Image),
    };
    let read = |r| day_role_from_traits(bits(ui_traits(r)));
    assert_eq!(read(Role::Button), Role::Button);
    assert_eq!(read(Role::Toggle), Role::Plain);
    assert_eq!(read(Role::Slider), Role::Slider);
    assert_eq!(read(Role::Heading(3)), Role::Heading(0));
    assert_eq!(read(Role::Image), Role::Image);
    assert_eq!(read(Role::Other), Role::Plain);
    assert_eq!(read_identifier(Some(String::new())), None);
    assert_eq!(read_identifier(Some("a".to_string())).as_deref(), Some("a"));
    assert_eq!(read_identifier(None), None);
}

#[test]
fn frames_and_focus() {
    let mut t = Affine { a: s(1.0), b: s(-0.0), c: s(0.0), d: s(1.0), tx: s(0.0), ty: s(0.0) };
    assert_eq!(frame_mode(false, t), FrameMode::Frame);
    assert_eq!(frame_mode(true, t), FrameMode::Ignore);
    t.tx = s(4.0);
    assert_eq!(frame_mode(false, t), FrameMode::BoundsAndCenter);
    assert_eq!(focus(true, false), FocusAct::Become);
    assert_eq!(focus(false, true), FocusAct::Resign);
    assert_eq!(focus(false, false), FocusAct::Nothing);
    let (refused, act) = focus_step(FocusStage::Asked, FocusEvent::Answered(false));
    assert_eq!((refused, act), (FocusStage::Refused, FocusAct::NextTurn));
    let (again, act) = focus_step(refused, FocusEvent::Turn { owns: false });
    assert_eq!((again, act), (FocusStage::AskedAgain, FocusAct::Become));
    let settled = (FocusStage::Settled, FocusAct::Nothing);
    assert_eq!(focus_step(again, FocusEvent::Answered(false)), settled);
    assert_eq!(focus_step(refused, FocusEvent::Turn { owns: true }), settled);
    assert_eq!(focus_step(FocusStage::Asked, FocusEvent::Answered(true)), settled);
    assert_eq!(set_selectable(Backing::TextView, false), Selectable::Flip(false));
    assert_eq!(set_selectable(Backing::Label, true), Selectable::Swap);
    assert_eq!(set_selectable(Backing::Label, false), Selectable::Nothing);
    assert_eq!(set_selectable(Backing::Other, true), Selectable::Nothing);
}

#[test]
fn captures_need_a_window_and_an_area() {
    assert_eq!(snapshot_view(true, size(10.0, 10.0)), Ok(()));
    assert_eq!(snapshot_view(false, size(10.0, 10.0)), Err(SnapshotError::NotInWindow));
    assert_eq!(snapshot_view(true, size(0.0, 10.0)), Err(SnapshotError::ZeroSize));
    assert_eq!(snapshot_view(true, size(10.0, -1.0)), Err(SnapshotError::ZeroSize));
    assert_eq!(SnapshotError::NoWindow.message(), "no window to capture");
    assert_eq!(SnapshotError::NotInWindow.message(), "view is not in a window");
    assert_eq!(SnapshotError::ZeroSize.message(), "zero-size window");
    assert_eq!(SnapshotError::Encode.message(), "png encode failed");
}

#[test]
fn badges_are_numbers() {
    assert_eq!(badge_count(&AppBadge::Cleared), 0);
    assert_eq!(badge_count(&AppBadge::Count(7)), 7);
    assert_eq!(badge_count(&AppBadge::Text("!".to_string())), 0);
    assert_eq!(badge_count(&AppBadge::Dot), 0);
    assert_eq!(
        rect_edges(Edges { top: true, bottom: false, leading: true, trailing: false }),
        RectEdges { top: true, bottom: false, left: true, right: false }
    );
}

#[test]
fn an_appearance_override_reads_back() {
    for dark in [true, false] {
        for ambient in [InterfaceStyle::Light, InterfaceStyle::Dark] {
            assert_eq!(dark_mode(&None, appearance_style(Some(dark)), ambient), dark);
        }
    }
    assert!(dark_mode(&None, appearance_style(None), InterfaceStyle::Dark));
    assert!(!dark_mode(&Some("light".to_string()), InterfaceStyle::Dark, InterfaceStyle::Dark));
    assert!(dark_mode(&Some("dark".to_string()), InterfaceStyle::Light, InterfaceStyle::Light));
    assert_eq!(theme_override(&Some("Dark".to_string())), None);
}

#[test]
fn dialogs_answer_by_position() {
    let spec = PresentSpec::Dialog {
        title: "T".to_string(),
        message: None,
        buttons: vec![
            DialogButton { label: "Go".to_string(), role: ButtonRole::Destructive },
            DialogButton { label: "No".to_string(), role: ButtonRole::Cancel },
        ],
        sheet: true,
    };
    let PresentPlan::Alert(a) = present(spec, true) else {
        panic!("no alert");
    };
    assert!(a.sheet && a.field.is_none());
    assert_eq!(a.actions[1].label, "No");
    assert_eq!(a.actions[1].style, ButtonRole::Cancel);
    assert_eq!(a.actions[1].answer, Answer::Button(1));
    assert_eq!(answer(Answer::Button(1), None), PresentResult::Button(1));
}

#[test]
fn prompts_answer_with_their_text() {
    let spec = PresentSpec::Prompt {
        title: "T".to_string(),
        message: Some("m".to_string()),
        placeholder: "p".to_string(),
        initial: "i".to_string(),
        ok: "OK".to_string(),
        cancel: "Cancel".to_string(),
    };
    let PresentPlan::Alert(a) = present(spec, false) else {
        panic!("no alert");
    };
    assert!(!a.sheet);
    let field = a.field.unwrap();
    assert_eq!((field.placeholder.as_str(), field.initial.as_str()), ("p", "i"));
    let answers: Vec<Answer> = a.actions.iter().map(|x| x.answer).collect();
    assert_eq!(answers, vec![Answer::Text, Answer::Dismissed]);
    assert_eq!(answer(Answer::Text, Some("x".to_string())), PresentResult::Text("x".to_string()));
    assert_eq!(answer(Answer::Text, None), PresentResult::Text(String::new()));
    assert_eq!(answer(Answer::Dismissed, None), PresentResult::Dismissed);
}

#[test]
fn scripted_pickers_are_not_shown() {
    assert!(matches!(present(PresentSpec::OpenFile, true), PresentPlan::Nothing));
    assert!(matches!(present(PresentSpec::OpenFile, false), PresentPlan::OpenPicker));
    let save = || PresentSpec::SaveFile { src_path: "/tmp/a".to_string() };
    assert!(matches!(present(save(), true), PresentPlan::Nothing));
    assert!(matches!(present(save(), false), PresentPlan::SavePicker(p) if p == "/tmp/a"));
}

#[test]
fn every_document_is_one_file() {
    let one = |p: &str| Some(p.to_string());
    assert_eq!(
        did_pick(&vec![one("/a"), one("/b")]),
        PresentResult::Files(vec!["/a".to_string(), "/b".to_string()])
    );
    assert_eq!(did_pick(&vec![None, one("/b")]), PresentResult::Files(vec!["/b".to_string()]));
    assert_eq!(did_pick(&vec![None]), PresentResult::Dismissed);
    assert_eq!(did_pick(&Vec::new()), PresentResult::Dismissed);
}

fn entry(window: usize, root: usize, node: Option<u64>) -> SceneEntry {
    SceneEntry { window, root_view: root, base: rect(1.0), node: node.map(NodeId) }
}

#[test]
fn scenes_are_found() {
    let mut sc = Scenes::new();
    sc.connected(entry(10, 100, Some(5)));
    sc.connected(entry(11, 101, None));
    assert_eq!(sc.key_scene(&vec![10]), Some(entry(10, 100, Some(5))));
    assert_eq!(sc.key_scene(&Vec::new()), Some(entry(11, 101, None)));
    assert_eq!(sc.scene_of(Some(10)), Some(entry(10, 100, Some(5))));
    assert_eq!(sc.scene_of_root(101), Some(entry(11, 101, None)));
    assert_eq!(sc.scene_of_root(7), None);
    assert_eq!(scene_target(&entry(10, 100, Some(5))), Target::Node(NodeId(5)));
    assert_eq!(scene_target(&entry(11, 101, None)), Target::Window);
    sc.set_base(10, rect(9.0));
    assert_eq!(sc.entries[0].base, rect(9.0));
    assert_eq!(sc.scene_node(&vec![10]), Some(NodeId(5)));
    assert_eq!(
        sc.focus_changed(&vec![10], true),
        Some((NodeId(5), Event::WindowFocused(true)))
    );
    assert_eq!(sc.focus_changed(&vec![11], true), None);
    assert_eq!(sc.did_disconnect(&vec![10]), Some((NodeId(5), Event::WindowClosed)));
    assert_eq!(sc.did_disconnect(&vec![10]), None);
    assert_eq!(sc.entries.len(), 1);
    sc.release_root(101);
    assert_eq!(sc.key_scene(&vec![11]), None);
}

#[test]
fn a_dropped_window_is_gone() {
    let mut sc = Scenes::new();
    sc.connected(entry(10, 100, Some(5)));
    sc.connected(entry(11, 101, Some(6)));
    sc.drop_node(NodeId(5));
    assert_eq!(sc.entries, vec![entry(11, 101, Some(6))]);
}

#[test]
fn lifecycle_follows_all_scenes() {
    let (a, i, o) = (SceneState::ForegroundActive, SceneState::ForegroundInactive, SceneState::Other);
    let mut sc = Scenes::new();
    assert_eq!(
        sc.note_lifecycle(&vec![a]),
        vec![Lifecycle::WillEnterForeground, Lifecycle::DidBecomeActive]
    );
    assert!(sc.note_lifecycle(&vec![i, a]).is_empty());
    assert!(sc.note_lifecycle(&vec![a, i]).is_empty());
    assert_eq!(sc.note_lifecycle(&vec![i, o]), vec![Lifecycle::WillResignActive]);
    assert_eq!(sc.note_lifecycle(&vec![o]), vec![Lifecycle::DidEnterBackground]);
    assert!(sc.note_lifecycle(&Vec::new()).is_empty());
    assert!(!sc.active && !sc.foreground);
}

#[test]
fn scenes_connect() {
    let mut sc = Scenes::new();
    assert_eq!(sc.will_connect(None), Connect::Destroy);
    sc.launch();
    assert_eq!(sc.will_connect(None), Connect::Primary);
    assert_eq!(sc.open_window(false, false, NodeId(1), String::new()), WindowOpen::Unsupported);
    assert_eq!(sc.open_window(true, true, NodeId(1), String::new()), WindowOpen::Unsupported);
    assert_eq!(sc.open_window(true, false, NodeId(1), "W".to_string()), WindowOpen::Pending);
    assert_eq!(sc.pending.len(), 1);
    assert_eq!(sc.will_connect(Some(NodeId(1))), Connect::Secondary(NodeId(1)));
    assert!(sc.pending.is_empty());
}

#[test]
fn activities_name_windows() {
    let a = |kind: &str, node| Activity { kind: kind.to_string(), node };
    let w = "dev.daybrite.day.window";
    assert_eq!(
        scene_activity_node(&vec![a("other", Some(1)), a(w, None), a(w, Some(7)), a(w, Some(8))]),
        Some(NodeId(7))
    );
    assert_eq!(scene_activity_node(&vec![a("other", Some(1))]), None);
}

#[test]
fn windows_keep_a_size() {
    assert_eq!(min_window_size(Some(size(0.0, 0.0)), None), Some(size(0.0, 0.0)));
    assert_eq!(min_window_size(None, Some(size(320.0, 480.0))), Some(size(320.0, 480.0)));
    assert_eq!(min_window_size(None, Some(size(320.0, 0.0))), None);
    assert_eq!(min_window_size(None, None), None);
    assert!(scene_placed(size(1.0, 1.0)));
    assert!(!scene_placed(size(0.0, 1.0)));
    assert_eq!(
        keyboard_rail(s(400.0), s(800.0), s(800.0)),
        KeyboardRail { resize: true, reveal: true }
    );
    assert_eq!(
        keyboard_rail(s(800.0), s(800.0), s(800.0)),
        KeyboardRail { resize: false, reveal: false }
    );
    assert_eq!(
        open_url(Some(NodeId(1)), "a/b".to_string()),
        Some((NodeId(1), Event::RouteRequested("a/b".to_string())))
    );
    assert_eq!(open_url(Some(NodeId(1)), String::new()), None);
    assert_eq!(open_url(None, "a".to_string()), None);
}

#[test]
fn the_frame_clock_pauses_when_nobody_waits() {
    let mut c = FrameClock::new();
    assert!(c.request_frame(1));
    assert!(!c.request_frame(2));
    assert_eq!(c.step(), Some(2));
    assert!(!c.request_frame(3));
    assert!(!c.settle());
    assert_eq!(c.step(), Some(3));
    assert!(c.settle());
    assert!(c.paused);
    assert_eq!(c.step(), None);
}
