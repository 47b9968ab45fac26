use day_uikit::control::Wired;
use day_uikit::font::{Font, FontSpec, TextStyle};
use day_uikit::list::{RowDelta, RowHeight};
use day_uikit::nav_menu::MenuContent;
use day_uikit::nav_stack::Pane;
use day_uikit::navs::Cover;
use day_uikit::piece::{
    measure, measure_ask, realize, update, wired, Act, Ask, Builtin, ButtonPatch, CoverPatch,
    FieldPatch, Kind, LabelPatch, LabelProps, ListPatch, ListProps, NavMenuProps, NavProps, Patch,
    Proposal, Props, SearchProps, Seen, TreeProps, ViewClass, Widget, BAR_HEIGHT, CONTROL_WIDTH,
    FIELD_HEIGHT, MENU_WIDTH, SLIDER_HEIGHT, SPINNER_SIDE, UNBOUNDED,
};
use day_uikit::split::{Lowering, NavPatch};
use day_uikit::style::{
    ButtonLook, ButtonStyle, ContainerProps, ContentMode, LabelColor, Scaling, Surface, TextRole,
};
use day_uikit::text::{TextRun, Underline};
use day_uikit::tree::TreePatch;
use day_uikit::types::{Color, NodeId, Scalar, Size};

const ALL: [Builtin; 22] = [
    Builtin::Container,
    Builtin::Nav,
    Builtin::NavPage,
    Builtin::Cover,
    Builtin::NavMenu,
    Builtin::Tree,
    Builtin::List,
    Builtin::Scroll,
    Builtin::Label,
    Builtin::Button,
    Builtin::Toggle,
    Builtin::Slider,
    Builtin::Picker,
    Builtin::TextArea,
    Builtin::TextField,
    Builtin::Divider,
    Builtin::Progress,
    Builtin::Canvas,
    Builtin::Image,
    Builtin::ListCell,
    Builtin::Inspector,
    Builtin::InspectorPane,
];

fn s(x: f64) -> Scalar {
    Scalar(x.to_bits())
}

fn own(t: &str) -> String {
    t.to_string()
}

fn color() -> Color {
    Color { r: s(0.5), g: s(0.5), b: s(0.5), a: s(1.0) }
}

fn font() -> FontSpec {
    FontSpec {
        font: Font::Style(TextStyle::Body),
        weight: None,
        italic: false,
        tabular: false,
        monospace: false,
        scale: s(1.0),
    }
}

fn run(link: Option<&str>) -> TextRun {
    TextRun {
        start: 0,
        end: 1,
        font: font(),
        color: None,
        background: None,
        underline: Underline::Off,
        strikethrough: false,
        link: link.map(own),
    }
}

fn menu() -> MenuContent {
    MenuContent {
        items: vec![own("a")],
        icons: Vec::new(),
        tints: Vec::new(),
        menus: Vec::new(),
        badge_icons: Vec::new(),
        badge_tints: Vec::new(),
        sections: Vec::new(),
    }
}

fn nav(lowering: Lowering, list_width: Option<Scalar>, list_visible: bool) -> Props {
    Props::Nav(NavProps {
        lowering,
        list_width,
        list_visible,
        search: Some(SearchProps { prompt: own("Find"), text: own("") }),
    })
}

fn make(b: Builtin, props: Props) -> Widget {
    realize(Kind::Builtin(b), props, false)
}

#[test]
fn mismatched_props_degrade() {
    for b in ALL {
        let w = make(b, Props::Mismatch);
        match b {
            Builtin::Container => assert!(matches!(w, Widget::Container(Surface::Bare))),
            Builtin::Picker | Builtin::TextArea => assert!(matches!(w, Widget::Delegated(d) if d == b)),
            Builtin::ListCell | Builtin::Inspector | Builtin::InspectorPane => {
                assert!(matches!(w, Widget::Missing))
            }
            Builtin::Scroll => assert!(matches!(w, Widget::Scroll)),
            Builtin::Divider => assert!(matches!(w, Widget::Divider)),
            Builtin::Canvas => assert!(matches!(w, Widget::Canvas)),
            Builtin::Cover => assert!(matches!(w, Widget::Cover)),
            _ => assert!(matches!(w, Widget::Placeholder)),
        }
    }
}

#[test]
fn extensions_need_a_renderer() {
    assert!(matches!(realize(Kind::Extension(9), Props::Mismatch, true), Widget::Extension));
    assert!(matches!(realize(Kind::Extension(9), Props::Mismatch, false), Widget::Missing));
    let cell = Kind::Builtin(Builtin::ListCell);
    assert!(matches!(realize(cell, Props::Mismatch, true), Widget::Extension));
}

#[test]
fn navigation_hosts() {
    let wide = Some(s(300.0));
    assert!(matches!(make(Builtin::Nav, nav(Lowering::Tabs, None, false)), Widget::TabsHost));
    assert!(matches!(
        make(Builtin::Nav, nav(Lowering::Stack, wide, true)),
        Widget::StackHost { search: Some(sp) } if sp.prompt == "Find"
    ));
    match make(Builtin::Nav, nav(Lowering::Split, wide, true)) {
        Widget::SplitHost { config, list_visible: true, search: Some(_) } => {
            assert!(config.triple && config.seed_secondary);
            assert_eq!(config.list_width, wide);
        }
        _ => panic!("not a split"),
    }
    assert!(matches!(
        make(Builtin::Nav, nav(Lowering::Split, None, true)),
        Widget::SplitHost { config, .. } if !config.triple
    ));
    let page = Props::NavPage { title: own("P"), pane: Pane::List };
    assert!(matches!(
        make(Builtin::NavPage, page),
        Widget::NavPage { title, pane: Pane::List } if title == "P"
    ));
    let m = Props::NavMenu(NavMenuProps { content: menu(), selected: Some(0) });
    assert!(matches!(make(Builtin::NavMenu, m), Widget::NavMenu(p) if p.selected == Some(0)));
}

#[test]
fn containers_and_collections() {
    let p = ContainerProps {
        section_card: true,
        background: None,
        corner_radius: s(4.0),
        clips: false,
    };
    assert!(matches!(
        make(Builtin::Container, Props::Container(p)),
        Widget::Container(Surface::Card { .. })
    ));
    let t = TreeProps { row_height: RowHeight::Automatic, selectable: true, multi_select: false };
    assert!(matches!(
        make(Builtin::Tree, Props::Tree(t)),
        Widget::Tree { row_height, selectable: true, multi_select: false } if row_height == s(44.0)
    ));
    let list = |separators| {
        make(
            Builtin::List,
            Props::List(ListProps {
                row_height: RowHeight::Uniform(s(60.0)),
                selectable: false,
                separators,
                reorderable: true,
                delete_label: own("Del"),
            }),
        )
    };
    assert!(matches!(list(None), Widget::List { separators: true, reorderable: true, .. }));
    assert!(matches!(list(Some(true)), Widget::List { separators: true, .. }));
    assert!(matches!(
        list(Some(false)),
        Widget::List { separators: false, row_height, delete_label, .. }
            if row_height == s(60.0) && delete_label == "Del"
    ));
}

#[test]
fn labels_with_links_are_text_views() {
    let label = |runs, color| {
        make(
            Builtin::Label,
            Props::Label(LabelProps {
                text: own("x"),
                font: font(),
                color,
                role: TextRole::Secondary,
                runs,
            }),
        )
    };
    assert!(matches!(
        label(vec![run(None)], None),
        Widget::Label { ink: LabelColor::Secondary, tint: None, runs, .. } if runs.len() == 1
    ));
    assert!(matches!(
        label(Vec::new(), Some(color())),
        Widget::Label { ink: LabelColor::Explicit(_), .. }
    ));
    assert!(matches!(label(vec![run(None), run(Some("u"))], None), Widget::LinkLabel { .. }));
}

#[test]
fn controls_are_wired() {
    let button = make(
        Builtin::Button,
        Props::Button { title: own("Go"), style: ButtonStyle::Bordered },
    );
    assert!(matches!(&button, Widget::Button { look: ButtonLook::Bordered, title } if title == "Go"));
    assert_eq!(wired(&button), Some(Wired::Button));
    let toggle = make(Builtin::Toggle, Props::Toggle { on: true, enabled: false });
    assert!(matches!(toggle, Widget::Toggle { on: true, enabled: false }));
    assert_eq!(wired(&toggle), Some(Wired::Toggle));
    let slider =
        make(Builtin::Slider, Props::Slider { min: s(0.0), max: s(1.0), value: s(0.5) });
    assert_eq!(wired(&slider), Some(Wired::Slider));
    let field = make(
        Builtin::TextField,
        Props::TextField { text: own(""), placeholder: own("p"), secure: true },
    );
    assert!(matches!(&field, Widget::TextField { secure: true, .. }));
    assert_eq!(wired(&field), Some(Wired::TextField));
    assert_eq!(wired(&Widget::Divider), None);
    assert_eq!(wired(&make(Builtin::Button, Props::Mismatch)), None);
}

#[test]
fn progress_and_images() {
    let p = |fraction| make(Builtin::Progress, Props::Progress { fraction });
    assert!(matches!(p(Some(s(0.3))), Widget::ProgressBar(v) if v == s(0.3)));
    assert!(matches!(p(None), Widget::Spinner));
    let i = Props::Image { source: own("cat"), mode: ContentMode::Fill, tint: None };
    assert!(matches!(
        make(Builtin::Image, i),
        Widget::Image { scaling: Scaling::AspectFill, tint: None, source } if source == "cat"
    ));
}

fn seen(class: ViewClass) -> Seen {
    Seen {
        class,
        on: false,
        moved: true,
        has_font: true,
        text: Some(own("old")),
        configured: false,
        config_title: None,
        state_title: Some(own("State")),
        rows: Some(3),
        cover: Some(Cover { vc: 8, node: NodeId(2) }),
        tabs_host: false,
        search: true,
        registered: false,
    }
}

fn act(b: Builtin, patch: Patch, class: ViewClass) -> Act {
    update(Kind::Builtin(b), patch, seen(class))
}

#[test]
fn a_patch_of_another_kind_asks_nothing() {
    for b in ALL {
        if b != Builtin::Picker && b != Builtin::TextArea {
            assert!(matches!(act(b, Patch::Mismatch, ViewClass::Other), Act::Nothing));
        }
    }
    assert!(matches!(
        act(Builtin::Picker, Patch::Mismatch, ViewClass::Other),
        Act::Delegated(Builtin::Picker)
    ));
    assert!(matches!(
        update(Kind::Extension(1), Patch::Mismatch, seen(ViewClass::Other)),
        Act::Nothing
    ));
    let mut known = seen(ViewClass::Other);
    known.registered = true;
    assert!(matches!(update(Kind::Extension(1), Patch::Mismatch, known), Act::Extension));
}

#[test]
fn a_patch_of_another_view_asks_nothing() {
    let other = ViewClass::Other;
    assert!(matches!(act(Builtin::Label, Patch::Label(LabelPatch::Text(own("x"))), other), Act::Nothing));
    assert!(matches!(act(Builtin::Button, Patch::Button(ButtonPatch::Enabled(true)), other), Act::Nothing));
    assert!(matches!(act(Builtin::Toggle, Patch::ToggleOn(true), other), Act::Nothing));
    assert!(matches!(act(Builtin::Slider, Patch::SliderValue(s(1.0)), other), Act::Nothing));
    assert!(matches!(act(Builtin::Progress, Patch::Progress(Some(s(1.0))), other), Act::Nothing));
    assert!(matches!(act(Builtin::TextField, Patch::Field(FieldPatch::Enabled(true)), other), Act::Nothing));
    assert!(matches!(act(Builtin::Image, Patch::ImageTint(None), other), Act::Nothing));
    assert!(matches!(act(Builtin::NavMenu, Patch::MenuSelected(None), other), Act::Nothing));
}

#[test]
fn label_patches() {
    for class in [ViewClass::Label, ViewClass::TextView] {
        let a = |p| act(Builtin::Label, Patch::Label(p), class);
        assert!(matches!(a(LabelPatch::Text(own("x"))), Act::Text(t) if t == "x"));
        assert!(matches!(a(LabelPatch::Font(font())), Act::Font(_)));
        assert!(matches!(a(LabelPatch::Runs(own("x"), vec![run(None)])), Act::Runs(..)));
        assert!(matches!(a(LabelPatch::Color(None)), Act::TextColor(None)));
    }
    let mut bare = seen(ViewClass::Label);
    bare.has_font = false;
    let p = Patch::Label(LabelPatch::Runs(own("x"), Vec::new()));
    assert!(matches!(update(Kind::Builtin(Builtin::Label), p, bare), Act::Nothing));
}

#[test]
fn button_patches() {
    let a = |p| act(Builtin::Button, Patch::Button(p), ViewClass::Button);
    assert!(matches!(a(ButtonPatch::Title(own("x"))), Act::StateTitle(t) if t == "x"));
    assert!(matches!(a(ButtonPatch::Enabled(false)), Act::Enabled(false)));
    assert!(matches!(
        a(ButtonPatch::Style(ButtonStyle::Prominent)),
        Act::ButtonStyle { look: ButtonLook::BorderedProminent, title } if title == "State"
    ));
    let mut c = seen(ViewClass::Button);
    c.configured = true;
    c.config_title = Some(own("Config"));
    let style = Patch::Button(ButtonPatch::Style(ButtonStyle::Automatic));
    assert!(matches!(
        update(Kind::Builtin(Builtin::Button), style, c),
        Act::ButtonStyle { look: ButtonLook::Plain, title } if title == "Config"
    ));
    let mut c = seen(ViewClass::Button);
    c.configured = true;
    let t = Patch::Button(ButtonPatch::Title(own("x")));
    assert!(matches!(update(Kind::Builtin(Builtin::Button), t, c), Act::ConfigTitle(_)));
    let mut n = seen(ViewClass::Button);
    n.state_title = None;
    let style = Patch::Button(ButtonPatch::Style(ButtonStyle::Automatic));
    assert!(matches!(
        update(Kind::Builtin(Builtin::Button), style, n),
        Act::ButtonStyle { title, .. } if title.is_empty()
    ));
}

#[test]
fn patches_do_not_echo() {
    assert!(matches!(act(Builtin::Toggle, Patch::ToggleOn(false), ViewClass::Switch), Act::Nothing));
    assert!(matches!(act(Builtin::Toggle, Patch::ToggleOn(true), ViewClass::Switch), Act::On(true)));
    let f = |text: &str, from_native| {
        act(
            Builtin::TextField,
            Patch::Field(FieldPatch::Text { text: own(text), from_native }),
            ViewClass::TextField,
        )
    };
    assert!(matches!(f("old", false), Act::Nothing));
    assert!(matches!(f("new", true), Act::Nothing));
    assert!(matches!(f("new", false), Act::FieldText(t) if t == "new"));
    let mut none = seen(ViewClass::TextField);
    none.text = None;
    let p = Patch::Field(FieldPatch::Text { text: own(""), from_native: false });
    assert!(matches!(update(Kind::Builtin(Builtin::TextField), p, none), Act::Nothing));
    let mut still = seen(ViewClass::Slider);
    still.moved = false;
    assert!(matches!(
        update(Kind::Builtin(Builtin::Slider), Patch::SliderValue(s(1.0)), still),
        Act::Nothing
    ));
}

#[test]
fn control_patches() {
    assert!(matches!(
        act(Builtin::Toggle, Patch::ControlEnabled(true), ViewClass::Switch),
        Act::Enabled(true)
    ));
    assert!(matches!(
        act(Builtin::Slider, Patch::SliderValue(s(2.0)), ViewClass::Slider),
        Act::Value(v) if v == s(2.0)
    ));
    assert!(matches!(
        act(Builtin::Slider, Patch::ControlEnabled(false), ViewClass::Slider),
        Act::Enabled(false)
    ));
    assert!(matches!(
        act(Builtin::Progress, Patch::Progress(Some(s(0.5))), ViewClass::ProgressBar),
        Act::Progress(v) if v == s(0.5)
    ));
    assert!(matches!(
        act(Builtin::Progress, Patch::Progress(None), ViewClass::ProgressBar),
        Act::Nothing
    ));
    let f = |p| act(Builtin::TextField, Patch::Field(p), ViewClass::TextField);
    assert!(matches!(f(FieldPatch::Placeholder(own("p"))), Act::Placeholder(_)));
    assert!(matches!(f(FieldPatch::Enabled(true)), Act::Enabled(true)));
    assert!(matches!(f(FieldPatch::Secure(true)), Act::Secure(true)));
    assert!(matches!(
        act(Builtin::Image, Patch::ImageTint(Some(color())), ViewClass::ImageView),
        Act::Tint { template: true, color: Some(_) }
    ));
    assert!(matches!(
        act(Builtin::Image, Patch::ImageTint(None), ViewClass::ImageView),
        Act::Tint { template: false, color: None }
    ));
    assert!(matches!(
        act(Builtin::Container, Patch::Background(None), ViewClass::Other),
        Act::Background(None)
    ));
}

#[test]
fn navigation_patches() {
    let a = |p| act(Builtin::Nav, p, ViewClass::Other);
    assert!(matches!(a(Patch::SearchText(own("q"))), Act::SearchText(t) if t == "q"));
    assert!(matches!(a(Patch::Nav(NavPatch::Select(2))), Act::Nav(NavPatch::Select(2))));
    let mut tabs = seen(ViewClass::Other);
    tabs.tabs_host = true;
    tabs.search = false;
    assert!(matches!(
        update(Kind::Builtin(Builtin::Nav), Patch::Nav(NavPatch::Select(2)), tabs),
        Act::SelectTab(2)
    ));
    let mut plain = seen(ViewClass::Other);
    plain.search = false;
    assert!(matches!(
        update(Kind::Builtin(Builtin::Nav), Patch::SearchText(own("q")), plain),
        Act::Nothing
    ));
    let c = |p| act(Builtin::Cover, Patch::Cover(p), ViewClass::Other);
    assert!(matches!(
        c(CoverPatch::Present { background: None, dismiss_disabled: true }),
        Act::PresentCover { vc: 8, background: None, dismiss_disabled: true }
    ));
    assert!(matches!(
        c(CoverPatch::DismissDisabled(false)),
        Act::CoverDismissDisabled { vc: 8, on: false }
    ));
    assert!(matches!(c(CoverPatch::Dismiss), Act::DismissCover(Cover { vc: 8, node: NodeId(2) })));
    let mut gone = seen(ViewClass::Other);
    gone.cover = None;
    assert!(matches!(
        update(Kind::Builtin(Builtin::Cover), Patch::Cover(CoverPatch::Dismiss), gone),
        Act::Nothing
    ));
    assert!(matches!(
        act(Builtin::NavMenu, Patch::MenuItems { content: menu(), selected: None }, ViewClass::Other),
        Act::MenuItems { .. }
    ));
    assert!(matches!(
        act(Builtin::NavMenu, Patch::MenuSelected(Some(1)), ViewClass::CollectionView),
        Act::MenuSelected(Some(1))
    ));
}

#[test]
fn collection_patches() {
    let l = |p| act(Builtin::List, Patch::List(p), ViewClass::Other);
    assert!(matches!(l(ListPatch::Reload), Act::Reload));
    assert!(matches!(l(ListPatch::ScrollToEnd), Act::ScrollTo { row: 2, bottom: true }));
    assert!(matches!(l(ListPatch::ScrollToRow(9)), Act::ScrollTo { row: 2, bottom: false }));
    assert!(matches!(l(ListPatch::RowSizeInvalidated), Act::Nothing));
    assert!(matches!(l(ListPatch::Selected), Act::Nothing));
    let mut gone = seen(ViewClass::Other);
    gone.rows = None;
    assert!(matches!(
        update(Kind::Builtin(Builtin::List), Patch::List(ListPatch::Reload), gone),
        Act::Nothing
    ));
    let mut gone = seen(ViewClass::Other);
    gone.rows = None;
    let splice = Patch::List(ListPatch::Splice(vec![RowDelta::Insert(0)]));
    assert!(matches!(update(Kind::Builtin(Builtin::List), splice, gone), Act::Splice(_)));
    let mut empty = seen(ViewClass::Other);
    empty.rows = Some(0);
    assert!(matches!(
        update(Kind::Builtin(Builtin::List), Patch::List(ListPatch::ScrollToEnd), empty),
        Act::Nothing
    ));
    assert!(matches!(
        act(Builtin::Tree, Patch::Tree(TreePatch::Reveal(4)), ViewClass::Other),
        Act::Tree(TreePatch::Reveal(4))
    ));
}

fn size(w: f64, h: f64) -> Size {
    Size { width: s(w), height: s(h) }
}

fn open() -> Proposal {
    Proposal { width: None, height: None }
}

fn fixed(w: f64, h: f64) -> Proposal {
    Proposal { width: Some(s(w)), height: Some(s(h)) }
}

fn sized(b: Builtin, p: Proposal, fit: Size) -> Size {
    measure(Kind::Builtin(b), p, fit, s(128.0), false)
}

#[test]
fn lengths() {
    let all = [
        (BAR_HEIGHT, 4.0),
        (SPINNER_SIDE, 20.0),
        (SLIDER_HEIGHT, 31.0),
        (FIELD_HEIGHT, 34.0),
        (CONTROL_WIDTH, 180.0),
        (MENU_WIDTH, 320.0),
        (UNBOUNDED, 1.0e6),
    ];
    for (bits, x) in all {
        assert_eq!(f64::from_bits(bits), x);
    }
}

#[test]
fn measures() {
    let fit = size(70.0, 20.0);
    assert_eq!(sized(Builtin::NavMenu, open(), fit), size(320.0, 128.0));
    assert_eq!(sized(Builtin::NavMenu, fixed(5.0, 6.0), fit), size(5.0, 6.0));
    assert_eq!(sized(Builtin::Button, fixed(5.0, 6.0), fit), fit);
    assert_eq!(sized(Builtin::Toggle, open(), fit), fit);
    assert_eq!(sized(Builtin::Slider, open(), fit), size(180.0, 31.0));
    assert_eq!(sized(Builtin::Slider, fixed(90.0, 1.0), size(1.0, 40.0)), size(90.0, 40.0));
    assert_eq!(sized(Builtin::TextField, open(), fit), size(180.0, 34.0));
    assert_eq!(sized(Builtin::Divider, open(), fit), size(0.0, 1.0));
    assert_eq!(sized(Builtin::Divider, fixed(50.0, 9.0), fit), size(50.0, 1.0));
    assert_eq!(sized(Builtin::Progress, open(), fit), size(180.0, 4.0));
    assert_eq!(
        measure(Kind::Builtin(Builtin::Progress), fixed(9.0, 9.0), fit, s(0.0), true),
        size(20.0, 20.0)
    );
    assert_eq!(sized(Builtin::List, open(), fit), size(0.0, 0.0));
    assert_eq!(sized(Builtin::Tree, fixed(9.0, 8.0), fit), size(9.0, 8.0));
    assert_eq!(sized(Builtin::Container, open(), fit), fit);
    assert_eq!(sized(Builtin::Image, fixed(9.0, 8.0), fit), size(9.0, 8.0));
    assert_eq!(measure(Kind::Extension(1), open(), fit, s(0.0), false), fit);
}

#[test]
fn a_label_is_no_wider_than_proposed() {
    assert_eq!(sized(Builtin::Label, fixed(50.0, 1.0), size(70.0, 20.0)), size(50.0, 20.0));
    assert_eq!(sized(Builtin::Label, fixed(90.0, 1.0), size(70.0, 20.0)), size(70.0, 20.0));
    assert_eq!(sized(Builtin::Label, open(), size(70.0, 20.0)), size(70.0, 20.0));
}

#[test]
fn controls_stay_tall() {
    for h in [0.0, 30.0, f64::NAN] {
        assert_eq!(sized(Builtin::Slider, open(), size(1.0, h)).height, s(31.0));
        assert_eq!(sized(Builtin::TextField, open(), size(1.0, h)).height, s(34.0));
    }
}

#[test]
fn what_a_measure_asks() {
    let ask = |b, measures| measure_ask(Kind::Builtin(b), fixed(50.0, 60.0), measures);
    assert_eq!(ask(Builtin::Label, false), Ask::Fit(size(50.0, 1.0e6)));
    assert_eq!(ask(Builtin::Button, true), Ask::Fit(size(1.0e6, 1.0e6)));
    assert_eq!(ask(Builtin::List, true), Ask::Nothing);
    assert_eq!(ask(Builtin::Picker, true), Ask::Delegated(Builtin::Picker));
    assert_eq!(ask(Builtin::Container, true), Ask::Extension);
    assert_eq!(ask(Builtin::Container, false), Ask::Fit(size(1.0e6, 1.0e6)));
    assert_eq!(measure_ask(Kind::Extension(1), open(), true), Ask::Extension);
}
