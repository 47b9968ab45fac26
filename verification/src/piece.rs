//! Pieces: what a kind and its props are realized as, and what a patch asks of the view that was.
//! A payload of another kind degrades to a visible placeholder, and a patch that does not fit its
//! view asks nothing.

use crate::control::Wired;
use crate::list::{row_height, scroll_row, RowDelta, RowHeight, ScrollTo};
use crate::nav_menu::MenuContent;
use crate::nav_stack::Pane;
use crate::navs::Cover;
use crate::split::{first_split, Lowering, NavPatch, SplitConfig};
use crate::style::{
    button_look, image_scaling, label_color, surface, ButtonLook, ButtonStyle, ContainerProps,
    ContentMode, LabelColor, Scaling, Surface, TextRole,
};
use crate::text::{needs_link_view, TextRun};
use crate::tree::TreePatch;
use crate::font::FontSpec;
use crate::types::{Color, Scalar, Size, ONE_BITS};
use vstd::prelude::*;

verus! {

#[derive(Clone, Copy, PartialEq, Eq, Structural, Debug)]
pub enum Builtin {
    Container,
    Nav,
    NavPage,
    Cover,
    NavMenu,
    Tree,
    List,
    Scroll,
    Label,
    Button,
    Toggle,
    Slider,
    Picker,
    TextArea,
    TextField,
    Divider,
    Progress,
    Canvas,
    Image,
    ListCell,
    Inspector,
    InspectorPane,
}

#[derive(Clone, Copy, PartialEq, Eq, Structural, Debug)]
pub enum Kind {
    Builtin(Builtin),
    /// A piece of another crate, by its number.
    Extension(u32),
}

/// The number a renderer of a kind is registered under.
pub open spec fn key_of(kind: Kind) -> u64 {
    match kind {
        Kind::Extension(n) => (22 + n) as u64,
        Kind::Builtin(b) => match b {
            Builtin::Container => 0,
            Builtin::Nav => 1,
            Builtin::NavPage => 2,
            Builtin::Cover => 3,
            Builtin::NavMenu => 4,
            Builtin::Tree => 5,
            Builtin::List => 6,
            Builtin::Scroll => 7,
            Builtin::Label => 8,
            Builtin::Button => 9,
            Builtin::Toggle => 10,
            Builtin::Slider => 11,
            Builtin::Picker => 12,
            Builtin::TextArea => 13,
            Builtin::TextField => 14,
            Builtin::Divider => 15,
            Builtin::Progress => 16,
            Builtin::Canvas => 17,
            Builtin::Image => 18,
            Builtin::ListCell => 19,
            Builtin::Inspector => 20,
            Builtin::InspectorPane => 21,
        },
    }
}

/// The number a renderer of a kind is registered under, and found by.
pub fn registry_key(kind: Kind) -> (r: u64)
    ensures
        r == key_of(kind),
{
    match kind {
        Kind::Extension(n) => 22 + n as u64,
        Kind::Builtin(b) => match b {
            Builtin::Container => 0,
            Builtin::Nav => 1,
            Builtin::NavPage => 2,
            Builtin::Cover => 3,
            Builtin::NavMenu => 4,
            Builtin::Tree => 5,
            Builtin::List => 6,
            Builtin::Scroll => 7,
            Builtin::Label => 8,
            Builtin::Button => 9,
            Builtin::Toggle => 10,
            Builtin::Slider => 11,
            Builtin::Picker => 12,
            Builtin::TextArea => 13,
            Builtin::TextField => 14,
            Builtin::Divider => 15,
            Builtin::Progress => 16,
            Builtin::Canvas => 17,
            Builtin::Image => 18,
            Builtin::ListCell => 19,
            Builtin::Inspector => 20,
            Builtin::InspectorPane => 21,
        },
    }
}

#[derive(Debug)]
pub struct SearchProps {
    pub prompt: String,
    pub text: String,
}

pub struct NavProps {
    pub lowering: Lowering,
    pub list_width: Option<Scalar>,
    pub list_visible: bool,
    pub search: Option<SearchProps>,
}

pub struct NavMenuProps {
    pub content: MenuContent,
    pub selected: Option<usize>,
}

pub struct TreeProps {
    pub row_height: RowHeight,
    pub selectable: bool,
    pub multi_select: bool,
}

pub struct ListProps {
    pub row_height: RowHeight,
    pub selectable: bool,
    pub separators: Option<bool>,
    pub reorderable: bool,
    pub delete_label: String,
}

pub struct LabelProps {
    pub text: String,
    pub font: FontSpec,
    pub color: Option<Color>,
    pub role: TextRole,
    pub runs: Vec<TextRun>,
}

/// A piece's props. `Mismatch` is a payload that is not what the kind takes.
pub enum Props {
    Mismatch,
    Container(ContainerProps),
    Nav(NavProps),
    NavPage { title: String, pane: Pane },
    NavMenu(NavMenuProps),
    Tree(TreeProps),
    List(ListProps),
    Label(LabelProps),
    Button { title: String, style: ButtonStyle },
    Toggle { on: bool, enabled: bool },
    Slider { min: Scalar, max: Scalar, value: Scalar },
    TextField { text: String, placeholder: String, secure: bool },
    Progress { fraction: Option<Scalar> },
    Image { source: String, mode: ContentMode, tint: Option<Color> },
}

/// What a piece is realized as.
pub enum Widget {
    /// A visible stand-in: the payload did not fit.
    Placeholder,
    /// A visible stand-in: nobody renders the kind.
    Missing,
    /// A registered renderer makes it.
    Extension,
    /// A piece with a renderer of its own.
    Delegated(Builtin),
    Container(Surface),
    /// One controller that draws a tab bar or a sidebar; it reports itself as tabs, once.
    TabsHost,
    /// A plain stack at every size.
    StackHost { search: Option<SearchProps> },
    SplitHost { config: SplitConfig, list_visible: bool, search: Option<SearchProps> },
    NavPage { title: String, pane: Pane },
    Cover,
    NavMenu(NavMenuProps),
    Tree { row_height: Scalar, selectable: bool, multi_select: bool },
    /// `separators` off only when the app turns them off.
    List {
        row_height: Scalar,
        selectable: bool,
        separators: bool,
        reorderable: bool,
        delete_label: String,
    },
    Scroll,
    Label { text: String, font: FontSpec, ink: LabelColor, tint: Option<Color>, runs: Vec<TextRun> },
    /// A read-only text view that can be tapped.
    LinkLabel { text: String, font: FontSpec, color: Option<Color>, runs: Vec<TextRun> },
    Button { title: String, look: ButtonLook },
    Toggle { on: bool, enabled: bool },
    Slider { min: Scalar, max: Scalar, value: Scalar },
    TextField { text: String, placeholder: String, secure: bool },
    Divider,
    ProgressBar(Scalar),
    Spinner,
    Canvas,
    Image { source: String, scaling: Scaling, tint: Option<Color> },
}

pub open spec fn extension_of(registered: bool) -> Widget {
    if registered {
        Widget::Extension
    } else {
        Widget::Missing
    }
}

/// What a kind and its props are realized as.
pub open spec fn widget_of(kind: Kind, props: Props, registered: bool) -> Widget {
    match kind {
        Kind::Extension(_) => extension_of(registered),
        Kind::Builtin(b) => match b {
            Builtin::ListCell => extension_of(registered),
            Builtin::Inspector => extension_of(registered),
            Builtin::InspectorPane => extension_of(registered),
            Builtin::Picker => Widget::Delegated(b),
            Builtin::TextArea => Widget::Delegated(b),
            Builtin::Scroll => Widget::Scroll,
            Builtin::Divider => Widget::Divider,
            Builtin::Canvas => Widget::Canvas,
            Builtin::Cover => Widget::Cover,
            Builtin::Container => Widget::Container(
                crate::style::surface_of(
                    match props {
                        Props::Container(p) => Some(p),
                        _ => None,
                    },
                ),
            ),
            Builtin::Nav => match props {
                Props::Nav(p) => match p.lowering {
                    Lowering::Tabs => Widget::TabsHost,
                    Lowering::Stack => Widget::StackHost { search: p.search },
                    Lowering::Split => Widget::SplitHost {
                        config: SplitConfig {
                            triple: p.list_width is Some && p.list_visible,
                            seed_secondary: p.list_width is Some && p.list_visible,
                            list_width: p.list_width,
                        },
                        list_visible: p.list_visible,
                        search: p.search,
                    },
                },
                _ => Widget::Placeholder,
            },
            Builtin::NavPage => match props {
                Props::NavPage { title, pane } => Widget::NavPage { title, pane },
                _ => Widget::Placeholder,
            },
            Builtin::NavMenu => match props {
                Props::NavMenu(p) => Widget::NavMenu(p),
                _ => Widget::Placeholder,
            },
            Builtin::Tree => match props {
                Props::Tree(p) => Widget::Tree {
                    row_height: crate::list::height_of(p.row_height),
                    selectable: p.selectable,
                    multi_select: p.multi_select,
                },
                _ => Widget::Placeholder,
            },
            Builtin::List => match props {
                Props::List(p) => Widget::List {
                    row_height: crate::list::height_of(p.row_height),
                    selectable: p.selectable,
                    separators: p.separators != Some(false),
                    reorderable: p.reorderable,
                    delete_label: p.delete_label,
                },
                _ => Widget::Placeholder,
            },
            Builtin::Label => match props {
                Props::Label(p) => if crate::text::has_link(p.runs@) {
                    Widget::LinkLabel { text: p.text, font: p.font, color: p.color, runs: p.runs }
                } else {
                    Widget::Label {
                        text: p.text,
                        font: p.font,
                        ink: crate::style::color_of(p.color, p.role),
                        tint: p.color,
                        runs: p.runs,
                    }
                },
                _ => Widget::Placeholder,
            },
            Builtin::Button => match props {
                Props::Button { title, style } => Widget::Button { title, look: crate::style::look_of(style) },
                _ => Widget::Placeholder,
            },
            Builtin::Toggle => match props {
                Props::Toggle { on, enabled } => Widget::Toggle { on, enabled },
                _ => Widget::Placeholder,
            },
            Builtin::Slider => match props {
                Props::Slider { min, max, value } => Widget::Slider { min, max, value },
                _ => Widget::Placeholder,
            },
            Builtin::TextField => match props {
                Props::TextField { text, placeholder, secure } => Widget::TextField {
                    text,
                    placeholder,
                    secure,
                },
                _ => Widget::Placeholder,
            },
            Builtin::Progress => match props {
                Props::Progress { fraction } => match fraction {
                    Some(v) => Widget::ProgressBar(v),
                    None => Widget::Spinner,
                },
                _ => Widget::Placeholder,
            },
            Builtin::Image => match props {
                Props::Image { source, mode, tint } => Widget::Image {
                    source,
                    scaling: crate::style::scaling_of(mode),
                    tint,
                },
                _ => Widget::Placeholder,
            },
        },
    }
}

fn extension(registered: bool) -> (r: Widget)
    ensures
        r == extension_of(registered),
{
    if registered {
        Widget::Extension
    } else {
        Widget::Missing
    }
}

/// Realize a piece. `registered` says whether a renderer of the kind is registered.
pub fn realize(kind: Kind, props: Props, registered: bool) -> (r: Widget)
    ensures
        r == widget_of(kind, props, registered),
{
    let b = match kind {
        Kind::Extension(_) => {
            return extension(registered);
        },
        Kind::Builtin(b) => b,
    };
    match b {
        Builtin::ListCell => extension(registered),
        Builtin::Inspector => extension(registered),
        Builtin::InspectorPane => extension(registered),
        Builtin::Picker => Widget::Delegated(b),
        Builtin::TextArea => Widget::Delegated(b),
        Builtin::Scroll => Widget::Scroll,
        Builtin::Divider => Widget::Divider,
        Builtin::Canvas => Widget::Canvas,
        Builtin::Cover => Widget::Cover,
        Builtin::Container => {
            let p = match props {
                Props::Container(p) => Some(p),
                _ => None,
            };
            Widget::Container(surface(p))
        },
        Builtin::Nav => match props {
            Props::Nav(p) => match p.lowering {
                Lowering::Tabs => Widget::TabsHost,
                Lowering::Stack => Widget::StackHost { search: p.search },
                Lowering::Split => Widget::SplitHost {
                    config: first_split(p.list_width, p.list_visible),
                    list_visible: p.list_visible,
                    search: p.search,
                },
            },
            _ => Widget::Placeholder,
        },
        Builtin::NavPage => match props {
            Props::NavPage { title, pane } => Widget::NavPage { title, pane },
            _ => Widget::Placeholder,
        },
        Builtin::NavMenu => match props {
            Props::NavMenu(p) => Widget::NavMenu(p),
            _ => Widget::Placeholder,
        },
        Builtin::Tree => match props {
            Props::Tree(p) => Widget::Tree {
                row_height: row_height(p.row_height),
                selectable: p.selectable,
                multi_select: p.multi_select,
            },
            _ => Widget::Placeholder,
        },
        Builtin::List => match props {
            Props::List(p) => {
                let separators = match p.separators {
                    Some(on) => on,
                    None => true,
                };
                Widget::List {
                    row_height: row_height(p.row_height),
                    selectable: p.selectable,
                    separators,
                    reorderable: p.reorderable,
                    delete_label: p.delete_label,
                }
            },
            _ => Widget::Placeholder,
        },
        Builtin::Label => match props {
            Props::Label(p) => {
                if needs_link_view(&p.runs) {
                    Widget::LinkLabel { text: p.text, font: p.font, color: p.color, runs: p.runs }
                } else {
                    Widget::Label {
                        text: p.text,
                        font: p.font,
                        ink: label_color(p.color, p.role),
                        tint: p.color,
                        runs: p.runs,
                    }
                }
            },
            _ => Widget::Placeholder,
        },
        Builtin::Button => match props {
            Props::Button { title, style } => Widget::Button { title, look: button_look(style) },
            _ => Widget::Placeholder,
        },
        Builtin::Toggle => match props {
            Props::Toggle { on, enabled } => Widget::Toggle { on, enabled },
            _ => Widget::Placeholder,
        },
        Builtin::Slider => match props {
            Props::Slider { min, max, value } => Widget::Slider { min, max, value },
            _ => Widget::Placeholder,
        },
        Builtin::TextField => match props {
            Props::TextField { text, placeholder, secure } => Widget::TextField {
                text,
                placeholder,
                secure,
            },
            _ => Widget::Placeholder,
        },
        Builtin::Progress => match props {
            Props::Progress { fraction } => match fraction {
                Some(v) => Widget::ProgressBar(v),
                None => Widget::Spinner,
            },
            _ => Widget::Placeholder,
        },
        Builtin::Image => match props {
            Props::Image { source, mode, tint } => Widget::Image {
                source,
                scaling: image_scaling(mode),
                tint,
            },
            _ => Widget::Placeholder,
        },
    }
}

/// The target/action control a widget is, if any.
pub open spec fn wired_of(widget: Widget) -> Option<Wired> {
    match widget {
        Widget::Button { .. } => Some(Wired::Button),
        Widget::Toggle { .. } => Some(Wired::Toggle),
        Widget::Slider { .. } => Some(Wired::Slider),
        Widget::TextField { .. } => Some(Wired::TextField),
        _ => None,
    }
}

/// How a widget is wired: these report through a target that is kept with the view.
pub fn wired(widget: &Widget) -> (r: Option<Wired>)
    ensures
        r == wired_of(*widget),
{
    match widget {
        Widget::Button { .. } => Some(Wired::Button),
        Widget::Toggle { .. } => Some(Wired::Toggle),
        Widget::Slider { .. } => Some(Wired::Slider),
        Widget::TextField { .. } => Some(Wired::TextField),
        _ => None,
    }
}

/// The class of a realized view.
#[derive(Clone, Copy, PartialEq, Eq, Structural, Debug)]
pub enum ViewClass {
    Label,
    TextView,
    Button,
    Switch,
    Slider,
    ProgressBar,
    TextField,
    ImageView,
    CollectionView,
    Other,
}

pub enum LabelPatch {
    Text(String),
    Font(FontSpec),
    Runs(String, Vec<TextRun>),
    Color(Option<Color>),
}

pub enum ButtonPatch {
    Title(String),
    Enabled(bool),
    Style(ButtonStyle),
}

pub enum FieldPatch {
    Text { text: String, from_native: bool },
    Placeholder(String),
    Enabled(bool),
    Secure(bool),
}

pub enum ListPatch {
    Splice(Vec<RowDelta>),
    Reload,
    ScrollToEnd,
    ScrollToRow(usize),
    RowSizeInvalidated,
    Selected,
}

pub enum CoverPatch {
    Present { background: Option<Color>, dismiss_disabled: bool },
    DismissDisabled(bool),
    Dismiss,
}

pub enum Patch {
    Mismatch,
    ImageTint(Option<Color>),
    Background(Option<Color>),
    MenuItems { content: MenuContent, selected: Option<usize> },
    MenuSelected(Option<usize>),
    Cover(CoverPatch),
    SearchText(String),
    Nav(NavPatch),
    Label(LabelPatch),
    Button(ButtonPatch),
    ToggleOn(bool),
    SliderValue(Scalar),
    ControlEnabled(bool),
    Progress(Option<Scalar>),
    Field(FieldPatch),
    Tree(TreePatch),
    List(ListPatch),
}

/// A view as a patch finds it.
pub struct Seen {
    pub class: ViewClass,
    /// A switch's state.
    pub on: bool,
    /// A slider's or bar's value differs from the patch by more than the noise.
    pub moved: bool,
    /// A label has a font to build runs on.
    pub has_font: bool,
    /// A field's text.
    pub text: Option<String>,
    /// A configured button, and the title it carries there.
    pub configured: bool,
    pub config_title: Option<String>,
    pub state_title: Option<String>,
    /// A registered list's row count.
    pub rows: Option<usize>,
    /// A registered cover.
    pub cover: Option<Cover>,
    pub tabs_host: bool,
    /// A host with an inline search field.
    pub search: bool,
    /// A renderer of the kind is registered.
    pub registered: bool,
}

/// What a patch asks for.
pub enum Act {
    Nothing,
    /// A registered renderer, or a piece of its own, takes it.
    Extension,
    Delegated(Builtin),
    /// Recolor the image's mask, or show it as it is.
    Tint { template: bool, color: Option<Color> },
    /// Animated, if the patch is.
    Background(Option<Color>),
    MenuItems { content: MenuContent, selected: Option<usize> },
    MenuSelected(Option<usize>),
    /// The background only if given; then queue the cover.
    PresentCover { vc: usize, background: Option<Color>, dismiss_disabled: bool },
    CoverDismissDisabled { vc: usize, on: bool },
    DismissCover(Cover),
    /// Under the echo guard.
    SearchText(String),
    SelectTab(usize),
    Nav(NavPatch),
    Text(String),
    Font(FontSpec),
    Runs(String, Vec<TextRun>),
    /// `None` is the adaptive default.
    TextColor(Option<Color>),
    ConfigTitle(String),
    StateTitle(String),
    ButtonStyle { look: ButtonLook, title: String },
    Enabled(bool),
    On(bool),
    Value(Scalar),
    Progress(Scalar),
    FieldText(String),
    Placeholder(String),
    Secure(bool),
    Tree(TreePatch),
    /// A turn later, one batch per change.
    Splice(Vec<RowDelta>),
    Reload,
    ScrollTo { row: usize, bottom: bool },
}

pub open spec fn text_or(text: Option<String>) -> Seq<char> {
    match text {
        Some(t) => t@,
        None => Seq::empty(),
    }
}

/// What a patch asks of a list: `rows` is its row count, if it is registered. Row changes are
/// looked up when they are applied, a turn later.
pub open spec fn list_act(patch: ListPatch, rows: Option<usize>) -> Act {
    match (patch, rows) {
        (ListPatch::Splice(deltas), _) => Act::Splice(deltas),
        (ListPatch::Reload, Some(_)) => Act::Reload,
        (ListPatch::ScrollToEnd, Some(n)) if n > 0 => Act::ScrollTo {
            row: (n - 1) as usize,
            bottom: true,
        },
        (ListPatch::ScrollToRow(row), Some(n)) if n > 0 => Act::ScrollTo {
            row: if row < n {
                row
            } else {
                (n - 1) as usize
            },
            bottom: false,
        },
        _ => Act::Nothing,
    }
}

/// `act` is what `patch` asks of a view of `kind`.
pub open spec fn asks(kind: Kind, patch: Patch, seen: Seen, act: Act) -> bool {
    match kind {
        Kind::Extension(_) => if seen.registered {
            act is Extension
        } else {
            act is Nothing
        },
        Kind::Builtin(b) => match (b, patch) {
            (Builtin::Picker, _) => act == Act::Delegated(b),
            (Builtin::TextArea, _) => act == Act::Delegated(b),
            (Builtin::Image, Patch::ImageTint(color)) => if seen.class == ViewClass::ImageView {
                act == (Act::Tint { template: color is Some, color })
            } else {
                act is Nothing
            },
            (Builtin::Container, Patch::Background(color)) => act == Act::Background(color),
            (Builtin::NavMenu, Patch::MenuItems { content, selected }) => act == (Act::MenuItems {
                content,
                selected,
            }),
            (Builtin::NavMenu, Patch::MenuSelected(selected)) => if seen.class
                == ViewClass::CollectionView {
                act == Act::MenuSelected(selected)
            } else {
                act is Nothing
            },
            (Builtin::Cover, Patch::Cover(p)) => match seen.cover {
                None => act is Nothing,
                Some(cover) => match p {
                    CoverPatch::Present { background, dismiss_disabled } => act
                        == (Act::PresentCover { vc: cover.vc, background, dismiss_disabled }),
                    CoverPatch::DismissDisabled(on) => act == (Act::CoverDismissDisabled {
                        vc: cover.vc,
                        on,
                    }),
                    CoverPatch::Dismiss => act == Act::DismissCover(cover),
                },
            },
            (Builtin::Nav, Patch::SearchText(t)) => if seen.search {
                act == Act::SearchText(t)
            } else {
                act is Nothing
            },
            (Builtin::Nav, Patch::Nav(p)) => match p {
                NavPatch::Select(i) if seen.tabs_host => act == Act::SelectTab(i),
                _ => act == Act::Nav(p),
            },
            (Builtin::Label, Patch::Label(p)) => if seen.class == ViewClass::Label || seen.class
                == ViewClass::TextView {
                match p {
                    LabelPatch::Text(t) => act == Act::Text(t),
                    LabelPatch::Font(f) => act == Act::Font(f),
                    LabelPatch::Runs(t, runs) => if seen.has_font {
                        act == Act::Runs(t, runs)
                    } else {
                        act is Nothing
                    },
                    LabelPatch::Color(c) => act == Act::TextColor(c),
                }
            } else {
                act is Nothing
            },
            (Builtin::Button, Patch::Button(p)) => if seen.class == ViewClass::Button {
                match p {
                    ButtonPatch::Title(t) => if seen.configured {
                        act == Act::ConfigTitle(t)
                    } else {
                        act == Act::StateTitle(t)
                    },
                    ButtonPatch::Enabled(on) => act == Act::Enabled(on),
                    ButtonPatch::Style(s) => act matches Act::ButtonStyle { look, title } && look
                        == crate::style::look_of(s) && title@ == (match seen.config_title {
                        Some(t) => t@,
                        None => text_or(seen.state_title),
                    }),
                }
            } else {
                act is Nothing
            },
            (Builtin::Toggle, Patch::ToggleOn(on)) => if seen.class == ViewClass::Switch && seen.on
                != on {
                act == Act::On(on)
            } else {
                act is Nothing
            },
            (Builtin::Toggle, Patch::ControlEnabled(on)) => if seen.class == ViewClass::Switch {
                act == Act::Enabled(on)
            } else {
                act is Nothing
            },
            (Builtin::Slider, Patch::SliderValue(v)) => if seen.class == ViewClass::Slider
                && seen.moved {
                act == Act::Value(v)
            } else {
                act is Nothing
            },
            (Builtin::Slider, Patch::ControlEnabled(on)) => if seen.class == ViewClass::Slider {
                act == Act::Enabled(on)
            } else {
                act is Nothing
            },
            (Builtin::Progress, Patch::Progress(value)) => match value {
                Some(v) if seen.class == ViewClass::ProgressBar && seen.moved => act
                    == Act::Progress(v),
                _ => act is Nothing,
            },
            (Builtin::TextField, Patch::Field(p)) => if seen.class == ViewClass::TextField {
                match p {
                    FieldPatch::Text { text, from_native } => if !from_native && text_or(seen.text)
                        != text@ {
                        act == Act::FieldText(text)
                    } else {
                        act is Nothing
                    },
                    FieldPatch::Placeholder(t) => act == Act::Placeholder(t),
                    FieldPatch::Enabled(on) => act == Act::Enabled(on),
                    FieldPatch::Secure(on) => act == Act::Secure(on),
                }
            } else {
                act is Nothing
            },
            (Builtin::Tree, Patch::Tree(p)) => act == Act::Tree(p),
            (Builtin::List, Patch::List(p)) => act == list_act(p, seen.rows),
            (Builtin::Image, _) => act is Nothing,
            (Builtin::Container, _) => act is Nothing,
            (Builtin::NavMenu, _) => act is Nothing,
            (Builtin::Cover, _) => act is Nothing,
            (Builtin::Nav, _) => act is Nothing,
            (Builtin::Label, _) => act is Nothing,
            (Builtin::Button, _) => act is Nothing,
            (Builtin::Toggle, _) => act is Nothing,
            (Builtin::Slider, _) => act is Nothing,
            (Builtin::Progress, _) => act is Nothing,
            (Builtin::TextField, _) => act is Nothing,
            (Builtin::Tree, _) => act is Nothing,
            (Builtin::List, _) => act is Nothing,
            _ => if seen.registered {
                act is Extension
            } else {
                act is Nothing
            },
        },
    }
}

fn list_update(patch: ListPatch, rows: Option<usize>) -> (r: Act)
    ensures
        r == list_act(patch, rows),
{
    let n: usize = match (&patch, rows) {
        (ListPatch::Splice(_), _) => 0,
        (_, Some(n)) => n,
        (_, None) => {
            return Act::Nothing;
        },
    };
    match patch {
        ListPatch::Splice(deltas) => Act::Splice(deltas),
        ListPatch::Reload => Act::Reload,
        ListPatch::ScrollToEnd => match scroll_row(ScrollTo::End, n) {
            Some(row) => Act::ScrollTo { row, bottom: true },
            None => Act::Nothing,
        },
        ListPatch::ScrollToRow(row) => match scroll_row(ScrollTo::Row(row), n) {
            Some(row) => Act::ScrollTo { row, bottom: false },
            None => Act::Nothing,
        },
        ListPatch::RowSizeInvalidated => Act::Nothing,
        ListPatch::Selected => Act::Nothing,
    }
}

fn current_title(config_title: Option<String>, state_title: Option<String>) -> (r: String)
    ensures
        r@ == (match config_title {
            Some(t) => t@,
            None => text_or(state_title),
        }),
{
    match config_title {
        Some(t) => t,
        None => match state_title {
            Some(t) => t,
            None => {
                proof {
                    reveal_strlit("");
                }
                let empty = "".to_string();
                proof {
                    assert(empty@ =~= Seq::<char>::empty());
                }
                empty
            },
        },
    }
}

fn field_differs(current: &Option<String>, text: &String) -> (r: bool)
    ensures
        r == (text_or(*current) != text@),
{
    match current {
        Some(t) => *t != *text,
        None => {
            let empty = text.as_str().unicode_len() == 0;
            proof {
                if empty {
                    assert(text@ =~= Seq::<char>::empty());
                }
            }
            !empty
        },
    }
}

/// Update a realized piece.
pub fn update(kind: Kind, patch: Patch, seen: Seen) -> (act: Act)
    ensures
        asks(kind, patch, seen, act),
{
    let b = match kind {
        Kind::Extension(_) => {
            return if seen.registered {
                Act::Extension
            } else {
                Act::Nothing
            };
        },
        Kind::Builtin(b) => b,
    };
    match b {
        Builtin::Picker => Act::Delegated(b),
        Builtin::TextArea => Act::Delegated(b),
        Builtin::Image => match patch {
            Patch::ImageTint(color) => {
                if seen.class == ViewClass::ImageView {
                    Act::Tint { template: color.is_some(), color }
                } else {
                    Act::Nothing
                }
            },
            _ => Act::Nothing,
        },
        Builtin::Container => match patch {
            Patch::Background(color) => Act::Background(color),
            _ => Act::Nothing,
        },
        Builtin::NavMenu => match patch {
            Patch::MenuItems { content, selected } => Act::MenuItems { content, selected },
            Patch::MenuSelected(selected) => {
                if seen.class == ViewClass::CollectionView {
                    Act::MenuSelected(selected)
                } else {
                    Act::Nothing
                }
            },
            _ => Act::Nothing,
        },
        Builtin::Cover => match (patch, seen.cover) {
            (Patch::Cover(p), Some(cover)) => match p {
                CoverPatch::Present { background, dismiss_disabled } => Act::PresentCover {
                    vc: cover.vc,
                    background,
                    dismiss_disabled,
                },
                CoverPatch::DismissDisabled(on) => Act::CoverDismissDisabled { vc: cover.vc, on },
                CoverPatch::Dismiss => Act::DismissCover(cover),
            },
            _ => Act::Nothing,
        },
        Builtin::Nav => match patch {
            Patch::SearchText(t) => {
                if seen.search {
                    Act::SearchText(t)
                } else {
                    Act::Nothing
                }
            },
            Patch::Nav(p) => match p {
                NavPatch::Select(i) if seen.tabs_host => Act::SelectTab(i),
                _ => Act::Nav(p),
            },
            _ => Act::Nothing,
        },
        Builtin::Label => match patch {
            Patch::Label(p) => {
                if seen.class != ViewClass::Label && seen.class != ViewClass::TextView {
                    return Act::Nothing;
                }
                match p {
                    LabelPatch::Text(t) => Act::Text(t),
                    LabelPatch::Font(f) => Act::Font(f),
                    LabelPatch::Runs(t, runs) => if seen.has_font {
                        Act::Runs(t, runs)
                    } else {
                        Act::Nothing
                    },
                    LabelPatch::Color(c) => Act::TextColor(c),
                }
            },
            _ => Act::Nothing,
        },
        Builtin::Button => match patch {
            Patch::Button(p) => {
                if seen.class != ViewClass::Button {
                    return Act::Nothing;
                }
                match p {
                    ButtonPatch::Title(t) => if seen.configured {
                        Act::ConfigTitle(t)
                    } else {
                        Act::StateTitle(t)
                    },
                    ButtonPatch::Enabled(on) => Act::Enabled(on),
                    ButtonPatch::Style(s) => Act::ButtonStyle {
                        look: button_look(s),
                        title: current_title(seen.config_title, seen.state_title),
                    },
                }
            },
            _ => Act::Nothing,
        },
        Builtin::Toggle => {
            if seen.class != ViewClass::Switch {
                return Act::Nothing;
            }
            match patch {
                Patch::ToggleOn(on) => if seen.on != on {
                    Act::On(on)
                } else {
                    Act::Nothing
                },
                Patch::ControlEnabled(on) => Act::Enabled(on),
                _ => Act::Nothing,
            }
        },
        Builtin::Slider => {
            if seen.class != ViewClass::Slider {
                return Act::Nothing;
            }
            match patch {
                Patch::SliderValue(v) => if seen.moved {
                    Act::Value(v)
                } else {
                    Act::Nothing
                },
                Patch::ControlEnabled(on) => Act::Enabled(on),
                _ => Act::Nothing,
            }
        },
        Builtin::Progress => match patch {
            Patch::Progress(value) => match value {
                Some(v) => {
                    if seen.class == ViewClass::ProgressBar && seen.moved {
                        Act::Progress(v)
                    } else {
                        Act::Nothing
                    }
                },
                None => Act::Nothing,
            },
            _ => Act::Nothing,
        },
        Builtin::TextField => match patch {
            Patch::Field(p) => {
                if seen.class != ViewClass::TextField {
                    return Act::Nothing;
                }
                match p {
                    FieldPatch::Text { text, from_native } => {
                        if !from_native && field_differs(&seen.text, &text) {
                            Act::FieldText(text)
                        } else {
                            Act::Nothing
                        }
                    },
                    FieldPatch::Placeholder(t) => Act::Placeholder(t),
                    FieldPatch::Enabled(on) => Act::Enabled(on),
                    FieldPatch::Secure(on) => Act::Secure(on),
                }
            },
            _ => Act::Nothing,
        },
        Builtin::Tree => match patch {
            Patch::Tree(p) => Act::Tree(p),
            _ => Act::Nothing,
        },
        Builtin::List => match patch {
            Patch::List(p) => list_update(p, seen.rows),
            _ => Act::Nothing,
        },
        _ => {
            if seen.registered {
                Act::Extension
            } else {
                Act::Nothing
            }
        },
    }
}

/// A size proposed to a piece; an open side is the piece's own.
#[derive(Clone, Copy, PartialEq, Eq, Structural, Debug)]
pub struct Proposal {
    pub width: Option<Scalar>,
    pub height: Option<Scalar>,
}

/// The bits of the lengths a measure knows: 4, 20, 31, 34, 180, 320, and the million points
/// that stand for no bound.
pub const BAR_HEIGHT: u64 = 0x4010_0000_0000_0000;

pub const SPINNER_SIDE: u64 = 0x4034_0000_0000_0000;

pub const SLIDER_HEIGHT: u64 = 0x403f_0000_0000_0000;

pub const FIELD_HEIGHT: u64 = 0x4041_0000_0000_0000;

pub const CONTROL_WIDTH: u64 = 0x4066_8000_0000_0000;

pub const MENU_WIDTH: u64 = 0x4074_0000_0000_0000;

pub const UNBOUNDED: u64 = 0x412e_8480_0000_0000;

/// What has to be asked before a piece's size is known.
#[derive(Clone, Copy, PartialEq, Eq, Structural, Debug)]
pub enum Ask {
    /// Nothing.
    Nothing,
    /// The size, rounded up, the view fits this one in.
    Fit(Size),
    /// A piece with a measure of its own.
    Delegated(Builtin),
    /// A registered renderer, which answers the size itself.
    Extension,
}

pub open spec fn or_else(side: Option<Scalar>, own: Scalar) -> Scalar {
    match side {
        Some(s) => s,
        None => own,
    }
}

fn side_or(side: Option<Scalar>, own: Scalar) -> (r: Scalar)
    ensures
        r == or_else(side, own),
{
    match side {
        Some(s) => s,
        None => own,
    }
}

/// What is asked about a piece; `measures` says whether a registered renderer measures the kind.
pub open spec fn ask_of(kind: Kind, proposal: Proposal, measures: bool) -> Ask {
    let unbounded = Ask::Fit(Size { width: Scalar(UNBOUNDED), height: Scalar(UNBOUNDED) });
    let other = if measures {
        Ask::Extension
    } else {
        unbounded
    };
    match kind {
        Kind::Extension(_) => other,
        Kind::Builtin(b) => match b {
            Builtin::NavMenu => Ask::Nothing,
            Builtin::Divider => Ask::Nothing,
            Builtin::Progress => Ask::Nothing,
            Builtin::List => Ask::Nothing,
            Builtin::Tree => Ask::Nothing,
            Builtin::Label => Ask::Fit(
                Size {
                    width: or_else(proposal.width, Scalar(UNBOUNDED)),
                    height: Scalar(UNBOUNDED),
                },
            ),
            Builtin::Button => unbounded,
            Builtin::Toggle => unbounded,
            Builtin::Slider => unbounded,
            Builtin::TextField => unbounded,
            Builtin::Picker => Ask::Delegated(b),
            Builtin::TextArea => Ask::Delegated(b),
            _ => other,
        },
    }
}

/// What has to be asked before [`measure`].
pub fn measure_ask(kind: Kind, proposal: Proposal, measures: bool) -> (r: Ask)
    ensures
        r == ask_of(kind, proposal, measures),
{
    let unbounded = Ask::Fit(Size { width: Scalar(UNBOUNDED), height: Scalar(UNBOUNDED) });
    let other = if measures {
        Ask::Extension
    } else {
        unbounded
    };
    match kind {
        Kind::Extension(_) => other,
        Kind::Builtin(b) => match b {
            Builtin::NavMenu => Ask::Nothing,
            Builtin::Divider => Ask::Nothing,
            Builtin::Progress => Ask::Nothing,
            Builtin::List => Ask::Nothing,
            Builtin::Tree => Ask::Nothing,
            Builtin::Label => Ask::Fit(
                Size {
                    width: side_or(proposal.width, Scalar(UNBOUNDED)),
                    height: Scalar(UNBOUNDED),
                },
            ),
            Builtin::Button => unbounded,
            Builtin::Toggle => unbounded,
            Builtin::Slider => unbounded,
            Builtin::TextField => unbounded,
            Builtin::Picker => Ask::Delegated(b),
            Builtin::TextArea => Ask::Delegated(b),
            _ => other,
        },
    }
}

/// The size of a piece, given the answer: a control's own width is a default, and a slider or a
/// field is never lower than a finger needs.
pub open spec fn size_of(
    kind: Kind,
    proposal: Proposal,
    fit: Size,
    menu_height: Scalar,
    spinner: bool,
) -> Size {
    let open = Size {
        width: or_else(proposal.width, fit.width),
        height: or_else(proposal.height, fit.height),
    };
    match kind {
        Kind::Extension(_) => open,
        Kind::Builtin(b) => match b {
            Builtin::NavMenu => Size {
                width: or_else(proposal.width, Scalar(MENU_WIDTH)),
                height: or_else(proposal.height, menu_height),
            },
            Builtin::Label => Size {
                width: fit.width.min_spec(or_else(proposal.width, Scalar(UNBOUNDED))),
                height: fit.height,
            },
            Builtin::Button => fit,
            Builtin::Toggle => fit,
            Builtin::Slider => Size {
                width: or_else(proposal.width, Scalar(CONTROL_WIDTH)),
                height: fit.height.max_spec(Scalar(SLIDER_HEIGHT)),
            },
            Builtin::TextField => Size {
                width: or_else(proposal.width, Scalar(CONTROL_WIDTH)),
                height: fit.height.max_spec(Scalar(FIELD_HEIGHT)),
            },
            Builtin::Divider => Size {
                width: or_else(proposal.width, Scalar(0)),
                height: Scalar(ONE_BITS),
            },
            Builtin::Progress => if spinner {
                Size { width: Scalar(SPINNER_SIDE), height: Scalar(SPINNER_SIDE) }
            } else {
                Size {
                    width: or_else(proposal.width, Scalar(CONTROL_WIDTH)),
                    height: Scalar(BAR_HEIGHT),
                }
            },
            Builtin::List => Size {
                width: or_else(proposal.width, Scalar(0)),
                height: or_else(proposal.height, Scalar(0)),
            },
            Builtin::Tree => Size {
                width: or_else(proposal.width, Scalar(0)),
                height: or_else(proposal.height, Scalar(0)),
            },
            _ => open,
        },
    }
}

/// The size of a piece nobody else measures: `fit` answers [`measure_ask`], `menu_height` is the
/// height of a menu's list, `spinner` says whether a progress piece shows one.
pub fn measure(
    kind: Kind,
    proposal: Proposal,
    fit: Size,
    menu_height: Scalar,
    spinner: bool,
) -> (r: Size)
    ensures
        r == size_of(kind, proposal, fit, menu_height, spinner),
{
    let (width, height) = (proposal.width, proposal.height);
    let open = Size { width: side_or(width, fit.width), height: side_or(height, fit.height) };
    match kind {
        Kind::Extension(_) => open,
        Kind::Builtin(b) => match b {
            Builtin::NavMenu => Size {
                width: side_or(width, Scalar(MENU_WIDTH)),
                height: side_or(height, menu_height),
            },
            Builtin::Label => Size {
                width: fit.width.min(side_or(width, Scalar(UNBOUNDED))),
                height: fit.height,
            },
            Builtin::Button => fit,
            Builtin::Toggle => fit,
            Builtin::Slider => Size {
                width: side_or(width, Scalar(CONTROL_WIDTH)),
                height: fit.height.max(Scalar(SLIDER_HEIGHT)),
            },
            Builtin::TextField => Size {
                width: side_or(width, Scalar(CONTROL_WIDTH)),
                height: fit.height.max(Scalar(FIELD_HEIGHT)),
            },
            Builtin::Divider => Size { width: side_or(width, Scalar(0)), height: Scalar(ONE_BITS) },
            Builtin::Progress => {
                if spinner {
                    Size { width: Scalar(SPINNER_SIDE), height: Scalar(SPINNER_SIDE) }
                } else {
                    Size { width: side_or(width, Scalar(CONTROL_WIDTH)), height: Scalar(BAR_HEIGHT) }
                }
            },
            Builtin::List => Size {
                width: side_or(width, Scalar(0)),
                height: side_or(height, Scalar(0)),
            },
            Builtin::Tree => Size {
                width: side_or(width, Scalar(0)),
                height: side_or(height, Scalar(0)),
            },
            _ => open,
        },
    }
}

/// A field is left alone by a text that it shows already, or that came from the user.
pub proof fn law_field_does_not_echo(seen: Seen, text: String, from_native: bool, act: Act)
    requires
        seen.class == ViewClass::TextField,
        from_native || text_or(seen.text) == text@,
        asks(
            Kind::Builtin(Builtin::TextField),
            Patch::Field(FieldPatch::Text { text, from_native }),
            seen,
            act,
        ),
    ensures
        act is Nothing,
{
}

/// A switch that shows what a patch says is left alone.
pub proof fn law_toggle_does_not_echo(seen: Seen, act: Act)
    requires
        asks(Kind::Builtin(Builtin::Toggle), Patch::ToggleOn(seen.on), seen, act),
    ensures
        act is Nothing,
{
}

/// A mismatched payload never fails: every kind still has a widget, and a container one of its own.
pub proof fn law_mismatched_props_degrade(b: Builtin, registered: bool)
    ensures
        ({
            let w = widget_of(Kind::Builtin(b), Props::Mismatch, registered);
            &&& b == Builtin::Container ==> w == Widget::Container(Surface::Bare)
            &&& w is Placeholder || w is Missing || w is Extension || w is Delegated
                || w is Container || w is Scroll || w is Divider || w is Canvas || w is Cover
        }),
{
}

/// Exactly the target/action controls are wired, each as what it is.
pub proof fn law_controls_are_wired(kind: Kind, props: Props, registered: bool)
    ensures
        wired_of(widget_of(kind, props, registered)) == (match (kind, props) {
            (Kind::Builtin(Builtin::Button), Props::Button { .. }) => Some(Wired::Button),
            (Kind::Builtin(Builtin::Toggle), Props::Toggle { .. }) => Some(Wired::Toggle),
            (Kind::Builtin(Builtin::Slider), Props::Slider { .. }) => Some(Wired::Slider),
            (Kind::Builtin(Builtin::TextField), Props::TextField { .. }) => Some(Wired::TextField),
            _ => None,
        }),
{
}

/// A renderer is found for its own kind alone: no two kinds are registered under one number.
pub proof fn law_kinds_are_told_apart(a: Kind, b: Kind)
    requires
        key_of(a) == key_of(b),
    ensures
        a == b,
{
}

/// A label is never measured wider than the width proposed to it.
pub proof fn law_label_fits_its_proposal(width: Scalar, fit: Size, menu_height: Scalar, spinner: bool)
    requires
        width.is_number(),
    ensures
        !width.lt_spec(
            size_of(
                Kind::Builtin(Builtin::Label),
                Proposal { width: Some(width), height: None },
                fit,
                menu_height,
                spinner,
            ).width,
        ),
{
}

/// A slider is never lower than 31 points, a field than 34, whatever they fit.
pub proof fn law_controls_stay_tall(proposal: Proposal, fit: Size, menu_height: Scalar, spinner: bool)
    ensures
        !size_of(
            Kind::Builtin(Builtin::Slider),
            proposal,
            fit,
            menu_height,
            spinner,
        ).height.lt_spec(Scalar(SLIDER_HEIGHT)),
        !size_of(
            Kind::Builtin(Builtin::TextField),
            proposal,
            fit,
            menu_height,
            spinner,
        ).height.lt_spec(Scalar(FIELD_HEIGHT)),
{
}

/// A text field holds its text, prompts with its placeholder, and hides what it holds exactly when it
/// is secure. A text patch with the very text it holds finds nothing to change, and any other text is
/// what it is changed to.
pub proof fn law_field_shows_its_props(
    text: String,
    placeholder: String,
    secure: bool,
    registered: bool,
    w: Widget,
    seen: Seen,
    other: String,
    same: Act,
    changed: Act,
    prompt: Act,
    hide: Act,
)
    requires
        call_ensures(
            realize,
            (
                Kind::Builtin(Builtin::TextField),
                Props::TextField { text, placeholder, secure },
                registered,
            ),
            w,
        ),
        seen.class == ViewClass::TextField,
        w matches Widget::TextField { text: t, .. } ==> seen.text == Some(t),
        other@ != text@,
        call_ensures(
            update,
            (
                Kind::Builtin(Builtin::TextField),
                Patch::Field(FieldPatch::Text { text, from_native: false }),
                seen,
            ),
            same,
        ),
        call_ensures(
            update,
            (
                Kind::Builtin(Builtin::TextField),
                Patch::Field(FieldPatch::Text { text: other, from_native: false }),
                seen,
            ),
            changed,
        ),
        call_ensures(
            update,
            (
                Kind::Builtin(Builtin::TextField),
                Patch::Field(FieldPatch::Placeholder(placeholder)),
                seen,
            ),
            prompt,
        ),
        call_ensures(
            update,
            (Kind::Builtin(Builtin::TextField), Patch::Field(FieldPatch::Secure(secure)), seen),
            hide,
        ),
    ensures
        w matches Widget::TextField { text: t, placeholder: p, secure: s } && {
            &&& t == text
            &&& p == placeholder
            &&& s == secure
            &&& same is Nothing
            &&& changed == Act::FieldText(other)
            &&& prompt == Act::Placeholder(p)
            &&& hide == Act::Secure(s)
        },
{
}

/// A switch shows its state and can be used exactly when it is enabled. A patch to the state it shows
/// changes nothing, a patch to the other one turns it.
pub proof fn law_switch_shows_its_props(
    on: bool,
    enabled: bool,
    registered: bool,
    w: Widget,
    seen: Seen,
    same: Act,
    turned: Act,
    used: bool,
    able: Act,
)
    requires
        call_ensures(
            realize,
            (Kind::Builtin(Builtin::Toggle), Props::Toggle { on, enabled }, registered),
            w,
        ),
        seen.class == ViewClass::Switch,
        w matches Widget::Toggle { on: o, .. } ==> seen.on == o,
        call_ensures(update, (Kind::Builtin(Builtin::Toggle), Patch::ToggleOn(on), seen), same),
        call_ensures(update, (Kind::Builtin(Builtin::Toggle), Patch::ToggleOn(!on), seen), turned),
        call_ensures(update, (Kind::Builtin(Builtin::Toggle), Patch::ControlEnabled(used), seen), able),
    ensures
        w matches Widget::Toggle { on: o, enabled: e } && o == on && e == enabled,
        same is Nothing,
        turned == Act::On(!on),
        able == Act::Enabled(used),
{
}

/// A slider runs between its bounds and stands at its value; a patch that moves it sets that value,
/// and one that does not is left alone.
pub proof fn law_slider_shows_its_props(
    min: Scalar,
    max: Scalar,
    value: Scalar,
    registered: bool,
    w: Widget,
    seen: Seen,
    v: Scalar,
    act: Act,
    used: bool,
    able: Act,
)
    requires
        call_ensures(
            realize,
            (Kind::Builtin(Builtin::Slider), Props::Slider { min, max, value }, registered),
            w,
        ),
        seen.class == ViewClass::Slider,
        call_ensures(update, (Kind::Builtin(Builtin::Slider), Patch::SliderValue(v), seen), act),
        call_ensures(update, (Kind::Builtin(Builtin::Slider), Patch::ControlEnabled(used), seen), able),
    ensures
        w matches Widget::Slider { min: a, max: b, value: c } && a == min && b == max && c == value,
        seen.moved ==> act == Act::Value(v),
        !seen.moved ==> act is Nothing,
        able == Act::Enabled(used),
{
}

/// A button carries its title in the look of its style. A new title goes where the old one is; a new
/// style is that style's look, and keeps the title that is there.
pub proof fn law_button_shows_its_props(
    title: String,
    style: ButtonStyle,
    registered: bool,
    w: Widget,
    look: ButtonLook,
    seen: Seen,
    other: String,
    retitled: Act,
    used: bool,
    able: Act,
    restyled: Act,
)
    requires
        call_ensures(
            realize,
            (Kind::Builtin(Builtin::Button), Props::Button { title, style }, registered),
            w,
        ),
        call_ensures(button_look, (style,), look),
        seen.class == ViewClass::Button,
        call_ensures(
            update,
            (Kind::Builtin(Builtin::Button), Patch::Button(ButtonPatch::Title(other)), seen),
            retitled,
        ),
        call_ensures(
            update,
            (Kind::Builtin(Builtin::Button), Patch::Button(ButtonPatch::Enabled(used)), seen),
            able,
        ),
        call_ensures(
            update,
            (Kind::Builtin(Builtin::Button), Patch::Button(ButtonPatch::Style(style)), seen),
            restyled,
        ),
    ensures
        w matches Widget::Button { title: t, look: l } && t == title && l == look,
        seen.configured ==> retitled == Act::ConfigTitle(other),
        !seen.configured ==> retitled == Act::StateTitle(other),
        able == Act::Enabled(used),
        restyled matches Act::ButtonStyle { look: l, title: t } && {
            &&& l == look
            &&& seen.config_title matches Some(c) ==> t@ == c@
            &&& seen.config_title is None ==> (seen.state_title matches Some(s) ==> t@ == s@)
            &&& seen.config_title is None && seen.state_title is None ==> t@.len() == 0
        },
{
}

/// A label shows its text in its font and runs. With a link among the runs it is a text that can be
/// tapped, in its own color; without one it is inked by its color, or else by its role.
pub proof fn law_label_shows_its_props(
    p: LabelProps,
    registered: bool,
    w: Widget,
    link: bool,
    ink: LabelColor,
)
    requires
        call_ensures(realize, (Kind::Builtin(Builtin::Label), Props::Label(p), registered), w),
        call_ensures(needs_link_view, (&p.runs,), link),
        call_ensures(label_color, (p.color, p.role), ink),
    ensures
        link ==> (w matches Widget::LinkLabel { text, font, color, runs } && text == p.text && font
            == p.font && color == p.color && runs == p.runs),
        !link ==> (w matches Widget::Label { text, font, ink: i, tint, runs } && text == p.text && font
            == p.font && i == ink && tint == p.color && runs == p.runs),
        link <==> exists|i: int| 0 <= i < p.runs@.len() && (#[trigger] p.runs@[i]).link is Some,
{
}

/// A label's patches are its new text, font, color and runs, as they are; runs need a font to build
/// on, and nothing is asked of a view that is no label.
pub proof fn law_label_takes_its_patches(
    seen: Seen,
    text: String,
    font: FontSpec,
    color: Option<Color>,
    runs: Vec<TextRun>,
    a: Act,
    b: Act,
    c: Act,
    d: Act,
)
    requires
        call_ensures(
            update,
            (Kind::Builtin(Builtin::Label), Patch::Label(LabelPatch::Text(text)), seen),
            a,
        ),
        call_ensures(
            update,
            (Kind::Builtin(Builtin::Label), Patch::Label(LabelPatch::Font(font)), seen),
            b,
        ),
        call_ensures(
            update,
            (Kind::Builtin(Builtin::Label), Patch::Label(LabelPatch::Color(color)), seen),
            c,
        ),
        call_ensures(
            update,
            (Kind::Builtin(Builtin::Label), Patch::Label(LabelPatch::Runs(text, runs)), seen),
            d,
        ),
    ensures
        seen.class == ViewClass::Label || seen.class == ViewClass::TextView ==> {
            &&& a == Act::Text(text)
            &&& b == Act::Font(font)
            &&& c == Act::TextColor(color)
            &&& seen.has_font ==> d == Act::Runs(text, runs)
            &&& !seen.has_font ==> d is Nothing
        },
        seen.class != ViewClass::Label && seen.class != ViewClass::TextView ==> a is Nothing && b is Nothing
            && c is Nothing && d is Nothing,
{
}

/// An image is its source, scaled as its mode says and in its tint; a tint patch colors its mask, and
/// taking the tint away shows it as it is.
pub proof fn law_image_shows_its_props(
    source: String,
    mode: ContentMode,
    tint: Option<Color>,
    registered: bool,
    w: Widget,
    scaling: Scaling,
    seen: Seen,
    act: Act,
)
    requires
        call_ensures(
            realize,
            (Kind::Builtin(Builtin::Image), Props::Image { source, mode, tint }, registered),
            w,
        ),
        call_ensures(image_scaling, (mode,), scaling),
        call_ensures(update, (Kind::Builtin(Builtin::Image), Patch::ImageTint(tint), seen), act),
    ensures
        w matches Widget::Image { source: s, scaling: m, tint: t } && s == source && m == scaling && t
            == tint,
        seen.class == ViewClass::ImageView ==> act == (Act::Tint { template: tint is Some, color: tint }),
        seen.class != ViewClass::ImageView ==> act is Nothing,
{
}

/// A known fraction is a bar at that fraction, an unknown one a spinner. A patch moves the bar to its
/// fraction, and leaves a spinner, or a bar that stands there, alone.
pub proof fn law_progress_shows_its_fraction(
    fraction: Option<Scalar>,
    registered: bool,
    w: Widget,
    seen: Seen,
    act: Act,
)
    requires
        call_ensures(
            realize,
            (Kind::Builtin(Builtin::Progress), Props::Progress { fraction }, registered),
            w,
        ),
        call_ensures(update, (Kind::Builtin(Builtin::Progress), Patch::Progress(fraction), seen), act),
    ensures
        fraction matches Some(v) ==> w == Widget::ProgressBar(v),
        fraction is None ==> w is Spinner && act is Nothing,
        fraction matches Some(v) ==> if seen.class == ViewClass::ProgressBar && seen.moved {
            act == Act::Progress(v)
        } else {
            act is Nothing
        },
{
}

/// A navigation piece is the host it is lowered to, with its search field: tabs, a plain stack, or a
/// split that has the content list's column exactly when the list is declared and shown.
pub proof fn law_navigation_is_lowered_as_asked(p: NavProps, registered: bool, w: Widget)
    requires
        call_ensures(realize, (Kind::Builtin(Builtin::Nav), Props::Nav(p), registered), w),
    ensures
        p.lowering == Lowering::Tabs ==> w is TabsHost,
        p.lowering == Lowering::Stack ==> (w matches Widget::StackHost { search } && search == p.search),
        p.lowering == Lowering::Split ==> (w matches Widget::SplitHost { config, list_visible, search } && {
            &&& search == p.search
            &&& list_visible == p.list_visible
            &&& config.list_width == p.list_width
            &&& config.triple <==> p.list_width is Some && p.list_visible
            &&& config.seed_secondary <==> config.triple
        }),
{
}

/// A page, a menu, a tree and a list are what their props say: titles, panes, contents, heights and
/// switches are the props' own. Separators are off only where they are turned off.
pub proof fn law_collections_show_their_props(
    title: String,
    pane: Pane,
    menu: NavMenuProps,
    tree: TreeProps,
    list: ListProps,
    registered: bool,
    page: Widget,
    m: Widget,
    t: Widget,
    l: Widget,
    tree_height: Scalar,
    list_height: Scalar,
)
    requires
        call_ensures(
            realize,
            (Kind::Builtin(Builtin::NavPage), Props::NavPage { title, pane }, registered),
            page,
        ),
        call_ensures(realize, (Kind::Builtin(Builtin::NavMenu), Props::NavMenu(menu), registered), m),
        call_ensures(realize, (Kind::Builtin(Builtin::Tree), Props::Tree(tree), registered), t),
        call_ensures(realize, (Kind::Builtin(Builtin::List), Props::List(list), registered), l),
        call_ensures(row_height, (tree.row_height,), tree_height),
        call_ensures(row_height, (list.row_height,), list_height),
    ensures
        page matches Widget::NavPage { title: a, pane: b } && a == title && b == pane,
        m == Widget::NavMenu(menu),
        t matches Widget::Tree { row_height: h, selectable, multi_select } && h == tree_height
            && selectable == tree.selectable && multi_select == tree.multi_select,
        l matches Widget::List { row_height: h, selectable, separators, reorderable, delete_label } && {
            &&& h == list_height
            &&& selectable == list.selectable
            &&& separators <==> list.separators is None || list.separators == Some(true)
            &&& reorderable == list.reorderable
            &&& delete_label == list.delete_label
        },
        list.row_height matches RowHeight::Uniform(h) ==> list_height == h,
{
    match list.separators {
        Some(on) => {
            assert(on || list.separators == Some(false));
        },
        None => {},
    }
}

/// A container draws the surface of its decoration, and a bare one without any; a background patch is
/// that background.
pub proof fn law_container_shows_its_surface(
    p: ContainerProps,
    registered: bool,
    w: Widget,
    bare: Widget,
    ground: Surface,
    seen: Seen,
    color: Option<Color>,
    act: Act,
)
    requires
        call_ensures(realize, (Kind::Builtin(Builtin::Container), Props::Container(p), registered), w),
        call_ensures(realize, (Kind::Builtin(Builtin::Container), Props::Mismatch, registered), bare),
        call_ensures(surface, (Some(p),), ground),
        call_ensures(update, (Kind::Builtin(Builtin::Container), Patch::Background(color), seen), act),
    ensures
        w == Widget::Container(ground),
        bare == Widget::Container(Surface::Bare),
        act == Act::Background(color),
{
}

/// Pieces without props are what they are; a piece the backend does not draw is its renderer's where
/// there is one, and a visible stand-in where there is none. The same goes for their patches.
pub proof fn law_foreign_pieces_are_their_renderers(
    kind: Kind,
    props: Props,
    registered: bool,
    w: Widget,
    patch: Patch,
    seen: Seen,
    act: Act,
)
    requires
        call_ensures(realize, (kind, props, registered), w),
        call_ensures(update, (kind, patch, seen), act),
    ensures
        kind is Extension || kind == Kind::Builtin(Builtin::ListCell) || kind == Kind::Builtin(
            Builtin::Inspector,
        ) || kind == Kind::Builtin(Builtin::InspectorPane) ==> {
            &&& w is Extension <==> registered
            &&& w is Missing <==> !registered
            &&& act is Extension <==> seen.registered
            &&& act is Nothing <==> !seen.registered
        },
        kind == Kind::Builtin(Builtin::Picker) ==> w == Widget::Delegated(Builtin::Picker) && act
            == Act::Delegated(Builtin::Picker),
        kind == Kind::Builtin(Builtin::TextArea) ==> w == Widget::Delegated(Builtin::TextArea) && act
            == Act::Delegated(Builtin::TextArea),
        kind == Kind::Builtin(Builtin::Scroll) ==> w is Scroll,
        kind == Kind::Builtin(Builtin::Divider) ==> w is Divider,
        kind == Kind::Builtin(Builtin::Canvas) ==> w is Canvas,
        kind == Kind::Builtin(Builtin::Cover) ==> w is Cover,
{
}

/// A payload that does not fit its kind is a visible stand-in, never another kind's widget.
pub proof fn law_misfit_is_a_stand_in(b: Builtin, registered: bool, w: Widget)
    requires
        call_ensures(realize, (Kind::Builtin(b), Props::Mismatch, registered), w),
        b == Builtin::Nav || b == Builtin::NavPage || b == Builtin::NavMenu || b == Builtin::Tree || b
            == Builtin::List || b == Builtin::Label || b == Builtin::Button || b == Builtin::Toggle || b
            == Builtin::Slider || b == Builtin::TextField || b == Builtin::Progress || b
            == Builtin::Image,
    ensures
        w is Placeholder,
{
}

/// A patch that is not of its view's kind asks nothing of a piece the backend draws.
pub proof fn law_misfit_patch_asks_nothing(b: Builtin, seen: Seen, act: Act)
    requires
        call_ensures(update, (Kind::Builtin(b), Patch::Mismatch, seen), act),
        b != Builtin::Picker && b != Builtin::TextArea,
        !seen.registered,
    ensures
        act is Nothing,
{
}

/// Each control that reports is wired as what it is, and no other widget is wired.
pub proof fn law_widgets_are_wired_as_what_they_are(w: &Widget, r: Option<Wired>)
    requires
        call_ensures(wired, (w,), r),
    ensures
        r == Some(Wired::Button) <==> w is Button,
        r == Some(Wired::Toggle) <==> w is Toggle,
        r == Some(Wired::Slider) <==> w is Slider,
        r == Some(Wired::TextField) <==> w is TextField,
        r is None <==> !(w is Button) && !(w is Toggle) && !(w is Slider) && !(w is TextField),
{
}

/// A field takes its patches: a text from the app that it does not show, and its enabling; a text that
/// came from the user is never echoed. Nothing is asked of a view that is no field.
pub proof fn law_field_takes_its_patches(
    seen: Seen,
    text: String,
    from_native: bool,
    used: bool,
    a: Act,
    b: Act,
)
    requires
        call_ensures(
            update,
            (
                Kind::Builtin(Builtin::TextField),
                Patch::Field(FieldPatch::Text { text, from_native }),
                seen,
            ),
            a,
        ),
        call_ensures(
            update,
            (Kind::Builtin(Builtin::TextField), Patch::Field(FieldPatch::Enabled(used)), seen),
            b,
        ),
    ensures
        seen.class != ViewClass::TextField ==> a is Nothing && b is Nothing,
        seen.class == ViewClass::TextField ==> b == Act::Enabled(used),
        from_native ==> a is Nothing,
        seen.class == ViewClass::TextField && !from_native ==> {
            &&& seen.text matches Some(t) ==> if t@ == text@ {
                a is Nothing
            } else {
                a == Act::FieldText(text)
            }
            &&& seen.text is None ==> if text@.len() == 0 {
                a is Nothing
            } else {
                a == Act::FieldText(text)
            }
        },
{
    if text@.len() == 0 {
        assert(text@ =~= Seq::<char>::empty());
    }
}

/// A menu takes its new rows and selection as they are.
pub proof fn law_menu_takes_its_patches(
    seen: Seen,
    content: MenuContent,
    selected: Option<usize>,
    rows: Act,
    mark: Act,
)
    requires
        call_ensures(
            update,
            (Kind::Builtin(Builtin::NavMenu), Patch::MenuItems { content, selected }, seen),
            rows,
        ),
        call_ensures(
            update,
            (Kind::Builtin(Builtin::NavMenu), Patch::MenuSelected(selected), seen),
            mark,
        ),
    ensures
        rows == (Act::MenuItems { content, selected }),
        seen.class == ViewClass::CollectionView ==> mark == Act::MenuSelected(selected),
        seen.class != ViewClass::CollectionView ==> mark is Nothing,
{
}

/// A cover is presented, guarded and dismissed by its own controller; a view that is no cover is
/// asked nothing.
pub proof fn law_cover_takes_its_patches(
    seen: Seen,
    background: Option<Color>,
    guard: bool,
    show: Act,
    hold: Act,
    hide: Act,
)
    requires
        call_ensures(
            update,
            (
                Kind::Builtin(Builtin::Cover),
                Patch::Cover(CoverPatch::Present { background, dismiss_disabled: guard }),
                seen,
            ),
            show,
        ),
        call_ensures(
            update,
            (
                Kind::Builtin(Builtin::Cover),
                Patch::Cover(CoverPatch::DismissDisabled(guard)),
                seen,
            ),
            hold,
        ),
        call_ensures(
            update,
            (Kind::Builtin(Builtin::Cover), Patch::Cover(CoverPatch::Dismiss), seen),
            hide,
        ),
    ensures
        seen.cover is None ==> show is Nothing && hold is Nothing && hide is Nothing,
        seen.cover matches Some(cover) ==> {
            &&& show == (Act::PresentCover { vc: cover.vc, background, dismiss_disabled: guard })
            &&& hold == (Act::CoverDismissDisabled { vc: cover.vc, on: guard })
            &&& hide == Act::DismissCover(cover)
        },
{
}

/// A navigation host takes a search text where it has the field, a selection where it is a tabs host,
/// and every other navigation patch as it is. A tree takes its patches as they are.
pub proof fn law_hosts_take_their_patches(
    seen: Seen,
    text: String,
    i: usize,
    p: NavPatch,
    tree: TreePatch,
    a: Act,
    b: Act,
    c: Act,
    d: Act,
)
    requires
        call_ensures(update, (Kind::Builtin(Builtin::Nav), Patch::SearchText(text), seen), a),
        call_ensures(
            update,
            (Kind::Builtin(Builtin::Nav), Patch::Nav(NavPatch::Select(i)), seen),
            b,
        ),
        call_ensures(update, (Kind::Builtin(Builtin::Nav), Patch::Nav(p), seen), c),
        call_ensures(update, (Kind::Builtin(Builtin::Tree), Patch::Tree(tree), seen), d),
    ensures
        seen.search ==> a == Act::SearchText(text),
        !seen.search ==> a is Nothing,
        seen.tabs_host ==> b == Act::SelectTab(i),
        !(p is Select) ==> c == Act::Nav(p),
        d == Act::Tree(tree),
{
}

/// A list takes its row changes as they are, reloads, and scrolls to its last row, or to a row it has:
/// past the end it is the last. A list without rows scrolls nowhere, one that is not registered does
/// nothing at once, and row sizes and selections are not driven.
pub proof fn law_list_takes_its_patches(
    seen: Seen,
    deltas: Vec<RowDelta>,
    row: usize,
    splice: Act,
    reload: Act,
    end: Act,
    to: Act,
    sizes: Act,
    chosen: Act,
)
    requires
        call_ensures(
            update,
            (Kind::Builtin(Builtin::List), Patch::List(ListPatch::Splice(deltas)), seen),
            splice,
        ),
        call_ensures(
            update,
            (Kind::Builtin(Builtin::List), Patch::List(ListPatch::Reload), seen),
            reload,
        ),
        call_ensures(
            update,
            (Kind::Builtin(Builtin::List), Patch::List(ListPatch::ScrollToEnd), seen),
            end,
        ),
        call_ensures(
            update,
            (Kind::Builtin(Builtin::List), Patch::List(ListPatch::ScrollToRow(row)), seen),
            to,
        ),
        call_ensures(
            update,
            (Kind::Builtin(Builtin::List), Patch::List(ListPatch::RowSizeInvalidated), seen),
            sizes,
        ),
        call_ensures(
            update,
            (Kind::Builtin(Builtin::List), Patch::List(ListPatch::Selected), seen),
            chosen,
        ),
    ensures
        splice == Act::Splice(deltas),
        reload is Reload <==> seen.rows is Some,
        reload is Reload || reload is Nothing,
        sizes is Nothing && chosen is Nothing,
        seen.rows is None || seen.rows == Some(0usize) ==> end is Nothing && to is Nothing,
        seen.rows matches Some(n) ==> n > 0 ==> {
            &&& end == (Act::ScrollTo { row: (n - 1) as usize, bottom: true })
            &&& row < n ==> to == (Act::ScrollTo { row, bottom: false })
            &&& row >= n ==> to == (Act::ScrollTo { row: (n - 1) as usize, bottom: false })
        },
{
    match seen.rows {
        Some(n) => {},
        None => {},
    }
}

/// A proposed side is taken by everything that stretches; an unproposed one is the piece's own: the fit
/// of a view, 320 points of a menu, 180 of a slider, field or bar, nothing of a divider, list or tree.
pub proof fn law_proposed_sides_are_taken(
    width: Option<Scalar>,
    height: Option<Scalar>,
    fit: Size,
    menu: Scalar,
    n: u32,
    foreign: Size,
    rows: Size,
    slider: Size,
    field: Size,
    line: Size,
    bar: Size,
    list: Size,
    tree: Size,
)
    requires
        call_ensures(
            measure,
            (Kind::Extension(n), Proposal { width, height }, fit, menu, false),
            foreign,
        ),
        call_ensures(
            measure,
            (Kind::Builtin(Builtin::NavMenu), Proposal { width, height }, fit, menu, false),
            rows,
        ),
        call_ensures(
            measure,
            (Kind::Builtin(Builtin::Slider), Proposal { width, height }, fit, menu, false),
            slider,
        ),
        call_ensures(
            measure,
            (Kind::Builtin(Builtin::TextField), Proposal { width, height }, fit, menu, false),
            field,
        ),
        call_ensures(
            measure,
            (Kind::Builtin(Builtin::Divider), Proposal { width, height }, fit, menu, false),
            line,
        ),
        call_ensures(
            measure,
            (Kind::Builtin(Builtin::Progress), Proposal { width, height }, fit, menu, false),
            bar,
        ),
        call_ensures(
            measure,
            (Kind::Builtin(Builtin::List), Proposal { width, height }, fit, menu, false),
            list,
        ),
        call_ensures(
            measure,
            (Kind::Builtin(Builtin::Tree), Proposal { width, height }, fit, menu, false),
            tree,
        ),
    ensures
        width matches Some(w) ==> foreign.width == w && rows.width == w && slider.width == w
            && field.width == w && line.width == w && bar.width == w && list.width == w && tree.width
            == w,
        height matches Some(h) ==> foreign.height == h && rows.height == h && list.height == h
            && tree.height == h,
        width is None ==> foreign.width == fit.width && rows.width.0 == 0x4074_0000_0000_0000
            && slider.width.0 == 0x4066_8000_0000_0000 && field.width == slider.width && bar.width
            == slider.width && line.width.0 == 0 && list.width.0 == 0 && tree.width.0 == 0,
        height is None ==> foreign.height == fit.height && rows.height == menu && list.height.0 == 0
            && tree.height.0 == 0,
        line.height.0 == ONE_BITS,
        bar.height.0 == 0x4010_0000_0000_0000,
{
}

/// A label, a button and a switch are as large as what they show, a label no wider than it was
/// proposed; a slider and a field are as tall as they fit, and at least as tall as a finger needs; a
/// spinner is square.
pub proof fn law_controls_are_as_large_as_they_fit(
    p: Proposal,
    fit: Size,
    menu: Scalar,
    spins: bool,
    label: Size,
    button: Size,
    toggle: Size,
    slider: Size,
    field: Size,
    spinner: Size,
)
    requires
        call_ensures(measure, (Kind::Builtin(Builtin::Label), p, fit, menu, spins), label),
        call_ensures(measure, (Kind::Builtin(Builtin::Button), p, fit, menu, spins), button),
        call_ensures(measure, (Kind::Builtin(Builtin::Toggle), p, fit, menu, spins), toggle),
        call_ensures(measure, (Kind::Builtin(Builtin::Slider), p, fit, menu, spins), slider),
        call_ensures(measure, (Kind::Builtin(Builtin::TextField), p, fit, menu, spins), field),
        call_ensures(measure, (Kind::Builtin(Builtin::Progress), p, fit, menu, true), spinner),
    ensures
        button == fit,
        toggle == fit,
        label.height == fit.height,
        p.width is None && fit.width.lt_spec(Scalar(UNBOUNDED)) ==> label.width == fit.width,
        p.width matches Some(w) ==> fit.width.lt_spec(w) ==> label.width == fit.width,
        p.width matches Some(w) ==> w.lt_spec(fit.width) ==> label.width == w,
        Scalar(SLIDER_HEIGHT).lt_spec(fit.height) ==> slider.height == fit.height,
        fit.height.lt_spec(Scalar(SLIDER_HEIGHT)) ==> slider.height == Scalar(SLIDER_HEIGHT),
        Scalar(FIELD_HEIGHT).lt_spec(fit.height) ==> field.height == fit.height,
        fit.height.lt_spec(Scalar(FIELD_HEIGHT)) ==> field.height == Scalar(FIELD_HEIGHT),
        SLIDER_HEIGHT == 0x403f_0000_0000_0000,
        FIELD_HEIGHT == 0x4041_0000_0000_0000,
        spinner.width == spinner.height,
        spinner.width.0 == 0x4034_0000_0000_0000,
{
}

/// What is asked before a size is known: nothing of what has a size of its own, a label's fit in the
/// width proposed to it, any other control's without bounds, and a renderer's own answer where it
/// measures.
pub proof fn law_views_are_asked_for_their_fit(
    b: Builtin,
    n: u32,
    p: Proposal,
    measures: bool,
    r: Ask,
    foreign: Ask,
)
    requires
        call_ensures(measure_ask, (Kind::Builtin(b), p, measures), r),
        call_ensures(measure_ask, (Kind::Extension(n), p, measures), foreign),
    ensures
        b == Builtin::NavMenu || b == Builtin::Divider || b == Builtin::Progress || b == Builtin::List || b
            == Builtin::Tree <==> r is Nothing,
        b == Builtin::Label ==> (r matches Ask::Fit(room) && room.height == Scalar(UNBOUNDED) && (
        p.width matches Some(w) ==> room.width == w) && (p.width is None ==> room.width == Scalar(
            UNBOUNDED,
        ))),
        b == Builtin::Button || b == Builtin::Toggle || b == Builtin::Slider || b == Builtin::TextField
            ==> r == Ask::Fit(Size { width: Scalar(UNBOUNDED), height: Scalar(UNBOUNDED) }),
        b == Builtin::Picker || b == Builtin::TextArea <==> r == Ask::Delegated(b),
        measures ==> foreign is Extension,
        !measures ==> foreign == Ask::Fit(
            Size { width: Scalar(UNBOUNDED), height: Scalar(UNBOUNDED) },
        ),
        UNBOUNDED == 0x412e_8480_0000_0000,
{
}

/// Two kinds have one key only where they are one kind.
pub proof fn law_registered_keys_are_their_kinds(a: Kind, b: Kind, ka: u64, kb: u64)
    requires
        call_ensures(registry_key, (a,), ka),
        call_ensures(registry_key, (b,), kb),
    ensures
        ka == kb <==> a == b,
{
}

} // verus!
