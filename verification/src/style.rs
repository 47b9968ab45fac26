//! Small rules of appearance and behavior: buttons, surfaces, labels, pointers, accessibility,
//! frames, focus and capture.

use crate::draw::Affine;
use crate::types::{Color, Scalar, Size, ONE_BITS};
use std::collections::HashMap;
use vstd::prelude::*;

verus! {

broadcast use vstd::std_specs::hash::group_hash_axioms;

#[derive(Clone, Copy, PartialEq, Eq, Structural, Debug)]
pub enum ButtonStyle {
    Automatic,
    Compact,
    Bordered,
    Prominent,
    Tinted(Color),
}

/// How a button is configured. A configured button carries its title in the configuration, a
/// plain one as its state title.
#[derive(Clone, Copy, PartialEq, Eq, Structural, Debug)]
pub enum ButtonLook {
    Plain,
    Bordered,
    BorderedProminent,
    /// Filled with the tint, its title in the color that reads on it.
    Filled(Color),
}

pub open spec fn look_of(style: ButtonStyle) -> ButtonLook {
    match style {
        ButtonStyle::Automatic => ButtonLook::Plain,
        ButtonStyle::Compact => ButtonLook::Plain,
        ButtonStyle::Bordered => ButtonLook::Bordered,
        ButtonStyle::Prominent => ButtonLook::BorderedProminent,
        ButtonStyle::Tinted(c) => ButtonLook::Filled(c),
    }
}

/// The look of a style. The plain system button hugs its title already, so compact is automatic.
pub fn button_look(style: ButtonStyle) -> (r: ButtonLook)
    ensures
        r == look_of(style),
{
    match style {
        ButtonStyle::Automatic => ButtonLook::Plain,
        ButtonStyle::Compact => ButtonLook::Plain,
        ButtonStyle::Bordered => ButtonLook::Bordered,
        ButtonStyle::Prominent => ButtonLook::BorderedProminent,
        ButtonStyle::Tinted(c) => ButtonLook::Filled(c),
    }
}

/// A container's decoration.
#[derive(Clone, Copy, PartialEq, Eq, Structural, Debug)]
pub struct ContainerProps {
    pub section_card: bool,
    pub background: Option<Color>,
    pub corner_radius: Scalar,
    pub clips: bool,
}

/// The ground a container draws.
#[derive(Clone, Copy, PartialEq, Eq, Structural, Debug)]
pub enum Surface {
    /// None.
    Bare,
    /// The card half of the grouped pair, rounded and clipped.
    Card { radius: Scalar },
    /// A fill, a radius, and a clip whenever asked for or rounded.
    Styled { background: Option<Color>, radius: Scalar, masks: bool },
}

pub open spec fn surface_of(props: Option<ContainerProps>) -> Surface {
    match props {
        None => Surface::Bare,
        Some(p) => {
            let rounded = Scalar(0).lt_spec(p.corner_radius);
            if p.section_card {
                Surface::Card { radius: p.corner_radius }
            } else if p.background is Some || rounded || p.clips {
                Surface::Styled {
                    background: p.background,
                    radius: p.corner_radius,
                    masks: p.clips || rounded,
                }
            } else {
                Surface::Bare
            }
        },
    }
}

/// The surface of a container; props of another kind leave it bare.
pub fn surface(props: Option<ContainerProps>) -> (r: Surface)
    ensures
        r == surface_of(props),
{
    match props {
        None => Surface::Bare,
        Some(p) => {
            let rounded = p.corner_radius.is_positive();
            if p.section_card {
                Surface::Card { radius: p.corner_radius }
            } else if p.background.is_some() || rounded || p.clips {
                Surface::Styled {
                    background: p.background,
                    radius: p.corner_radius,
                    masks: p.clips || rounded,
                }
            } else {
                Surface::Bare
            }
        },
    }
}

#[derive(Clone, Copy, PartialEq, Eq, Structural, Debug)]
pub enum TextRole {
    Primary,
    Secondary,
}

#[derive(Clone, Copy, PartialEq, Eq, Structural, Debug)]
pub enum LabelColor {
    Explicit(Color),
    /// The adaptive secondary color.
    Secondary,
    /// The adaptive default.
    Unset,
}

pub open spec fn color_of(color: Option<Color>, role: TextRole) -> LabelColor {
    match color {
        Some(c) => LabelColor::Explicit(c),
        None => if role == TextRole::Secondary {
            LabelColor::Secondary
        } else {
            LabelColor::Unset
        },
    }
}

/// A label's color: an explicit one wins, otherwise the role chooses an adaptive one.
pub fn label_color(color: Option<Color>, role: TextRole) -> (r: LabelColor)
    ensures
        r == color_of(color, role),
{
    match color {
        Some(c) => LabelColor::Explicit(c),
        None => match role {
            TextRole::Secondary => LabelColor::Secondary,
            TextRole::Primary => LabelColor::Unset,
        },
    }
}

#[derive(Clone, Copy, PartialEq, Eq, Structural, Debug)]
pub enum ContentMode {
    Fit,
    Fill,
    Stretch,
}

#[derive(Clone, Copy, PartialEq, Eq, Structural, Debug)]
pub enum Scaling {
    AspectFit,
    AspectFill,
    ScaleToFill,
}

pub open spec fn scaling_of(mode: ContentMode) -> Scaling {
    match mode {
        ContentMode::Fit => Scaling::AspectFit,
        ContentMode::Fill => Scaling::AspectFill,
        ContentMode::Stretch => Scaling::ScaleToFill,
    }
}

pub fn image_scaling(mode: ContentMode) -> (r: Scaling)
    ensures
        r == scaling_of(mode),
{
    match mode {
        ContentMode::Fit => Scaling::AspectFit,
        ContentMode::Fill => Scaling::AspectFill,
        ContentMode::Stretch => Scaling::ScaleToFill,
    }
}

#[derive(Clone, Copy, PartialEq, Eq, Structural, Debug)]
pub enum Cursor {
    Default,
    Hidden,
    Text,
    VerticalText,
    Pointer,
    ContextMenu,
    Copy,
    Alias,
    Grab,
    Grabbing,
    Move,
    Other,
}

/// The pointer effect nearest a cursor.
#[derive(Clone, Copy, PartialEq, Eq, Structural, Debug)]
pub enum PointerStyle {
    /// The system's own.
    System,
    Hidden,
    /// A vertical beam as tall as the region.
    BeamVertical,
    /// A horizontal beam as wide as the region.
    BeamHorizontal,
    /// The pointer morphs onto the view.
    Highlight,
    /// The view lifts under the pointer.
    Lift,
}

/// The pointer style of a cursor over a region; an effect needs the view it lies on.
pub fn style_for(cursor: Cursor, has_view: bool) -> (r: PointerStyle)
    ensures
        r == (match cursor {
            Cursor::Hidden => PointerStyle::Hidden,
            Cursor::Text => PointerStyle::BeamVertical,
            Cursor::VerticalText => PointerStyle::BeamHorizontal,
            Cursor::Pointer | Cursor::ContextMenu | Cursor::Copy | Cursor::Alias | Cursor::Grab
            | Cursor::Grabbing => if has_view {
                PointerStyle::Highlight
            } else {
                PointerStyle::System
            },
            Cursor::Move => if has_view {
                PointerStyle::Lift
            } else {
                PointerStyle::System
            },
            _ => PointerStyle::System,
        }),
{
    match cursor {
        Cursor::Hidden => PointerStyle::Hidden,
        Cursor::Text => PointerStyle::BeamVertical,
        Cursor::VerticalText => PointerStyle::BeamHorizontal,
        Cursor::Pointer | Cursor::ContextMenu | Cursor::Copy | Cursor::Alias | Cursor::Grab
        | Cursor::Grabbing => if has_view {
            PointerStyle::Highlight
        } else {
            PointerStyle::System
        },
        Cursor::Move => if has_view {
            PointerStyle::Lift
        } else {
            PointerStyle::System
        },
        _ => PointerStyle::System,
    }
}

/// What setting a cursor asks for.
#[derive(Clone, Copy, PartialEq, Eq, Structural, Debug)]
pub enum PointerChange {
    Nothing,
    /// Take the view's interaction away.
    Detach,
    /// Ask the interaction in place for its style again.
    Invalidate,
    /// Give the view an interaction.
    Attach,
}

/// Set a view's cursor: one interaction per view that carries one.
pub fn set_cursor(pointers: &mut HashMap<usize, Cursor>, h: usize, cursor: Cursor) -> (r:
    PointerChange)
    ensures
        cursor == Cursor::Default ==> final(pointers)@ == old(pointers)@.remove(h) && r == (if old(
            pointers,
        )@.dom().contains(h) {
            PointerChange::Detach
        } else {
            PointerChange::Nothing
        }),
        cursor != Cursor::Default ==> final(pointers)@ == old(pointers)@.insert(h, cursor) && r
            == (if old(pointers)@.dom().contains(h) {
            PointerChange::Invalidate
        } else {
            PointerChange::Attach
        }),
{
    if cursor == Cursor::Default {
        return match pointers.remove(&h) {
            Some(_) => PointerChange::Detach,
            None => PointerChange::Nothing,
        };
    }
    let known = pointers.contains_key(&h);
    pointers.insert(h, cursor);
    if known {
        PointerChange::Invalidate
    } else {
        PointerChange::Attach
    }
}

#[derive(Clone, Copy, PartialEq, Eq, Structural, Debug)]
pub enum Role {
    Plain,
    Button,
    Toggle,
    Slider,
    Heading(u8),
    Image,
    Other,
}

#[derive(Clone, Copy, PartialEq, Eq, Structural, Debug)]
pub enum Trait {
    Button,
    Adjustable,
    Header,
    Image,
}

/// The trait an explicit role adds. The platform has none for a toggle or a meter.
pub open spec fn trait_of(role: Role) -> Option<Trait> {
    match role {
        Role::Button => Some(Trait::Button),
        Role::Slider => Some(Trait::Adjustable),
        Role::Heading(_) => Some(Trait::Header),
        Role::Image => Some(Trait::Image),
        _ => None,
    }
}

pub fn ui_traits(role: Role) -> (r: Option<Trait>)
    ensures
        r == trait_of(role),
{
    match role {
        Role::Button => Some(Trait::Button),
        Role::Slider => Some(Trait::Adjustable),
        Role::Heading(_) => Some(Trait::Header),
        Role::Image => Some(Trait::Image),
        _ => None,
    }
}

/// The traits a view answers with.
#[derive(Clone, Copy, PartialEq, Eq, Structural, Debug)]
pub struct TraitBits {
    pub button: bool,
    pub adjustable: bool,
    pub header: bool,
    pub image: bool,
}

pub open spec fn role_from(t: TraitBits) -> Role {
    if t.adjustable {
        Role::Slider
    } else if t.header {
        Role::Heading(0)
    } else if t.image {
        Role::Image
    } else if t.button {
        Role::Button
    } else {
        Role::Plain
    }
}

/// The role a view's traits read as.
pub fn day_role_from_traits(t: TraitBits) -> (r: Role)
    ensures
        r == role_from(t),
{
    if t.adjustable {
        Role::Slider
    } else if t.header {
        Role::Heading(0)
    } else if t.image {
        Role::Image
    } else if t.button {
        Role::Button
    } else {
        Role::Plain
    }
}

/// The identifier a view reports: an empty one is none.
pub fn read_identifier(ident: Option<String>) -> (r: Option<String>)
    ensures
        r == (match ident {
            Some(s) if s@.len() > 0 => Some(s),
            _ => None,
        }),
{
    match ident {
        Some(s) => {
            if s.as_str().unicode_len() > 0 {
                Some(s)
            } else {
                None
            }
        },
        None => None,
    }
}

/// How a view takes a frame.
#[derive(Clone, Copy, PartialEq, Eq, Structural, Debug)]
pub enum FrameMode {
    /// The platform owns it.
    Ignore,
    Frame,
    /// The view is transformed, so its frame means nothing: bounds and center are set.
    BoundsAndCenter,
}

pub open spec fn is_identity(t: Affine) -> bool {
    t.a.same_spec(Scalar(ONE_BITS)) && t.b.same_spec(Scalar(0)) && t.c.same_spec(Scalar(0))
        && t.d.same_spec(Scalar(ONE_BITS)) && t.tx.same_spec(Scalar(0)) && t.ty.same_spec(Scalar(0))
}

/// How a view is framed: a page's content is pinned by its page.
pub fn frame_mode(page_content: bool, t: Affine) -> (r: FrameMode)
    ensures
        r == (if page_content {
            FrameMode::Ignore
        } else if is_identity(t) {
            FrameMode::Frame
        } else {
            FrameMode::BoundsAndCenter
        }),
{
    if page_content {
        return FrameMode::Ignore;
    }
    if t.a.same(Scalar(ONE_BITS)) && t.b.same(Scalar(0)) && t.c.same(Scalar(0)) && t.d.same(
        Scalar(ONE_BITS),
    ) && t.tx.same(Scalar(0)) && t.ty.same(Scalar(0)) {
        FrameMode::Frame
    } else {
        FrameMode::BoundsAndCenter
    }
}

#[derive(Clone, Copy, PartialEq, Eq, Structural, Debug)]
pub enum FocusAct {
    Nothing,
    Resign,
    /// Ask for the keyboard; [`focus_step`] takes the answer at [`FocusStage::Asked`].
    Become,
    /// Come back on the next turn.
    NextTurn,
}

/// Focus is the keyboard: it is resigned only by the view that owns it.
pub fn focus(focused: bool, owns: bool) -> (r: FocusAct)
    ensures
        r == (if focused {
            FocusAct::Become
        } else if owns {
            FocusAct::Resign
        } else {
            FocusAct::Nothing
        }),
{
    if focused {
        FocusAct::Become
    } else if owns {
        FocusAct::Resign
    } else {
        FocusAct::Nothing
    }
}

/// How far asking for the keyboard has come.
#[derive(Clone, Copy, PartialEq, Eq, Structural, Debug)]
pub enum FocusStage {
    Asked,
    /// Refused once, which can pass: the outgoing responder is still letting go.
    Refused,
    AskedAgain,
    Settled,
}

#[derive(Clone, Copy, PartialEq, Eq, Structural, Debug)]
pub enum FocusEvent {
    /// The view answered; `false` is a refusal.
    Answered(bool),
    /// The next turn has come, and the view owns the keyboard or not.
    Turn { owns: bool },
}

/// What follows at each stage of asking for the keyboard.
pub open spec fn focus_next(stage: FocusStage, ev: FocusEvent) -> (FocusStage, FocusAct) {
    match (stage, ev) {
        (FocusStage::Asked, FocusEvent::Answered(false)) => (
            FocusStage::Refused,
            FocusAct::NextTurn,
        ),
        (FocusStage::Refused, FocusEvent::Turn { owns: false }) => (
            FocusStage::AskedAgain,
            FocusAct::Become,
        ),
        _ => (FocusStage::Settled, FocusAct::Nothing),
    }
}

/// A refusal is tried again once, on the next turn, unless the view owns the keyboard by then. A
/// second refusal stands.
pub fn focus_step(stage: FocusStage, ev: FocusEvent) -> (r: (FocusStage, FocusAct))
    ensures
        r == focus_next(stage, ev),
{
    match (stage, ev) {
        (FocusStage::Asked, FocusEvent::Answered(false)) => (
            FocusStage::Refused,
            FocusAct::NextTurn,
        ),
        (FocusStage::Refused, FocusEvent::Turn { owns: false }) => (
            FocusStage::AskedAgain,
            FocusAct::Become,
        ),
        _ => (FocusStage::Settled, FocusAct::Nothing),
    }
}

/// How often a view is asked again to take the keyboard over these events.
pub open spec fn focus_asks(stage: FocusStage, events: Seq<FocusEvent>) -> nat
    decreases events.len(),
{
    if events.len() == 0 {
        0
    } else {
        let (next, act) = focus_next(stage, events[0]);
        focus_asks(next, events.skip(1)) + if act == FocusAct::Become {
            1nat
        } else {
            0nat
        }
    }
}

/// What holds a label's text.
#[derive(Clone, Copy, PartialEq, Eq, Structural, Debug)]
pub enum Backing {
    TextView,
    Label,
    Other,
}

#[derive(Clone, Copy, PartialEq, Eq, Structural, Debug)]
pub enum Selectable {
    Nothing,
    /// Flip the text view's flag in place.
    Flip(bool),
    /// Rebuild the label as a read-only text view, in its place.
    Swap,
}

/// Make a label selectable or not. A plain label is unselectable already.
pub fn set_selectable(backing: Backing, selectable: bool) -> (r: Selectable)
    ensures
        r == (match backing {
            Backing::TextView => Selectable::Flip(selectable),
            Backing::Label => if selectable {
                Selectable::Swap
            } else {
                Selectable::Nothing
            },
            Backing::Other => Selectable::Nothing,
        }),
{
    match backing {
        Backing::TextView => Selectable::Flip(selectable),
        Backing::Label => if selectable {
            Selectable::Swap
        } else {
            Selectable::Nothing
        },
        Backing::Other => Selectable::Nothing,
    }
}

#[derive(Clone, Copy, PartialEq, Eq, Structural, Debug)]
pub enum SnapshotError {
    NoWindow,
    NotInWindow,
    ZeroSize,
    Encode,
}

impl SnapshotError {
    pub fn message(self) -> (r: &'static str)
        ensures
            r@ == (match self {
                SnapshotError::NoWindow => "no window to capture"@,
                SnapshotError::NotInWindow => "view is not in a window"@,
                SnapshotError::ZeroSize => "zero-size window"@,
                SnapshotError::Encode => "png encode failed"@,
            }),
    {
        match self {
            SnapshotError::NoWindow => "no window to capture",
            SnapshotError::NotInWindow => "view is not in a window",
            SnapshotError::ZeroSize => "zero-size window",
            SnapshotError::Encode => "png encode failed",
        }
    }
}

/// Numerically zero or less.
pub open spec fn not_above_zero(s: Scalar) -> bool {
    s.is_number() && s.order() <= 0
}

fn at_most_zero(s: Scalar) -> (r: bool)
    ensures
        r == not_above_zero(s),
{
    s.less(Scalar(0)) || s.same(Scalar(0))
}

/// Whether a view can be captured: a view outside any window, or without area, is refused.
pub fn snapshot_view(in_window: bool, size: Size) -> (r: Result<(), SnapshotError>)
    ensures
        match r {
            Err(e) => (!in_window && e == SnapshotError::NotInWindow) || (in_window && (
            not_above_zero(size.width) || not_above_zero(size.height)) && e
                == SnapshotError::ZeroSize),
            Ok(_) => in_window && !not_above_zero(size.width) && !not_above_zero(size.height),
        },
{
    if !in_window {
        return Err(SnapshotError::NotInWindow);
    }
    if at_most_zero(size.width) || at_most_zero(size.height) {
        return Err(SnapshotError::ZeroSize);
    }
    Ok(())
}

/// The badge an app asks for.
#[derive(Debug)]
pub enum AppBadge {
    Cleared,
    Count(u32),
    Text(String),
    Dot,
}

/// The number to put on the icon, zero for none. Badges are numbers only: for text or a dot no
/// number is invented, they clear it.
pub fn badge_count(badge: &AppBadge) -> (r: u32)
    ensures
        r == (match badge {
            AppBadge::Count(n) => *n,
            AppBadge::Cleared => 0u32,
            AppBadge::Text(_) => 0u32,
            AppBadge::Dot => 0u32,
        }),
{
    match badge {
        AppBadge::Count(n) => *n,
        _ => 0,
    }
}

/// The screen edges whose system gestures are deferred, in reading terms.
#[derive(Clone, Copy, PartialEq, Eq, Structural, Debug)]
pub struct Edges {
    pub top: bool,
    pub bottom: bool,
    pub leading: bool,
    pub trailing: bool,
}

/// The same in screen terms.
#[derive(Clone, Copy, PartialEq, Eq, Structural, Debug)]
pub struct RectEdges {
    pub top: bool,
    pub bottom: bool,
    pub left: bool,
    pub right: bool,
}

pub fn rect_edges(e: Edges) -> (r: RectEdges)
    ensures
        r == (RectEdges { top: e.top, bottom: e.bottom, left: e.leading, right: e.trailing }),
{
    RectEdges { top: e.top, bottom: e.bottom, left: e.leading, right: e.trailing }
}

#[derive(Clone, Copy, PartialEq, Eq, Structural, Debug)]
pub enum InterfaceStyle {
    Unspecified,
    Light,
    Dark,
}

/// The style an appearance override puts on the window.
pub open spec fn appearance_spec(dark: Option<bool>) -> InterfaceStyle {
    match dark {
        Some(true) => InterfaceStyle::Dark,
        Some(false) => InterfaceStyle::Light,
        None => InterfaceStyle::Unspecified,
    }
}

pub fn appearance_style(dark: Option<bool>) -> (r: InterfaceStyle)
    ensures
        r == appearance_spec(dark),
{
    match dark {
        Some(true) => InterfaceStyle::Dark,
        Some(false) => InterfaceStyle::Light,
        None => InterfaceStyle::Unspecified,
    }
}

/// The appearance a launch theme forces: `dark` or `light`, nothing else.
pub open spec fn theme_spec(theme: Option<String>) -> Option<bool> {
    match theme {
        Some(t) => if t@ == "dark"@ {
            Some(true)
        } else if t@ == "light"@ {
            Some(false)
        } else {
            None
        },
        None => None,
    }
}

pub fn theme_override(theme: &Option<String>) -> (r: Option<bool>)
    ensures
        r == theme_spec(*theme),
{
    match theme {
        Some(t) => {
            if *t == "dark".to_string() {
                Some(true)
            } else if *t == "light".to_string() {
                Some(false)
            } else {
                None
            }
        },
        None => None,
    }
}

/// Whether the app is dark: a launch theme wins, then the window's own override, then the system.
pub open spec fn dark_spec(
    theme: Option<String>,
    window: InterfaceStyle,
    ambient: InterfaceStyle,
) -> bool {
    match theme_spec(theme) {
        Some(dark) => dark,
        None => if window != InterfaceStyle::Unspecified {
            window == InterfaceStyle::Dark
        } else {
            ambient == InterfaceStyle::Dark
        },
    }
}

pub fn dark_mode(theme: &Option<String>, window: InterfaceStyle, ambient: InterfaceStyle) -> (r:
    bool)
    ensures
        r == dark_spec(*theme, window, ambient),
{
    match theme_override(theme) {
        Some(dark) => dark,
        None => {
            if window != InterfaceStyle::Unspecified {
                window == InterfaceStyle::Dark
            } else {
                ambient == InterfaceStyle::Dark
            }
        },
    }
}

proof fn lemma_settled_focus_asks_no_more(stage: FocusStage, events: Seq<FocusEvent>)
    requires
        stage == FocusStage::Settled || stage == FocusStage::AskedAgain,
    ensures
        focus_asks(stage, events) == 0,
    decreases events.len(),
{
    if events.len() > 0 {
        lemma_settled_focus_asks_no_more(FocusStage::Settled, events.skip(1));
    }
}

/// Whatever happens, a view that was asked to take the keyboard is asked again at most once: when
/// it refused, and on the next turn still does not own it.
pub proof fn law_focus_is_asked_again_once(events: Seq<FocusEvent>)
    ensures
        focus_asks(FocusStage::Asked, events) == (if events.len() >= 2 && events[0]
            == FocusEvent::Answered(false) && events[1] == (FocusEvent::Turn { owns: false }) {
            1nat
        } else {
            0nat
        }),
{
    reveal_with_fuel(focus_asks, 3);
    if events.len() > 0 {
        let rest = events.skip(1);
        if events[0] == FocusEvent::Answered(false) {
            if rest.len() > 0 {
                assert(rest[0] == events[1]);
                lemma_settled_focus_asks_no_more(
                    focus_next(FocusStage::Refused, rest[0]).0,
                    rest.skip(1),
                );
            }
        } else {
            lemma_settled_focus_asks_no_more(FocusStage::Settled, rest);
        }
    }
}

/// An override is read back the moment it is set, whatever the system still says; lifting it gives
/// the system's answer back.
pub proof fn law_appearance_override_reads_back(dark: bool, ambient: InterfaceStyle)
    ensures
        dark_spec(None, appearance_spec(Some(dark)), ambient) == dark,
        dark_spec(None, appearance_spec(None), ambient) == (ambient == InterfaceStyle::Dark),
{
}

/// One trait, as the bits a view with it and no other answers.
pub open spec fn bits_of(t: Option<Trait>) -> TraitBits {
    TraitBits {
        button: t == Some(Trait::Button),
        adjustable: t == Some(Trait::Adjustable),
        header: t == Some(Trait::Header),
        image: t == Some(Trait::Image),
    }
}

/// A role reads back as itself through its trait. A heading loses its level, and a role without a
/// trait reads as none.
pub proof fn law_roles_read_back(role: Role)
    ensures
        role_from(bits_of(trait_of(role))) == (match role {
            Role::Heading(_) => Role::Heading(0),
            Role::Toggle => Role::Plain,
            Role::Other => Role::Plain,
            _ => role,
        }),
{
}

/// A button looks as its style says, compact as automatic, and a tint fills it with its own color.
pub proof fn law_button_looks_as_its_style(style: ButtonStyle, r: ButtonLook)
    requires
        call_ensures(button_look, (style,), r),
    ensures
        r == ButtonLook::Plain <==> style == ButtonStyle::Automatic || style == ButtonStyle::Compact,
        r == ButtonLook::Bordered <==> style == ButtonStyle::Bordered,
        r == ButtonLook::BorderedProminent <==> style == ButtonStyle::Prominent,
        style matches ButtonStyle::Tinted(c) ==> r == ButtonLook::Filled(c),
{
}

/// A container draws exactly what it was given: a card as a card, a fill with its own color and
/// radius, clipped wherever it is rounded or asked for; and without any of these nothing.
pub proof fn law_surface_draws_what_was_asked(p: ContainerProps, r: Surface, none: Surface)
    requires
        call_ensures(surface, (Some(p),), r),
        call_ensures(surface, (None::<ContainerProps>,), none),
    ensures
        none is Bare,
        p.section_card <==> r is Card,
        r matches Surface::Card { radius } ==> radius == p.corner_radius,
        r matches Surface::Styled { background, radius, masks } ==> background == p.background && radius
            == p.corner_radius && (masks <==> p.clips || Scalar(0).lt_spec(p.corner_radius)),
        r is Bare <==> !p.section_card && p.background is None && !p.clips && !Scalar(0).lt_spec(
            p.corner_radius,
        ),
{
}

/// An explicit color is the label's; without one only a secondary label is set apart.
pub proof fn law_explicit_color_wins(color: Color, role: TextRole, given: LabelColor, left: LabelColor)
    requires
        call_ensures(label_color, (Some(color), role), given),
        call_ensures(label_color, (None::<Color>, role), left),
    ensures
        given == LabelColor::Explicit(color),
        left == LabelColor::Secondary <==> role == TextRole::Secondary,
        left == LabelColor::Unset <==> role == TextRole::Primary,
{
}

/// Only a stretched image loses its proportions, and only a filled one overflows.
pub proof fn law_image_scales_as_asked(mode: ContentMode, r: Scaling)
    requires
        call_ensures(image_scaling, (mode,), r),
    ensures
        r == Scaling::AspectFit <==> mode == ContentMode::Fit,
        r == Scaling::AspectFill <==> mode == ContentMode::Fill,
        r == Scaling::ScaleToFill <==> mode == ContentMode::Stretch,
{
}

/// The pointer is hidden, or a beam along the text, where the cursor says so, view or no view. An
/// effect on a view needs one, and without it leaves the system's own.
pub proof fn law_pointer_follows_its_cursor(cursor: Cursor, with: PointerStyle, without: PointerStyle)
    requires
        call_ensures(style_for, (cursor, true), with),
        call_ensures(style_for, (cursor, false), without),
    ensures
        with == PointerStyle::Hidden <==> cursor == Cursor::Hidden,
        with == PointerStyle::BeamVertical <==> cursor == Cursor::Text,
        with == PointerStyle::BeamHorizontal <==> cursor == Cursor::VerticalText,
        with == PointerStyle::Lift <==> cursor == Cursor::Move,
        with == PointerStyle::System <==> cursor == Cursor::Default || cursor == Cursor::Other,
        with == PointerStyle::Lift || with == PointerStyle::Highlight ==> without == PointerStyle::System,
        with != PointerStyle::Lift && with != PointerStyle::Highlight ==> without == with,
{
}

/// A view carries the cursor last set on it, the default as none, and no other view's changes. The
/// first is attached, the next one asked of the interaction in place, and the default detaches it.
pub proof fn law_cursor_set_is_the_views_own(
    first: &mut HashMap<usize, Cursor>,
    second: &mut HashMap<usize, Cursor>,
    third: &mut HashMap<usize, Cursor>,
    h: usize,
    other: usize,
    a: Cursor,
    b: Cursor,
    attached: PointerChange,
    changed: PointerChange,
    detached: PointerChange,
)
    requires
        !old(first)@.dom().contains(h),
        a != Cursor::Default && b != Cursor::Default,
        other != h,
        call_ensures(set_cursor, (first, h, a), attached),
        *final(first) == *old(second),
        call_ensures(set_cursor, (second, h, b), changed),
        *final(second) == *old(third),
        call_ensures(set_cursor, (third, h, Cursor::Default), detached),
    ensures
        attached == PointerChange::Attach && final(first)@.dom().contains(h) && final(first)@[h] == a,
        changed == PointerChange::Invalidate && final(second)@.dom().contains(h) && final(second)@[h]
            == b,
        detached == PointerChange::Detach && !final(third)@.dom().contains(h),
        final(third)@.dom().contains(other) <==> old(first)@.dom().contains(other),
        old(first)@.dom().contains(other) ==> final(third)@[other] == old(first)@[other],
{
}

/// The default cursor on a view that carries none asks nothing.
pub proof fn law_default_cursor_is_none(pointers: &mut HashMap<usize, Cursor>, h: usize, r: PointerChange)
    requires
        !old(pointers)@.dom().contains(h),
        call_ensures(set_cursor, (pointers, h, Cursor::Default), r),
    ensures
        r == PointerChange::Nothing,
        final(pointers)@ == old(pointers)@,
{
    assert(final(pointers)@ =~= old(pointers)@);
}

/// A view given the one trait of its role reads as that role: a slider, a heading, an image or a button.
/// No other role has a trait, and a view without any is plain.
pub proof fn law_trait_given_reads_as_its_role(role: Role, t: Option<Trait>, bits: TraitBits, read: Role)
    requires
        call_ensures(ui_traits, (role,), t),
        bits.button <==> t == Some(Trait::Button),
        bits.adjustable <==> t == Some(Trait::Adjustable),
        bits.header <==> t == Some(Trait::Header),
        bits.image <==> t == Some(Trait::Image),
        call_ensures(day_role_from_traits, (bits,), read),
    ensures
        t == Some(Trait::Button) <==> role == Role::Button,
        t == Some(Trait::Adjustable) <==> role == Role::Slider,
        t == Some(Trait::Header) <==> role is Heading,
        t == Some(Trait::Image) <==> role == Role::Image,
        read == Role::Button <==> role == Role::Button,
        read == Role::Slider <==> role == Role::Slider,
        read is Heading <==> role is Heading,
        read == Role::Image <==> role == Role::Image,
        t is None ==> read == Role::Plain,
{
}

/// Of several traits the adjustable one tells most, then the header, then the image.
pub proof fn law_most_telling_trait_is_read(t: TraitBits, r: Role)
    requires
        call_ensures(day_role_from_traits, (t,), r),
    ensures
        r == Role::Slider <==> t.adjustable,
        r == Role::Heading(0) <==> t.header && !t.adjustable,
        r == Role::Image <==> t.image && !t.adjustable && !t.header,
        r == Role::Button <==> t.button && !t.adjustable && !t.header && !t.image,
{
}

/// An identifier is read as it was set, and an empty one as none.
pub proof fn law_identifier_is_read_as_set(ident: String, r: Option<String>, none: Option<String>)
    requires
        call_ensures(read_identifier, (Some(ident),), r),
        call_ensures(read_identifier, (None::<String>,), none),
    ensures
        ident@.len() > 0 ==> r == Some(ident),
        ident@.len() == 0 ==> r is None,
        none is None,
{
}

/// A page's content is never framed; any other view takes its frame exactly while it is not
/// transformed.
pub proof fn law_transformed_view_takes_bounds(page: FrameMode, still: FrameMode, moved: FrameMode, t: Affine)
    requires
        call_ensures(frame_mode, (true, t), page),
        call_ensures(frame_mode, (false, t), moved),
        call_ensures(
            frame_mode,
            (
                false,
                Affine {
                    a: Scalar(0x3ff0_0000_0000_0000),
                    b: Scalar(0),
                    c: Scalar(0),
                    d: Scalar(0x3ff0_0000_0000_0000),
                    tx: Scalar(0),
                    ty: Scalar(0),
                },
            ),
            still,
        ),
    ensures
        page == FrameMode::Ignore,
        still == FrameMode::Frame,
        moved != FrameMode::Ignore,
        t.a.order() != 0x3ff0_0000_0000_0000 || t.b.order() != 0 || t.c.order() != 0 || t.d.order()
            != 0x3ff0_0000_0000_0000 || t.tx.order() != 0 || t.ty.order() != 0 ==> moved
            == FrameMode::BoundsAndCenter,
{
}

/// A view asked to take the keyboard is asked; one asked to leave it resigns only what it owns.
pub proof fn law_focus_is_the_keyboard(owns: bool, taken: FocusAct, left: FocusAct)
    requires
        call_ensures(focus, (true, owns), taken),
        call_ensures(focus, (false, owns), left),
    ensures
        taken == FocusAct::Become,
        owns ==> left == FocusAct::Resign,
        !owns ==> left == FocusAct::Nothing,
{
}

/// A refused view waits one turn, and is asked again then unless it owns the keyboard; whatever comes of
/// that, it is left alone. One that takes the keyboard at once is left alone too.
pub proof fn law_refusal_is_tried_again_on_the_next_turn(
    refused: (FocusStage, FocusAct),
    taken: (FocusStage, FocusAct),
    again: (FocusStage, FocusAct),
    owned: (FocusStage, FocusAct),
    last: (FocusStage, FocusAct),
    answer: bool,
    ev: FocusEvent,
    settled: (FocusStage, FocusAct),
)
    requires
        call_ensures(focus_step, (FocusStage::Asked, FocusEvent::Answered(false)), refused),
        call_ensures(focus_step, (FocusStage::Asked, FocusEvent::Answered(true)), taken),
        call_ensures(focus_step, (refused.0, (FocusEvent::Turn { owns: false })), again),
        call_ensures(focus_step, (refused.0, (FocusEvent::Turn { owns: true })), owned),
        call_ensures(focus_step, (again.0, FocusEvent::Answered(answer)), last),
        call_ensures(focus_step, (last.0, ev), settled),
    ensures
        refused.1 == FocusAct::NextTurn,
        taken.1 == FocusAct::Nothing && taken.0 == FocusStage::Settled,
        again.1 == FocusAct::Become,
        owned.1 == FocusAct::Nothing && owned.0 == FocusStage::Settled,
        last.1 == FocusAct::Nothing,
        settled.1 == FocusAct::Nothing,
{
}

/// A text view is made as selectable as asked, a plain label is rebuilt only to become selectable, and
/// nothing else is touched.
pub proof fn law_label_is_as_selectable_as_asked(
    on: bool,
    view: Selectable,
    label: Selectable,
    other: Selectable,
)
    requires
        call_ensures(set_selectable, (Backing::TextView, on), view),
        call_ensures(set_selectable, (Backing::Label, on), label),
        call_ensures(set_selectable, (Backing::Other, on), other),
    ensures
        view == Selectable::Flip(on),
        on ==> label == Selectable::Swap,
        !on ==> label == Selectable::Nothing,
        other == Selectable::Nothing,
{
}

/// A view with an area is captured in a window and nowhere else, and one without is refused as such.
pub proof fn law_views_with_an_area_are_captured(
    size: Size,
    outside: Result<(), SnapshotError>,
    inside: Result<(), SnapshotError>,
)
    requires
        call_ensures(snapshot_view, (false, size), outside),
        call_ensures(snapshot_view, (true, size), inside),
    ensures
        outside == Err::<(), SnapshotError>(SnapshotError::NotInWindow),
        Scalar(0).lt_spec(size.width) && Scalar(0).lt_spec(size.height) ==> inside is Ok,
        size.width.is_number() && size.width.order() <= 0 || size.height.is_number()
            && size.height.order() <= 0 ==> inside == Err::<(), SnapshotError>(SnapshotError::ZeroSize),
{
}

/// A counted badge shows its count, and every other badge none.
pub proof fn law_badge_shows_its_count(n: u32, text: String, counted: u32, worded: u32, dot: u32, none: u32)
    requires
        call_ensures(badge_count, (&AppBadge::Count(n),), counted),
        call_ensures(badge_count, (&AppBadge::Text(text),), worded),
        call_ensures(badge_count, (&AppBadge::Dot,), dot),
        call_ensures(badge_count, (&AppBadge::Cleared,), none),
    ensures
        counted == n,
        worded == 0 && dot == 0 && none == 0,
{
}

/// Each edge is deferred where it was asked for: the leading one is the left one.
pub proof fn law_edges_keep_their_sides(e: Edges, r: RectEdges)
    requires
        call_ensures(rect_edges, (e,), r),
    ensures
        r.top == e.top,
        r.bottom == e.bottom,
        r.left == e.leading,
        r.right == e.trailing,
{
}

/// An appearance set on the window is what the app reads back, unless the launch theme forces another;
/// with none set the system's counts.
pub proof fn law_appearance_set_is_read(
    dark: bool,
    ambient: InterfaceStyle,
    set: InterfaceStyle,
    lifted: InterfaceStyle,
    read: bool,
    system: bool,
)
    requires
        call_ensures(appearance_style, (Some(dark),), set),
        call_ensures(appearance_style, (None::<bool>,), lifted),
        call_ensures(dark_mode, (&None::<String>, set, ambient), read),
        call_ensures(dark_mode, (&None::<String>, lifted, ambient), system),
    ensures
        set == InterfaceStyle::Dark <==> dark,
        set == InterfaceStyle::Light <==> !dark,
        lifted == InterfaceStyle::Unspecified,
        read == dark,
        system <==> ambient == InterfaceStyle::Dark,
{
    match Some(dark) {
        Some(true) => {},
        Some(false) => {},
        None => {},
    }
}

/// The launch themes `dark` and `light` force their appearance over everything; any other theme forces
/// none.
pub proof fn law_launch_theme_wins(
    theme: String,
    window: InterfaceStyle,
    ambient: InterfaceStyle,
    forced: Option<bool>,
    r: bool,
    unforced: bool,
)
    requires
        call_ensures(theme_override, (&Some(theme),), forced),
        call_ensures(dark_mode, (&Some(theme), window, ambient), r),
        call_ensures(dark_mode, (&None::<String>, window, ambient), unforced),
    ensures
        theme@ == "dark"@ ==> forced == Some(true) && r,
        theme@ == "light"@ ==> forced == Some(false) && !r,
        theme@ != "dark"@ && theme@ != "light"@ ==> forced is None && r == unforced,
{
    reveal_strlit("dark");
    reveal_strlit("light");
    assert("dark"@.len() != "light"@.len());
}

/// A refused capture says what was missing.
pub proof fn law_refused_capture_says_why(
    a: &'static str,
    b: &'static str,
    c: &'static str,
    d: &'static str,
)
    requires
        call_ensures(SnapshotError::message, (SnapshotError::NoWindow,), a),
        call_ensures(SnapshotError::message, (SnapshotError::NotInWindow,), b),
        call_ensures(SnapshotError::message, (SnapshotError::ZeroSize,), c),
        call_ensures(SnapshotError::message, (SnapshotError::Encode,), d),
    ensures
        a@ == "no window to capture"@,
        b@ == "view is not in a window"@,
        c@ == "zero-size window"@,
        d@ == "png encode failed"@,
{
}

} // verus!
