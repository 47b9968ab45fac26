//! Fonts: how a font specification is resolved, step by step. Everything but a canvas font goes
//! through the platform's metrics, so that it follows the reader's text size.

use crate::draw::CanvasFont;
use crate::types::{lemma_magnitudes_increase, magnitude_units, Scalar, MANTISSAS, ONE_BITS};
use vstd::arithmetic::power2::{lemma2_to64_rest, lemma_pow2_adds, lemma_pow2_pos, pow2};
use vstd::prelude::*;

verus! {

#[derive(Clone, Copy, PartialEq, Eq, Structural, Debug)]
pub enum FontWeight {
    UltraLight,
    Thin,
    Light,
    Regular,
    Medium,
    Semibold,
    Bold,
    Heavy,
    Black,
}

/// The semantic text styles.
#[derive(Clone, Copy, PartialEq, Eq, Structural, Debug)]
pub enum TextStyle {
    LargeTitle,
    Title,
    Title2,
    Title3,
    Headline,
    Subheadline,
    Body,
    Callout,
    Footnote,
    Caption,
    Caption2,
}

#[derive(Debug)]
pub enum Font {
    Style(TextStyle),
    System(Scalar),
    Custom(String, Scalar),
}

#[derive(Debug)]
pub struct FontSpec {
    pub font: Font,
    pub weight: Option<FontWeight>,
    pub italic: bool,
    pub tabular: bool,
    pub monospace: bool,
    /// A size relative to the resolved one.
    pub scale: Scalar,
}

/// How heavy a weight is, lightest first.
pub open spec fn heaviness(w: FontWeight) -> int {
    match w {
        FontWeight::UltraLight => 0,
        FontWeight::Thin => 1,
        FontWeight::Light => 2,
        FontWeight::Regular => 3,
        FontWeight::Medium => 4,
        FontWeight::Semibold => 5,
        FontWeight::Bold => 6,
        FontWeight::Heavy => 7,
        FontWeight::Black => 8,
    }
}

/// Whether a weight asks for the bold trait: semibold or heavier.
pub fn is_bold(w: FontWeight) -> (r: bool)
    ensures
        r == (heaviness(w) >= heaviness(FontWeight::Semibold)),
{
    match w {
        FontWeight::Semibold => true,
        FontWeight::Bold => true,
        FontWeight::Heavy => true,
        FontWeight::Black => true,
        _ => false,
    }
}

/// The platform's point size of a style at the default text size.
pub open spec fn default_points(style: TextStyle) -> u32 {
    match style {
        TextStyle::LargeTitle => 34u32,
        TextStyle::Title => 28u32,
        TextStyle::Title2 => 22u32,
        TextStyle::Title3 => 20u32,
        TextStyle::Headline => 17u32,
        TextStyle::Subheadline => 15u32,
        TextStyle::Body => 17u32,
        TextStyle::Callout => 16u32,
        TextStyle::Footnote => 13u32,
        TextStyle::Caption => 12u32,
        TextStyle::Caption2 => 11u32,
    }
}

pub fn ui_default_size(style: TextStyle) -> (points: u32)
    ensures
        points == default_points(style),
{
    match style {
        TextStyle::LargeTitle => 34,
        TextStyle::Title => 28,
        TextStyle::Title2 => 22,
        TextStyle::Title3 => 20,
        TextStyle::Headline => 17,
        TextStyle::Subheadline => 15,
        TextStyle::Body => 17,
        TextStyle::Callout => 16,
        TextStyle::Footnote => 13,
        TextStyle::Caption => 12,
        TextStyle::Caption2 => 11,
    }
}

/// A weight's own weight trait, in hundredths.
pub open spec fn rung(w: FontWeight) -> int {
    match w {
        FontWeight::UltraLight => -80,
        FontWeight::Thin => -60,
        FontWeight::Light => -40,
        FontWeight::Regular => 0,
        FontWeight::Medium => 23,
        FontWeight::Semibold => 30,
        FontWeight::Bold => 40,
        FontWeight::Heavy => 56,
        FontWeight::Black => 62,
    }
}

/// How far a weight trait is from a weight's own, exactly.
pub open spec fn gap(t: Scalar, w: FontWeight) -> int {
    let d = 100 * t.units() - rung(w) * pow2(1074);
    if d < 0 {
        -d
    } else {
        d
    }
}

/// A weight trait halfway between two weights, as closely as a number can be.
pub open spec fn halfway(t: Scalar) -> bool {
    t.same_spec(Scalar(ULTRA_LIGHT_UP_TO)) || t.same_spec(Scalar(THIN_UP_TO)) || t.same_spec(
        Scalar(LIGHT_UP_TO),
    ) || t.same_spec(Scalar(REGULAR_BELOW)) || t.same_spec(Scalar(MEDIUM_BELOW)) || t.same_spec(
        Scalar(SEMIBOLD_BELOW),
    ) || t.same_spec(Scalar(BOLD_BELOW)) || t.same_spec(Scalar(HEAVY_BELOW))
}

/// The bits of the midpoints between the weights of a weight trait: -0.7, -0.5, -0.2, 0.115, 0.265,
/// 0.35, 0.48 and 0.59.
pub const ULTRA_LIGHT_UP_TO: u64 = 0xbfe6_6666_6666_6666;

pub const THIN_UP_TO: u64 = 0xbfe0_0000_0000_0000;

pub const LIGHT_UP_TO: u64 = 0xbfc9_9999_9999_999a;

pub const REGULAR_BELOW: u64 = 0x3fbd_70a3_d70a_3d71;

pub const MEDIUM_BELOW: u64 = 0x3fd0_f5c2_8f5c_28f6;

pub const SEMIBOLD_BELOW: u64 = 0x3fd6_6666_6666_6666;

pub const BOLD_BELOW: u64 = 0x3fde_b851_eb85_1eb8;

pub const HEAVY_BELOW: u64 = 0x3fe2_e147_ae14_7ae1;

/// The weight a weight trait names, by the midpoints: one at -0.2 or lower stays with the lighter
/// weight, one above with the heavier, and what is not a number is black.
pub open spec fn weight_of(t: Scalar) -> FontWeight {
    if !Scalar(ULTRA_LIGHT_UP_TO).lt_spec(t) && t.is_number() {
        FontWeight::UltraLight
    } else if !Scalar(THIN_UP_TO).lt_spec(t) && t.is_number() {
        FontWeight::Thin
    } else if !Scalar(LIGHT_UP_TO).lt_spec(t) && t.is_number() {
        FontWeight::Light
    } else if t.lt_spec(Scalar(REGULAR_BELOW)) {
        FontWeight::Regular
    } else if t.lt_spec(Scalar(MEDIUM_BELOW)) {
        FontWeight::Medium
    } else if t.lt_spec(Scalar(SEMIBOLD_BELOW)) {
        FontWeight::Semibold
    } else if t.lt_spec(Scalar(BOLD_BELOW)) {
        FontWeight::Bold
    } else if t.lt_spec(Scalar(HEAVY_BELOW)) {
        FontWeight::Heavy
    } else {
        FontWeight::Black
    }
}

/// The weight nearest a face's weight trait.
pub fn weight_from_trait(t: Scalar) -> (r: FontWeight)
    ensures
        r == weight_of(t),
        t.is_number() && !halfway(t) ==> forall|other: FontWeight|
            other != r ==> gap(t, r) < #[trigger] gap(t, other),
{
    proof {
        if t.is_number() && !halfway(t) {
            lemma_nearest(t);
        }
    }
    let number = t.magnitude() <= crate::types::INFINITY_BITS;
    if number && !Scalar(ULTRA_LIGHT_UP_TO).less(t) {
        FontWeight::UltraLight
    } else if number && !Scalar(THIN_UP_TO).less(t) {
        FontWeight::Thin
    } else if number && !Scalar(LIGHT_UP_TO).less(t) {
        FontWeight::Light
    } else if t.less(Scalar(REGULAR_BELOW)) {
        FontWeight::Regular
    } else if t.less(Scalar(MEDIUM_BELOW)) {
        FontWeight::Medium
    } else if t.less(Scalar(SEMIBOLD_BELOW)) {
        FontWeight::Semibold
    } else if t.less(Scalar(BOLD_BELOW)) {
        FontWeight::Bold
    } else if t.less(Scalar(HEAVY_BELOW)) {
        FontWeight::Heavy
    } else {
        FontWeight::Black
    }
}

/// The face a font starts from.
pub enum FontBase {
    /// The style's preferred font, which follows the text size by itself.
    Preferred(TextStyle),
    /// The system font at a style's default size, scaled by that style's metrics.
    Weighted { style: TextStyle, size: u32, weight: FontWeight },
    /// The system font, scaled by the body metrics.
    System { points: Scalar, weight: FontWeight },
    /// A bundled family, scaled by the body metrics; an unknown one falls back to the system font
    /// of `weight`, loudly.
    Named { name: String, points: Scalar, weight: FontWeight },
}

/// Traits added to a resolved face.
#[derive(Clone, Copy, PartialEq, Eq, Structural, Debug)]
pub struct Traits {
    pub bold: bool,
    pub italic: bool,
}

/// A step of making a font. A re-pick takes the system face of a weight anew, at the size so far,
/// and so drops what traits were added before it.
#[derive(Clone, Copy, PartialEq, Eq, Structural, Debug)]
pub enum FontStep {
    /// Re-pick the system face with figures of one width.
    Tabular(FontWeight),
    /// Re-pick the system face with characters of one width.
    Monospaced(FontWeight),
    /// Add traits to the face so far.
    Add(Traits),
    /// Scale the size so far; the face stays.
    Scale(Scalar),
}

/// A font: the face it starts from, and the steps made on it.
pub struct FontPlan {
    pub base: FontBase,
    pub steps: Vec<FontStep>,
}

/// What the steps make of a face.
pub struct Look {
    pub tabular: bool,
    pub monospaced: bool,
    pub added: Traits,
    pub scale: Option<Scalar>,
}

pub open spec fn upright() -> Traits {
    Traits { bold: false, italic: false }
}

/// The look after `steps`.
pub open spec fn look_after(steps: Seq<FontStep>) -> Look
    decreases steps.len(),
{
    if steps.len() == 0 {
        Look { tabular: false, monospaced: false, added: upright(), scale: None }
    } else {
        let look = look_after(steps.drop_last());
        match steps.last() {
            FontStep::Tabular(_) => Look {
                tabular: true,
                monospaced: false,
                added: upright(),
                ..look
            },
            FontStep::Monospaced(_) => Look {
                tabular: true,
                monospaced: true,
                added: upright(),
                ..look
            },
            FontStep::Add(t) => Look {
                added: Traits { bold: look.added.bold || t.bold, italic: look.added.italic || t.italic },
                ..look
            },
            FontStep::Scale(by) => Look { scale: Some(by), ..look },
        }
    }
}

pub open spec fn weight_or_regular(w: Option<FontWeight>) -> FontWeight {
    match w {
        Some(w) => w,
        None => FontWeight::Regular,
    }
}

/// The traits a specification adds: a slant, and for a bundled family a heavy weight as well.
pub open spec fn traits_of(spec: FontSpec) -> Traits {
    Traits {
        bold: spec.font is Custom && spec.weight is Some && heaviness(spec.weight->0) >= heaviness(
            FontWeight::Semibold,
        ),
        italic: spec.italic,
    }
}

/// The steps of a specification: the re-picks, then the traits on whichever face they settled on,
/// and last a relative size. A bundled family keeps its own figures and its own face: re-picks are
/// the system's only.
pub open spec fn steps_of(spec: FontSpec) -> Seq<FontStep> {
    let weight = weight_or_regular(spec.weight);
    (if spec.tabular && !(spec.font is Custom) {
        seq![FontStep::Tabular(weight)]
    } else {
        Seq::empty()
    }) + (if spec.monospace && !(spec.font is Custom) {
        seq![FontStep::Monospaced(weight)]
    } else {
        Seq::empty()
    }) + (if traits_of(spec) != upright() {
        seq![FontStep::Add(traits_of(spec))]
    } else {
        Seq::empty()
    }) + (if spec.scale.same_spec(Scalar(ONE_BITS)) {
        Seq::empty()
    } else {
        seq![FontStep::Scale(spec.scale)]
    })
}

/// Resolve a font.
pub fn resolve_font(spec: &FontSpec) -> (r: FontPlan)
    ensures
        match spec.font {
            Font::System(points) => r.base == (FontBase::System {
                points,
                weight: weight_or_regular(spec.weight),
            }),
            Font::Custom(name, points) => r.base == (FontBase::Named {
                name,
                points,
                weight: weight_or_regular(spec.weight),
            }),
            Font::Style(style) => match spec.weight {
                None => r.base == FontBase::Preferred(style),
                Some(w) => r.base matches FontBase::Weighted { style: s, size, weight } && s
                    == style && weight == w && size == default_points(style),
            },
        },
        r.steps@ == steps_of(*spec),
        ({
            let look = look_after(r.steps@);
            let system = !(spec.font is Custom);
            &&& look.added == traits_of(*spec)
            &&& look.monospaced == (spec.monospace && system)
            &&& look.tabular == ((spec.tabular || spec.monospace) && system)
            &&& look.scale == (if spec.scale.same_spec(Scalar(ONE_BITS)) {
                None
            } else {
                Some(spec.scale)
            })
        }),
{
    let weight = match spec.weight {
        Some(w) => w,
        None => FontWeight::Regular,
    };
    let mut bundled = false;
    let base = match &spec.font {
        Font::System(points) => FontBase::System { points: *points, weight },
        Font::Custom(name, points) => {
            bundled = true;
            FontBase::Named { name: name.clone(), points: *points, weight }
        },
        Font::Style(style) => match spec.weight {
            None => FontBase::Preferred(*style),
            Some(w) => FontBase::Weighted {
                style: *style,
                size: ui_default_size(*style),
                weight: w,
            },
        },
    };
    let bold = bundled && match spec.weight {
        Some(w) => is_bold(w),
        None => false,
    };
    let mut steps: Vec<FontStep> = Vec::new();
    if spec.tabular && !bundled {
        steps.push(FontStep::Tabular(weight));
    }
    if spec.monospace && !bundled {
        steps.push(FontStep::Monospaced(weight));
    }
    if bold || spec.italic {
        steps.push(FontStep::Add(Traits { bold, italic: spec.italic }));
    }
    if !spec.scale.same(Scalar(ONE_BITS)) {
        steps.push(FontStep::Scale(spec.scale));
    }
    proof {
        assert(steps@ =~= steps_of(*spec));
        lemma_steps_look(*spec);
    }
    FontPlan { base, steps }
}

/// No step takes back what a specification asks for.
proof fn lemma_steps_look(spec: FontSpec)
    ensures
        ({
            let look = look_after(steps_of(spec));
            let system = !(spec.font is Custom);
            &&& look.added == traits_of(spec)
            &&& look.monospaced == (spec.monospace && system)
            &&& look.tabular == ((spec.tabular || spec.monospace) && system)
            &&& look.scale == (if spec.scale.same_spec(Scalar(ONE_BITS)) {
                None
            } else {
                Some(spec.scale)
            })
        }),
{
    let weight = weight_or_regular(spec.weight);
    let system = !(spec.font is Custom);
    let none = Seq::<FontStep>::empty();
    let s1 = if spec.tabular && system {
        none.push(FontStep::Tabular(weight))
    } else {
        none
    };
    let s2 = if spec.monospace && system {
        s1.push(FontStep::Monospaced(weight))
    } else {
        s1
    };
    let s3 = if traits_of(spec) != upright() {
        s2.push(FontStep::Add(traits_of(spec)))
    } else {
        s2
    };
    let s4 = if spec.scale.same_spec(Scalar(ONE_BITS)) {
        s3
    } else {
        s3.push(FontStep::Scale(spec.scale))
    };
    assert(steps_of(spec) =~= s4);
    assert(none.push(FontStep::Tabular(weight)).drop_last() =~= none);
    assert(s1.push(FontStep::Monospaced(weight)).drop_last() =~= s1);
    assert(s2.push(FontStep::Add(traits_of(spec))).drop_last() =~= s2);
    assert(s3.push(FontStep::Scale(spec.scale)).drop_last() =~= s3);
    reveal_with_fuel(look_after, 5);
}

/// How a canvas font is found.
#[derive(Clone, Copy, PartialEq, Eq, Structural, Debug)]
pub enum CanvasFace {
    /// The system face at an exact weight, slanted if asked.
    System { weight: FontWeight, italic: bool },
    /// A descriptor of the family with these traits.
    Family(Traits),
    /// A face by its full name, with these traits added.
    Named(Traits),
    /// No such family: the system face, upright, with one warning.
    Unknown { weight: FontWeight },
}

/// The face of a canvas font. `family_known` says whether the platform lists the family,
/// `name_known` whether it knows a face of that name.
pub fn canvas_uifont(font: &CanvasFont, family_known: bool, name_known: bool) -> (r: CanvasFace)
    ensures
        ({
            let weight = weight_or_regular(font.weight);
            let traits = Traits {
                bold: heaviness(weight) >= heaviness(FontWeight::Semibold),
                italic: font.italic,
            };
            r == (if font.family is None {
                CanvasFace::System { weight, italic: font.italic }
            } else if family_known {
                CanvasFace::Family(traits)
            } else if name_known {
                CanvasFace::Named(traits)
            } else {
                CanvasFace::Unknown { weight }
            })
        }),
{
    let weight = match font.weight {
        Some(w) => w,
        None => FontWeight::Regular,
    };
    let traits = Traits { bold: is_bold(weight), italic: font.italic };
    if font.family.is_none() {
        CanvasFace::System { weight, italic: font.italic }
    } else if family_known {
        CanvasFace::Family(traits)
    } else if name_known {
        CanvasFace::Named(traits)
    } else {
        CanvasFace::Unknown { weight }
    }
}

/// A magnitude against a fraction of two hundredths, brought to its own exponent.
proof fn lemma_scaled(m: u64, k: nat, s: int)
    requires
        k <= 1074,
        m / MANTISSAS == 1075 - k,
    ensures
        pow2((1074 - k) as nat) > 0,
        200 * magnitude_units(m) - s * pow2(1074) == (200 * (MANTISSAS + m % MANTISSAS) - s * pow2(
            k,
        )) * pow2((1074 - k) as nat),
{
    lemma_pow2_pos((1074 - k) as nat);
    lemma_pow2_adds(k, (1074 - k) as nat);
    let (f, x, y) = (MANTISSAS + m % MANTISSAS, pow2(k) as int, pow2((1074 - k) as nat) as int);
    assert(200 * (f * y) - s * (x * y) == (200 * f - s * x) * y) by (nonlinear_arith);
}

/// `m` is the magnitude closest to `s` two hundredths: those below it are less, those above more.
proof fn lemma_cut(m: u64, below: nat, above: nat, s: int)
    requires
        0 < m < u64::MAX,
        below <= 1074,
        above <= 1074,
        (m - 1) as u64 / MANTISSAS == 1075 - below,
        (m + 1) as u64 / MANTISSAS == 1075 - above,
        200 * (MANTISSAS + (m - 1) as u64 % MANTISSAS) < s * pow2(below),
        200 * (MANTISSAS + (m + 1) as u64 % MANTISSAS) > s * pow2(above),
    ensures
        forall|x: u64| x < m ==> 200 * #[trigger] magnitude_units(x) < s * pow2(1074),
        forall|x: u64| x > m ==> 200 * #[trigger] magnitude_units(x) > s * pow2(1074),
{
    let (lo, hi) = ((m - 1) as u64, (m + 1) as u64);
    lemma_scaled(lo, below, s);
    lemma_scaled(hi, above, s);
    let a = 200 * (MANTISSAS + lo % MANTISSAS) - s * pow2(below);
    let b = 200 * (MANTISSAS + hi % MANTISSAS) - s * pow2(above);
    let (p, q) = (pow2((1074 - below) as nat) as int, pow2((1074 - above) as nat) as int);
    assert(a * p < 0) by (nonlinear_arith)
        requires
            a < 0,
            p > 0,
    ;
    assert(b * q > 0) by (nonlinear_arith)
        requires
            b > 0,
            q > 0,
    ;
    assert forall|x: u64| x < m implies 200 * #[trigger] magnitude_units(x) < s * pow2(1074) by {
        if x < lo {
            lemma_magnitudes_increase(x, lo);
        }
    }
    assert forall|x: u64| x > m implies 200 * #[trigger] magnitude_units(x) > s * pow2(1074) by {
        if x > hi {
            lemma_magnitudes_increase(hi, x);
        }
    }
}

/// The midpoints are where the nearest weight changes.
proof fn lemma_nearest(t: Scalar)
    requires
        t.is_number(),
        !halfway(t),
    ensures
        forall|other: FontWeight|
            other != weight_of(t) ==> gap(t, weight_of(t)) < #[trigger] gap(t, other),
{
    lemma2_to64_rest();
    lemma_pow2_pos(1074);
    lemma_cut(0x3fe6_6666_6666_6666, 53, 53, 140);
    lemma_cut(0x3fe0_0000_0000_0000, 54, 53, 100);
    lemma_cut(0x3fc9_9999_9999_999a, 55, 55, 40);
    lemma_cut(REGULAR_BELOW, 56, 56, 23);
    lemma_cut(MEDIUM_BELOW, 54, 54, 53);
    lemma_cut(SEMIBOLD_BELOW, 54, 54, 70);
    lemma_cut(BOLD_BELOW, 54, 54, 96);
    lemma_cut(HEAVY_BELOW, 53, 53, 118);
    let m = t.magnitude_spec();
    assert(magnitude_units(0) == 0);
    if m > 0 {
        lemma_magnitudes_increase(0, m);
    }
    assert(200 * magnitude_units(m) == 2 * (100 * magnitude_units(m)));
}

/// Heavier traits never name lighter weights.
pub proof fn law_weights_follow_their_traits(a: Scalar, b: Scalar)
    requires
        a.is_number(),
        b.is_number(),
        a.order() <= b.order(),
    ensures
        heaviness(weight_of(a)) <= heaviness(weight_of(b)),
{
}

/// A face of an installed family, as its descriptor reports it.
pub struct SeenFace {
    pub name: Option<String>,
    pub italic: bool,
    pub bold: bool,
    /// The weight trait, if the descriptor has one.
    pub weight: Option<Scalar>,
}

/// An installed family; a face that could not be loaded is `None`.
pub struct SeenFamily {
    pub name: String,
    pub faces: Vec<Option<SeenFace>>,
}

/// What a face is called.
#[derive(Debug, PartialEq, Eq)]
pub enum FaceName {
    Named(String),
    /// It reports no name: one is made up from its weight and slant.
    Synthesized,
}

#[derive(Debug, PartialEq, Eq)]
pub struct FontFace {
    pub name: FaceName,
    pub weight: FontWeight,
    pub italic: bool,
}

#[derive(Debug)]
pub struct FontFamilyInfo {
    pub family: String,
    pub faces: Vec<FontFace>,
}

/// The weight of a face: its trait's, or what its symbolic traits say.
pub open spec fn face_weight(face: SeenFace) -> FontWeight {
    match face.weight {
        Some(t) => weight_of(t),
        None => if face.bold {
            FontWeight::Bold
        } else {
            FontWeight::Regular
        },
    }
}

pub open spec fn face_of(face: SeenFace) -> FontFace {
    FontFace {
        name: match face.name {
            Some(n) if n@.len() > 0 => FaceName::Named(n),
            _ => FaceName::Synthesized,
        },
        weight: face_weight(face),
        italic: face.italic,
    }
}

/// The faces that loaded, in order.
pub open spec fn faces_of(faces: Seq<Option<SeenFace>>) -> Seq<FontFace>
    decreases faces.len(),
{
    if faces.len() == 0 {
        Seq::empty()
    } else {
        match faces.last() {
            Some(face) => faces_of(faces.drop_last()).push(face_of(face)),
            None => faces_of(faces.drop_last()),
        }
    }
}

/// The system's own interface faces are in families named with a leading dot.
pub open spec fn is_private(family: Seq<char>) -> bool {
    family.len() > 0 && family[0] == '.'
}

/// `info` describes `family`.
pub open spec fn describes(info: FontFamilyInfo, family: SeenFamily) -> bool {
    info.family == family.name && info.faces@ == faces_of(family.faces@)
}

/// Each family is described, in order.
pub open spec fn each_described(infos: Seq<FontFamilyInfo>, families: Seq<SeenFamily>) -> bool {
    &&& infos.len() == families.len()
    &&& forall|i: int| 0 <= i < infos.len() ==> describes(#[trigger] infos[i], families[i])
}

/// The families an app may choose from.
pub open spec fn public_families(families: Seq<SeenFamily>) -> Seq<SeenFamily> {
    families.filter(|f: SeenFamily| !is_private(f.name@))
}

fn font_face(face: SeenFace) -> (r: FontFace)
    ensures
        r == face_of(face),
{
    let weight = match face.weight {
        Some(t) => weight_from_trait(t),
        None => if face.bold {
            FontWeight::Bold
        } else {
            FontWeight::Regular
        },
    };
    let name = match face.name {
        Some(n) => {
            if n.as_str().unicode_len() > 0 {
                FaceName::Named(n)
            } else {
                FaceName::Synthesized
            }
        },
        None => FaceName::Synthesized,
    };
    FontFace { name, weight, italic: face.italic }
}

fn font_faces(faces: Vec<Option<SeenFace>>) -> (out: Vec<FontFace>)
    ensures
        out@ == faces_of(faces@),
{
    let ghost all = faces@;
    let mut left = faces;
    let mut out: Vec<FontFace> = Vec::new();
    let mut i: usize = 0;
    let n: usize = left.len();
    proof {
        assert(all.skip(0) == all);
    }
    while i < n
        invariant
            i <= n,
            n == all.len(),
            left@ == all.skip(i as int),
            out@ == faces_of(all.take(i as int)),
        decreases n - i,
    {
        proof {
            assert(all.take(i + 1).drop_last() == all.take(i as int));
            assert(all.skip(i as int).remove(0) =~= all.skip(i + 1));
        }
        match left.remove(0) {
            Some(face) => {
                out.push(font_face(face));
            },
            None => {},
        }
        i = i + 1;
    }
    proof {
        assert(all.take(n as int) == all);
    }
    out
}

/// Describe the installed families, the system's private ones left out.
pub fn font_families(families: Vec<SeenFamily>) -> (out: Vec<FontFamilyInfo>)
    ensures
        each_described(out@, public_families(families@)),
{
    let ghost all = families@;
    let ghost keep = |f: SeenFamily| !is_private(f.name@);
    let mut left = families;
    let mut out: Vec<FontFamilyInfo> = Vec::new();
    let mut i: usize = 0;
    let n: usize = left.len();
    proof {
        reveal(Seq::filter);
        assert(all.skip(0) == all);
    }
    while i < n
        invariant
            i <= n,
            n == all.len(),
            left@ == all.skip(i as int),
            keep == (|f: SeenFamily| !is_private(f.name@)),
            out@.len() == all.take(i as int).filter(keep).len(),
            forall|j: int|
                0 <= j < out@.len() ==> describes(
                    #[trigger] out@[j],
                    all.take(i as int).filter(keep)[j],
                ),
        decreases n - i,
    {
        proof {
            reveal(Seq::filter);
            assert(all.take(i + 1).drop_last() == all.take(i as int));
            assert(all.skip(i as int).remove(0) =~= all.skip(i + 1));
        }
        let family = left.remove(0);
        let private = family.name.as_str().unicode_len() > 0 && family.name.as_str().get_char(0)
            == '.';
        if !private {
            let faces = font_faces(family.faces);
            out.push(FontFamilyInfo { family: family.name, faces });
        }
        i = i + 1;
    }
    proof {
        assert(all.take(n as int) == all);
    }
    out
}

/// Semibold, bold, heavy and black ask for the bold trait, and no lighter weight does.
pub proof fn law_bold_starts_at_semibold(w: FontWeight, r: bool)
    requires
        call_ensures(is_bold, (w,), r),
    ensures
        r <==> w == FontWeight::Semibold || w == FontWeight::Bold || w == FontWeight::Heavy || w
            == FontWeight::Black,
{
}

/// The default size of each style.
pub proof fn law_styles_have_their_sizes(style: TextStyle, r: u32)
    requires
        call_ensures(ui_default_size, (style,), r),
    ensures
        r == 34 <==> style == TextStyle::LargeTitle,
        r == 28 <==> style == TextStyle::Title,
        r == 22 <==> style == TextStyle::Title2,
        r == 20 <==> style == TextStyle::Title3,
        r == 17 <==> style == TextStyle::Headline || style == TextStyle::Body,
        r == 16 <==> style == TextStyle::Callout,
        r == 15 <==> style == TextStyle::Subheadline,
        r == 13 <==> style == TextStyle::Footnote,
        r == 12 <==> style == TextStyle::Caption,
        r == 11 <==> style == TextStyle::Caption2,
{
}

/// A weight trait names the weight it is nearest to, cut at the midpoints.
pub proof fn law_trait_names_the_nearest_weight(t: Scalar, r: FontWeight)
    requires
        t.is_number(),
        call_ensures(weight_from_trait, (t,), r),
    ensures
        r == FontWeight::UltraLight <==> t.order() <= -0x3fe6_6666_6666_6666,
        r == FontWeight::Thin <==> -0x3fe6_6666_6666_6666 < t.order() <= -0x3fe0_0000_0000_0000,
        r == FontWeight::Light <==> -0x3fe0_0000_0000_0000 < t.order() <= -0x3fc9_9999_9999_999a,
        r == FontWeight::Regular <==> -0x3fc9_9999_9999_999a < t.order() < 0x3fbd_70a3_d70a_3d71,
        r == FontWeight::Medium <==> 0x3fbd_70a3_d70a_3d71 <= t.order() < 0x3fd0_f5c2_8f5c_28f6,
        r == FontWeight::Semibold <==> 0x3fd0_f5c2_8f5c_28f6 <= t.order() < 0x3fd6_6666_6666_6666,
        r == FontWeight::Bold <==> 0x3fd6_6666_6666_6666 <= t.order() < 0x3fde_b851_eb85_1eb8,
        r == FontWeight::Heavy <==> 0x3fde_b851_eb85_1eb8 <= t.order() < 0x3fe2_e147_ae14_7ae1,
        r == FontWeight::Black <==> 0x3fe2_e147_ae14_7ae1 <= t.order(),
{
}

/// A font starts from the face it names: a style's own, or at its default size where it has a weight; the
/// system's or a family's at the size asked for, in the weight asked for or else regular.
pub proof fn law_font_starts_from_its_face(spec: &FontSpec, r: FontPlan, style: TextStyle, size: u32)
    requires
        call_ensures(resolve_font, (spec,), r),
        call_ensures(ui_default_size, (style,), size),
    ensures
        ({
            let weight = match spec.weight {
                Some(w) => w,
                None => FontWeight::Regular,
            };
            &&& spec.font matches Font::System(points) ==> r.base == (FontBase::System {
                points,
                weight,
            })
            &&& spec.font matches Font::Custom(name, points) ==> r.base == (FontBase::Named {
                name,
                points,
                weight,
            })
            &&& spec.font == Font::Style(style) && spec.weight is None ==> r.base == FontBase::Preferred(
                style,
            )
            &&& spec.font == Font::Style(style) && spec.weight is Some ==> r.base == (
            FontBase::Weighted { style, size, weight })
        }),
{
}

/// A font's steps are those asked for, once each. A system face is picked for figures, then for
/// characters of one width; a family never is. What slants it, and what makes a family bold, is
/// added on the face picked; and the size is scaled last.
pub proof fn law_font_takes_the_steps_asked_for(spec: &FontSpec, r: FontPlan)
    requires
        call_ensures(resolve_font, (spec,), r),
    ensures
        ({
            let weight = match spec.weight {
                Some(w) => w,
                None => FontWeight::Regular,
            };
            let family = spec.font is Custom;
            let bold = family && (spec.weight == Some(FontWeight::Semibold) || spec.weight == Some(
                FontWeight::Bold,
            ) || spec.weight == Some(FontWeight::Heavy) || spec.weight == Some(FontWeight::Black));
            let figures: int = if spec.tabular && !family {
                1
            } else {
                0
            };
            let widths: int = if spec.monospace && !family {
                1
            } else {
                0
            };
            let added: int = if bold || spec.italic {
                1
            } else {
                0
            };
            let scaled: int = if spec.scale.same_spec(Scalar(0x3ff0_0000_0000_0000)) {
                0
            } else {
                1
            };
            &&& r.steps@.len() == figures + widths + added + scaled
            &&& figures == 1 ==> r.steps@[0] == FontStep::Tabular(weight)
            &&& widths == 1 ==> r.steps@[figures] == FontStep::Monospaced(weight)
            &&& added == 1 ==> r.steps@[figures + widths] == FontStep::Add(
                Traits { bold, italic: spec.italic },
            )
            &&& scaled == 1 ==> r.steps@[figures + widths + added] == FontStep::Scale(spec.scale)
        }),
{
}

/// A canvas font without a family is the system's, in its weight and slant. One with a family is that
/// family's where it is listed, else the face of that name, else the system's upright.
pub proof fn law_canvas_font_is_found_by_family(
    font: &CanvasFont,
    bold: bool,
    listed: CanvasFace,
    named: CanvasFace,
    unknown: CanvasFace,
    any: bool,
)
    requires
        call_ensures(canvas_uifont, (font, true, any), listed),
        call_ensures(canvas_uifont, (font, false, true), named),
        call_ensures(canvas_uifont, (font, false, false), unknown),
        call_ensures(
            is_bold,
            (match font.weight {
                Some(w) => w,
                None => FontWeight::Regular,
            },),
            bold,
        ),
    ensures
        ({
            let weight = match font.weight {
                Some(w) => w,
                None => FontWeight::Regular,
            };
            &&& font.family is None ==> listed == (CanvasFace::System { weight, italic: font.italic })
                && named == listed && unknown == listed
            &&& font.family is Some ==> listed == CanvasFace::Family(
                Traits { bold, italic: font.italic },
            ) && named == CanvasFace::Named(Traits { bold, italic: font.italic }) && unknown == (
            CanvasFace::Unknown { weight })
        }),
{
}

proof fn lemma_faces_loaded(faces: Seq<Option<SeenFace>>)
    ensures
        faces_of(faces).len() == faces.filter(|f: Option<SeenFace>| f is Some).len(),
        forall|j: int|
            0 <= j < faces_of(faces).len() ==> (faces.filter(|f: Option<SeenFace>| f is Some)[j]
                matches Some(face) && #[trigger] faces_of(faces)[j] == face_of(face)),
    decreases faces.len(),
{
    reveal(Seq::filter);
    if faces.len() > 0 {
        lemma_faces_loaded(faces.drop_last());
    }
}

/// A family is described unless it is one of the system's own, whose names begin with a dot; in order,
/// under its name, with every face that loaded, slanted as that is, under its own name if it has one.
/// A face weighs what its trait says, or else what its symbolic traits say.
pub proof fn law_families_are_described_as_seen(
    families: Vec<SeenFamily>,
    r: Vec<FontFamilyInfo>,
    i: int,
    j: int,
    t: Scalar,
    weight: FontWeight,
)
    requires
        call_ensures(font_families, (families,), r),
        call_ensures(weight_from_trait, (t,), weight),
    ensures
        ({
            let shown = families@.filter(
                |f: SeenFamily| !(f.name@.len() > 0 && f.name@[0] == '.'),
            );
            &&& r@.len() == shown.len()
            &&& 0 <= i < shown.len() ==> {
                let loaded = shown[i].faces@.filter(|f: Option<SeenFace>| f is Some);
                &&& r@[i].family == shown[i].name
                &&& r@[i].faces@.len() == loaded.len()
                &&& 0 <= j < loaded.len() ==> {
                    let (seen, face) = (loaded[j]->0, r@[i].faces@[j]);
                    &&& face.italic == seen.italic
                    &&& seen.weight == Some(t) ==> face.weight == weight
                    &&& seen.weight is None && seen.bold ==> face.weight == FontWeight::Bold
                    &&& seen.weight is None && !seen.bold ==> face.weight == FontWeight::Regular
                    &&& seen.name matches Some(name) ==> name@.len() > 0 ==> face.name
                        == FaceName::Named(name)
                    &&& seen.name is None || seen.name->0@.len() == 0 ==> face.name
                        == FaceName::Synthesized
                }
            }
        }),
{
    let shown = families@.filter(|f: SeenFamily| !(f.name@.len() > 0 && f.name@[0] == '.'));
    let own = |f: SeenFamily| !is_private(f.name@);
    let plain = |f: SeenFamily| !(f.name@.len() > 0 && f.name@[0] == '.');
    assert(own =~= plain);
    assert(each_described(r@, public_families(families@)));
    if 0 <= i < shown.len() {
        assert(describes(r@[i], shown[i]));
        lemma_faces_loaded(shown[i].faces@);
        let faces = faces_of(shown[i].faces@);
        if 0 <= j < faces.len() {
            assert(faces[j] == faces[j]);
        }
    }
}

} // verus!
