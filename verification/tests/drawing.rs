use day_uikit::draw::{
    bezier, draw_op, stroke_detail, Affine, CanvasFont, CanvasText, Draw, DrawOp, LineCap, LineJoin,
    Paint, PathPlan, PathSeg, Shape, Stop, StrokeStyle, TextAnchor, MITER_BITS,
};
use day_uikit::font::{
    canvas_uifont, font_families, is_bold, resolve_font, ui_default_size, weight_from_trait,
    CanvasFace, FaceName, Font, FontBase, FontFace, FontSpec, FontWeight, SeenFace, SeenFamily,
    FontStep, TextStyle, Traits, BOLD_BELOW, HEAVY_BELOW, LIGHT_UP_TO, MEDIUM_BELOW, REGULAR_BELOW,
    SEMIBOLD_BELOW, THIN_UP_TO, ULTRA_LIGHT_UP_TO,
};
use day_uikit::text::{
    attributed_label, attributes, needs_link_view, ns_underline, utf16_range, Attr, Extent, TextRun,
    Underline, Utf16Range,
};
use day_uikit::types::{Color, Point, Rect, Scalar, Size};

fn s(x: f64) -> Scalar {
    Scalar(x.to_bits())
}

fn pt(x: f64, y: f64) -> Point {
    Point { x: s(x), y: s(y) }
}

fn rect() -> Rect {
    Rect { origin: pt(1.0, 2.0), size: Size { width: s(30.0), height: s(40.0) } }
}

fn red() -> Color {
    Color { r: s(1.0), g: s(0.0), b: s(0.0), a: s(1.0) }
}

fn stroke() -> StrokeStyle {
    StrokeStyle {
        width: s(2.0),
        cap: LineCap::Butt,
        join: LineJoin::Miter,
        miter_limit: s(10.0),
        dash: Vec::new(),
        dash_phase: s(0.0),
    }
}

fn stops() -> Vec<Stop> {
    vec![Stop { at: s(0.0), color: red() }]
}

fn radial() -> Paint {
    Paint::Radial { stops: stops(), center: pt(0.5, 0.5), radius: s(0.5) }
}

fn linear(stops: Vec<Stop>) -> Paint {
    Paint::Linear { stops, start: pt(0.0, 0.0), end: pt(1.0, 0.0) }
}

#[test]
fn shapes_have_paths() {
    assert!(matches!(bezier(&Shape::Rect(rect())), Some(PathPlan::Rect(r)) if r == rect()));
    assert!(matches!(bezier(&Shape::Ellipse(rect())), Some(PathPlan::Oval(r)) if r == rect()));
    assert!(matches!(
        bezier(&Shape::RoundedRect(rect(), s(3.0))),
        Some(PathPlan::RoundedRect(_, r)) if r == s(3.0)
    ));
    assert!(matches!(
        bezier(&Shape::Arc { rect: rect(), start_deg: s(0.0), sweep_deg: s(90.0) }),
        Some(PathPlan::Arc { sweep_deg, .. }) if sweep_deg == s(90.0)
    ));
    let (a, b, c) = (pt(0.0, 0.0), pt(1.0, 0.0), pt(1.0, 1.0));
    match bezier(&Shape::Line(a, b)) {
        Some(PathPlan::Segs { segs, even_odd: false }) => {
            assert_eq!(segs, vec![PathSeg::Move(a), PathSeg::Line(b)])
        }
        _ => panic!("no line"),
    }
    match bezier(&Shape::Polygon(vec![a, b, c])) {
        Some(PathPlan::Segs { segs, even_odd: false }) => assert_eq!(
            segs,
            vec![PathSeg::Move(a), PathSeg::Line(b), PathSeg::Line(c), PathSeg::Close]
        ),
        _ => panic!("no polygon"),
    }
    let own = vec![PathSeg::Move(a), PathSeg::Quad(b, c), PathSeg::Close];
    match bezier(&Shape::Path { segs: own, even_odd: true }) {
        Some(PathPlan::Segs { segs, even_odd: true }) => assert_eq!(segs.len(), 3),
        _ => panic!("no path"),
    }
}

#[test]
fn empty_shapes_have_none() {
    assert!(bezier(&Shape::Polygon(vec![pt(0.0, 0.0)])).is_none());
    assert!(bezier(&Shape::Path { segs: Vec::new(), even_odd: false }).is_none());
    let op = DrawOp::Fill(Shape::Polygon(Vec::new()), Paint::Solid(red()));
    assert!(draw_op(&op).is_empty());
    assert!(draw_op(&DrawOp::Clip(Shape::Polygon(Vec::new()))).is_empty());
    let op = DrawOp::Stroke(Shape::Polygon(Vec::new()), radial(), stroke());
    assert!(draw_op(&op).is_empty());
}

#[test]
fn a_plain_stroke_adds_nothing() {
    assert_eq!(f64::from_bits(MITER_BITS), 10.0);
    assert!(stroke_detail(&stroke()).is_none());
    let mut dashed = stroke();
    dashed.dash = vec![s(1.0)];
    let d = stroke_detail(&dashed).unwrap();
    assert!(d.dashed);
    let mut round = stroke();
    round.cap = LineCap::Round;
    let d = stroke_detail(&round).unwrap();
    assert_eq!((d.cap, d.join, d.miter_limit, d.dashed), (LineCap::Round, LineJoin::Miter, s(10.0), false));
}

fn kinds(calls: &[Draw]) -> String {
    calls
        .iter()
        .map(|c| match c {
            Draw::Save => '<',
            Draw::Restore => '>',
            Draw::Concat(_) => 'm',
            Draw::Clip(_) => 'c',
            Draw::ClipStroked(..) => 'C',
            Draw::Fill(..) => 'f',
            Draw::Stroke(..) => 's',
            Draw::Batch { .. } => 'b',
            Draw::UnitSpace(_) => 'u',
            Draw::Linear { .. } => 'l',
            Draw::Radial { .. } => 'r',
            Draw::Text(_) => 't',
        })
        .collect()
}

#[test]
fn drawing_restores_what_it_saves() {
    let shape = || Shape::Rect(rect());
    let all = [
        (DrawOp::Fill(shape(), Paint::Solid(red())), "f"),
        (DrawOp::Fill(shape(), linear(stops())), "<cl>"),
        (DrawOp::Fill(shape(), radial()), "<cur>"),
        (DrawOp::Fill(shape(), linear(Vec::new())), ""),
        (DrawOp::Stroke(shape(), Paint::Solid(red()), stroke()), "s"),
        (DrawOp::Stroke(shape(), linear(stops()), stroke()), "<Cl>"),
        (DrawOp::Stroke(shape(), radial(), stroke()), "<C<ur>>"),
        (DrawOp::Stroke(shape(), linear(Vec::new()), stroke()), "<C>"),
        (DrawOp::Clip(shape()), "c"),
        (DrawOp::Save, "<"),
        (DrawOp::Restore, ">"),
    ];
    for (op, calls) in &all {
        assert_eq!(kinds(&draw_op(op)), *calls);
    }
    let m = Affine { a: s(1.0), b: s(0.0), c: s(0.0), d: s(1.0), tx: s(5.0), ty: s(0.0) };
    assert!(matches!(draw_op(&DrawOp::Concat(m))[..], [Draw::Concat(t)] if t == m));
    let text = CanvasText {
        text: "x".to_string(),
        at: pt(0.0, 0.0),
        size: s(12.0),
        color: red(),
        anchor: TextAnchor::Leading,
        font: CanvasFont { family: None, weight: None, italic: false },
    };
    assert_eq!(kinds(&draw_op(&DrawOp::Text(text))), "t");
}

#[test]
fn a_stamp_is_one_batch() {
    let op = DrawOp::Stamp {
        shape: Shape::Rect(rect()),
        at: vec![pt(0.0, 0.0), pt(1.0, 1.0)],
        paint: radial(),
        stroke: Some(stroke()),
    };
    match &draw_op(&op)[..] {
        [Draw::Batch { at, color, stroke: Some(_), .. }] => {
            assert_eq!(at.len(), 2);
            assert_eq!(*color, Color { r: s(1.0), g: s(1.0), b: s(1.0), a: s(1.0) });
        }
        _ => panic!("not a batch"),
    }
    let solid = DrawOp::Stamp {
        shape: Shape::Rect(rect()),
        at: Vec::new(),
        paint: Paint::Solid(red()),
        stroke: None,
    };
    assert!(matches!(draw_op(&solid)[..], [Draw::Batch { color, stroke: None, .. }] if color == red()));
}

#[test]
fn weight_boundaries() {
    let all = [
        (ULTRA_LIGHT_UP_TO, -0.7),
        (THIN_UP_TO, -0.5),
        (LIGHT_UP_TO, -0.2),
        (REGULAR_BELOW, 0.115),
        (MEDIUM_BELOW, 0.265),
        (SEMIBOLD_BELOW, 0.35),
        (BOLD_BELOW, 0.48),
        (HEAVY_BELOW, 0.59),
    ];
    for (bits, x) in all {
        assert_eq!(f64::from_bits(bits), x);
    }
}

#[test]
fn heavier_traits_name_heavier_weights() {
    let all = [
        (-0.8, FontWeight::UltraLight),
        (-0.7, FontWeight::UltraLight),
        (-0.6, FontWeight::Thin),
        (-0.4, FontWeight::Light),
        (0.0, FontWeight::Regular),
        (-0.0, FontWeight::Regular),
        (0.11, FontWeight::Regular),
        (0.13, FontWeight::Medium),
        (0.23, FontWeight::Medium),
        (0.266, FontWeight::Semibold),
        (0.3, FontWeight::Semibold),
        (0.4, FontWeight::Bold),
        (0.49, FontWeight::Heavy),
        (0.56, FontWeight::Heavy),
        (0.595, FontWeight::Black),
        (0.62, FontWeight::Black),
        (f64::NAN, FontWeight::Black),
    ];
    for (t, w) in all {
        assert_eq!(weight_from_trait(s(t)), w);
    }
    assert!(is_bold(FontWeight::Semibold) && is_bold(FontWeight::Black));
    assert!(!is_bold(FontWeight::Medium));
}

#[test]
fn default_sizes() {
    assert_eq!(ui_default_size(TextStyle::LargeTitle), 34);
    assert_eq!(ui_default_size(TextStyle::Title), 28);
    assert_eq!(ui_default_size(TextStyle::Body), 17);
    assert_eq!(ui_default_size(TextStyle::Caption2), 11);
}

fn spec(font: Font) -> FontSpec {
    FontSpec {
        font,
        weight: None,
        italic: false,
        tabular: false,
        monospace: false,
        scale: s(1.0),
    }
}

#[test]
fn fonts_resolve() {
    let plain = resolve_font(&spec(Font::Style(TextStyle::Body)));
    assert!(matches!(plain.base, FontBase::Preferred(TextStyle::Body)));
    assert!(plain.steps.is_empty());
    let mut heavy = spec(Font::Style(TextStyle::Title));
    heavy.weight = Some(FontWeight::Heavy);
    heavy.tabular = true;
    heavy.scale = s(0.8);
    let plan = resolve_font(&heavy);
    assert!(matches!(
        plan.base,
        FontBase::Weighted { style: TextStyle::Title, size: 28, weight: FontWeight::Heavy }
    ));
    assert_eq!(plan.steps, vec![FontStep::Tabular(FontWeight::Heavy), FontStep::Scale(s(0.8))]);
    let mut own = spec(Font::Custom("Inter".to_string(), s(20.0)));
    own.weight = Some(FontWeight::Bold);
    own.italic = true;
    own.tabular = true;
    own.monospace = true;
    let plan = resolve_font(&own);
    assert!(matches!(plan.base, FontBase::Named { ref name, .. } if name == "Inter"));
    assert_eq!(plan.steps, vec![FontStep::Add(Traits { bold: true, italic: true })]);
    let mut mono = spec(Font::System(s(13.0)));
    mono.monospace = true;
    let plan = resolve_font(&mono);
    assert!(matches!(plan.base, FontBase::System { weight: FontWeight::Regular, .. }));
    assert_eq!(plan.steps, vec![FontStep::Monospaced(FontWeight::Regular)]);
}

#[test]
fn a_slant_survives_tabular_figures() {
    let mut slanted = spec(Font::Style(TextStyle::Body));
    slanted.italic = true;
    slanted.tabular = true;
    assert_eq!(
        resolve_font(&slanted).steps,
        vec![
            FontStep::Tabular(FontWeight::Regular),
            FontStep::Add(Traits { bold: false, italic: true }),
        ]
    );
}

#[test]
fn canvas_fonts_are_found() {
    let none = CanvasFont { family: None, weight: None, italic: true };
    assert_eq!(
        canvas_uifont(&none, false, false),
        CanvasFace::System { weight: FontWeight::Regular, italic: true }
    );
    let named =
        CanvasFont { family: Some("X".to_string()), weight: Some(FontWeight::Bold), italic: false };
    let traits = Traits { bold: true, italic: false };
    assert_eq!(canvas_uifont(&named, true, true), CanvasFace::Family(traits));
    assert_eq!(canvas_uifont(&named, false, true), CanvasFace::Named(traits));
    assert_eq!(
        canvas_uifont(&named, false, false),
        CanvasFace::Unknown { weight: FontWeight::Bold }
    );
}

#[test]
fn private_families_are_left_out() {
    let face = |name: Option<&str>, bold, weight| {
        Some(SeenFace { name: name.map(|n| n.to_string()), italic: false, bold, weight })
    };
    let families = vec![
        SeenFamily { name: ".SF UI".to_string(), faces: vec![face(Some("Regular"), false, None)] },
        SeenFamily {
            name: "Avenir".to_string(),
            faces: vec![
                face(Some("Book"), true, Some(s(-0.4))),
                None,
                face(Some(""), true, None),
                face(None, false, None),
            ],
        },
        SeenFamily { name: String::new(), faces: Vec::new() },
    ];
    let out = font_families(families);
    assert_eq!(out.len(), 2);
    assert_eq!(out[0].family, "Avenir");
    let f = |name, weight| FontFace { name, weight, italic: false };
    assert_eq!(
        out[0].faces,
        vec![
            f(FaceName::Named("Book".to_string()), FontWeight::Light),
            f(FaceName::Synthesized, FontWeight::Bold),
            f(FaceName::Synthesized, FontWeight::Regular),
        ]
    );
}

#[test]
fn ranges_are_in_utf16_units() {
    let text = "aé😀b";
    assert_eq!(utf16_range(text, 0, 1), Some(Utf16Range { at: 0, len: 1 }));
    assert_eq!(utf16_range(text, 1, 3), Some(Utf16Range { at: 1, len: 1 }));
    assert_eq!(utf16_range(text, 3, 7), Some(Utf16Range { at: 2, len: 2 }));
    assert_eq!(utf16_range(text, 7, 8), Some(Utf16Range { at: 4, len: 1 }));
    assert_eq!(utf16_range(text, 0, 8), Some(Utf16Range { at: 0, len: 5 }));
    assert_eq!(utf16_range(text, 2, 3), None);
    assert_eq!(utf16_range(text, 0, 9), None);
    assert_eq!(utf16_range(text, 3, 1), None);
    assert_eq!(utf16_range("", 0, 0), Some(Utf16Range { at: 0, len: 0 }));
}

fn text_run(start: usize, end: usize) -> TextRun {
    TextRun {
        start,
        end,
        font: spec(Font::Style(TextStyle::Body)),
        color: None,
        background: None,
        underline: Underline::Off,
        strikethrough: false,
        link: None,
    }
}

#[test]
fn runs_are_placed_on_their_text() {
    let mut colored = text_run(3, 7);
    colored.color = Some(red());
    let runs = vec![text_run(0, 1), text_run(2, 3), colored];
    let attrs = attributed_label("aé😀b", None, &runs);
    let overs: Vec<Extent> = attrs.iter().map(|a| a.over).collect();
    let at = |at, len| Extent::Range(Utf16Range { at, len });
    assert_eq!(overs, vec![Extent::Whole, Extent::Whole, at(0, 1), at(2, 2), at(2, 2)]);
    assert!(matches!(attrs[0].attr, Attr::BaseFont));
    assert!(matches!(attrs[1].attr, Attr::AdaptiveForeground));
    assert!(matches!(attrs[2].attr, Attr::Font(_)));
    assert!(matches!(attrs[4].attr, Attr::Foreground(c) if c == red()));
    let plain = attributed_label("", Some(red()), &Vec::new()).len();
    assert_eq!(plain, 2);
}

#[test]
fn runs_have_attributes() {
    assert!(matches!(attributes(&text_run(0, 1))[..], [Attr::Font(_)]));
    let mut r = text_run(0, 1);
    r.color = Some(red());
    r.background = Some(red());
    r.underline = Underline::Wavy;
    r.strikethrough = true;
    r.link = Some("https://x".to_string());
    assert!(matches!(
        attributes(&r)[..],
        [
            Attr::Font(_),
            Attr::Foreground(_),
            Attr::Background(_),
            Attr::Underline(Underline::Wavy),
            Attr::Strikethrough,
            Attr::Link(l)
        ] if l == "https://x"
    ));
    assert!(needs_link_view(&vec![text_run(0, 1), r]));
    assert!(!needs_link_view(&vec![text_run(0, 1)]));
    let all = [
        (Underline::Off, 0),
        (Underline::Single, 1),
        (Underline::Double, 9),
        (Underline::Dotted, 0x101),
        (Underline::Wavy, 0x401),
    ];
    for (u, n) in all {
        assert_eq!(ns_underline(u), n);
    }
}
