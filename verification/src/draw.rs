//! Replaying a display list: each operation becomes the graphics calls that draw it.

use crate::types::{Color, Point, Rect, Scalar, ONE_BITS};
use vstd::prelude::*;

verus! {

/// The bits of the default miter limit, 10.
pub const MITER_BITS: u64 = 0x4024_0000_0000_0000;

#[derive(Clone, Copy, PartialEq, Eq, Structural, Debug)]
pub enum PathSeg {
    Move(Point),
    Line(Point),
    /// Control point, then end point.
    Quad(Point, Point),
    /// Two control points, then end point.
    Cubic(Point, Point, Point),
    Close,
}

#[derive(Debug)]
pub enum Shape {
    Rect(Rect),
    RoundedRect(Rect, Scalar),
    Ellipse(Rect),
    Arc { rect: Rect, start_deg: Scalar, sweep_deg: Scalar },
    Line(Point, Point),
    Path { segs: Vec<PathSeg>, even_odd: bool },
    Polygon(Vec<Point>),
}

/// A gradient stop: where, and which color.
#[derive(Clone, Copy, PartialEq, Eq, Structural, Debug)]
pub struct Stop {
    pub at: Scalar,
    pub color: Color,
}

/// A paint. A linear gradient runs between two points of the unit square laid over the shape's
/// bounds, a radial one is a circle of that square.
#[derive(Debug)]
pub enum Paint {
    Solid(Color),
    Linear { stops: Vec<Stop>, start: Point, end: Point },
    Radial { stops: Vec<Stop>, center: Point, radius: Scalar },
}

#[derive(Clone, Copy, PartialEq, Eq, Structural, Debug)]
pub enum LineCap {
    Butt,
    Round,
    Square,
}

#[derive(Clone, Copy, PartialEq, Eq, Structural, Debug)]
pub enum LineJoin {
    Miter,
    Round,
    Bevel,
}

#[derive(Debug)]
pub struct StrokeStyle {
    pub width: Scalar,
    pub cap: LineCap,
    pub join: LineJoin,
    pub miter_limit: Scalar,
    pub dash: Vec<Scalar>,
    pub dash_phase: Scalar,
}

#[derive(Clone, Copy, PartialEq, Eq, Structural, Debug)]
pub struct Affine {
    pub a: Scalar,
    pub b: Scalar,
    pub c: Scalar,
    pub d: Scalar,
    pub tx: Scalar,
    pub ty: Scalar,
}

/// Where text hangs from its point; `Leading` is the line box's top leading corner.
#[derive(Clone, Copy, PartialEq, Eq, Structural, Debug)]
pub enum TextAnchor {
    Leading,
    Other(u8),
}

#[derive(Debug)]
pub struct CanvasFont {
    pub family: Option<String>,
    pub weight: Option<crate::font::FontWeight>,
    pub italic: bool,
}

#[derive(Debug)]
pub struct CanvasText {
    pub text: String,
    pub at: Point,
    pub size: Scalar,
    pub color: Color,
    pub anchor: TextAnchor,
    pub font: CanvasFont,
}

#[derive(Debug)]
pub enum DrawOp {
    /// One shape drawn at many points.
    Stamp { shape: Shape, at: Vec<Point>, paint: Paint, stroke: Option<StrokeStyle> },
    Fill(Shape, Paint),
    Stroke(Shape, Paint, StrokeStyle),
    Clip(Shape),
    Text(CanvasText),
    Save,
    Restore,
    Concat(Affine),
}

/// The native path of a shape.
#[derive(Debug)]
pub enum PathPlan {
    Rect(Rect),
    RoundedRect(Rect, Scalar),
    Oval(Rect),
    /// An arc about the rectangle's middle, half its smaller side wide, clockwise.
    Arc { rect: Rect, start_deg: Scalar, sweep_deg: Scalar },
    /// Drawn segment by segment; the fill rule travels on the path.
    Segs { segs: Vec<PathSeg>, even_odd: bool },
}

/// A shape with no path: an empty one, or a polygon of fewer than two points.
pub open spec fn pathless(shape: Shape) -> bool {
    match shape {
        Shape::Path { segs, .. } => segs@.len() == 0,
        Shape::Polygon(points) => points@.len() < 2,
        _ => false,
    }
}

/// A polygon's outline: to the first point, a line to each other, and closed.
pub open spec fn polygon_segs(points: Seq<Point>) -> Seq<PathSeg> {
    Seq::new(
        points.len() + 1,
        |i: int|
            if i == points.len() {
                PathSeg::Close
            } else if i == 0 {
                PathSeg::Move(points[0])
            } else {
                PathSeg::Line(points[i])
            },
    )
}

/// `plan` is the path of `shape`.
pub open spec fn path_of(shape: Shape, plan: PathPlan) -> bool {
    match shape {
        Shape::Rect(r) => plan == PathPlan::Rect(r),
        Shape::RoundedRect(r, radius) => plan == PathPlan::RoundedRect(r, radius),
        Shape::Ellipse(r) => plan == PathPlan::Oval(r),
        Shape::Arc { rect, start_deg, sweep_deg } => plan == (PathPlan::Arc {
            rect,
            start_deg,
            sweep_deg,
        }),
        Shape::Line(a, b) => plan matches PathPlan::Segs { segs, even_odd } && segs@ == seq![
            PathSeg::Move(a),
            PathSeg::Line(b),
        ] && !even_odd,
        Shape::Path { segs: own, even_odd: rule } => plan matches PathPlan::Segs { segs, even_odd }
            && segs@ == own@ && even_odd == rule,
        Shape::Polygon(points) => plan matches PathPlan::Segs { segs, even_odd } && segs@
            == polygon_segs(points@) && !even_odd,
    }
}

fn copy_segs(v: &Vec<PathSeg>) -> (out: Vec<PathSeg>)
    ensures
        out@ == v@,
{
    let mut out: Vec<PathSeg> = Vec::new();
    let n: usize = v.len();
    for i in 0..n
        invariant
            n == v@.len(),
            out@ == v@.take(i as int),
    {
        out.push(v[i]);
        proof {
            assert(v@.take(i as int).push(v@[i as int]) == v@.take(i + 1));
        }
    }
    proof {
        assert(v@.take(n as int) == v@);
    }
    out
}

/// The native path of a shape, if it has one.
pub fn bezier(shape: &Shape) -> (r: Option<PathPlan>)
    ensures
        r is None == pathless(*shape),
        r matches Some(plan) ==> path_of(*shape, plan),
{
    match shape {
        Shape::Rect(r) => Some(PathPlan::Rect(*r)),
        Shape::RoundedRect(r, radius) => Some(PathPlan::RoundedRect(*r, *radius)),
        Shape::Ellipse(r) => Some(PathPlan::Oval(*r)),
        Shape::Arc { rect, start_deg, sweep_deg } => Some(
            PathPlan::Arc { rect: *rect, start_deg: *start_deg, sweep_deg: *sweep_deg },
        ),
        Shape::Line(a, b) => {
            let segs = vec![PathSeg::Move(*a), PathSeg::Line(*b)];
            proof {
                assert(segs@ =~= seq![PathSeg::Move(*a), PathSeg::Line(*b)]);
            }
            Some(PathPlan::Segs { segs, even_odd: false })
        },
        Shape::Path { segs, even_odd } => {
            if segs.len() == 0 {
                return None;
            }
            Some(PathPlan::Segs { segs: copy_segs(segs), even_odd: *even_odd })
        },
        Shape::Polygon(points) => {
            let n: usize = points.len();
            if n < 2 {
                return None;
            }
            let mut segs: Vec<PathSeg> = Vec::new();
            segs.push(PathSeg::Move(points[0]));
            for i in 1..n
                invariant
                    n == points@.len(),
                    1 <= i <= n,
                    segs@ == polygon_segs(points@).take(i as int),
            {
                segs.push(PathSeg::Line(points[i]));
                proof {
                    assert(polygon_segs(points@).take(i as int).push(PathSeg::Line(points@[i as int]))
                        =~= polygon_segs(points@).take(i + 1));
                }
            }
            segs.push(PathSeg::Close);
            proof {
                assert(segs@ =~= polygon_segs(points@));
            }
            Some(PathPlan::Segs { segs, even_odd: false })
        },
    }
}

/// Whether nothing but the width of a stroke differs from the defaults.
pub open spec fn is_plain(style: StrokeStyle) -> bool {
    style.cap == LineCap::Butt && style.join == LineJoin::Miter && style.miter_limit.same_spec(
        Scalar(MITER_BITS),
    ) && style.dash@.len() == 0
}

/// What a stroke puts on its path besides the width: cap, join and miter limit, and a dash when
/// there is one; nothing at all when all of them are the defaults.
#[derive(Clone, Copy, PartialEq, Eq, Structural, Debug)]
pub struct StrokeDetail {
    pub cap: LineCap,
    pub join: LineJoin,
    pub miter_limit: Scalar,
    pub dashed: bool,
}

pub fn stroke_detail(style: &StrokeStyle) -> (r: Option<StrokeDetail>)
    ensures
        r == (if is_plain(*style) {
            None
        } else {
            Some(
                StrokeDetail {
                    cap: style.cap,
                    join: style.join,
                    miter_limit: style.miter_limit,
                    dashed: style.dash@.len() > 0,
                },
            )
        }),
{
    let dashed = style.dash.len() > 0;
    if style.cap == LineCap::Butt && style.join == LineJoin::Miter && style.miter_limit.same(
        Scalar(MITER_BITS),
    ) && !dashed {
        return None;
    }
    Some(StrokeDetail { cap: style.cap, join: style.join, miter_limit: style.miter_limit, dashed })
}

/// One graphics call.
#[derive(Clone, Copy, Debug)]
pub enum Draw<'a> {
    Save,
    Restore,
    Concat(Affine),
    /// Intersect the clip with the shape's path.
    Clip(&'a Shape),
    /// Intersect the clip with the region a stroke of the shape covers.
    ClipStroked(&'a Shape, &'a StrokeStyle),
    Fill(&'a Shape, Color),
    Stroke(&'a Shape, Color, &'a StrokeStyle),
    /// One path of every copy of the shape, then one fill or stroke.
    Batch { shape: &'a Shape, at: &'a Vec<Point>, color: Color, stroke: Option<&'a StrokeStyle> },
    /// Lay the unit square over the shape's bounds.
    UnitSpace(&'a Shape),
    /// A gradient along the line between two points of the shape's bounds, drawn past both ends.
    Linear { stops: &'a Vec<Stop>, start: Point, end: Point, within: &'a Shape },
    /// A gradient about a center of the unit square, drawn past both ends.
    Radial { stops: &'a Vec<Stop>, center: Point, radius: Scalar },
    Text(&'a CanvasText),
}

pub open spec fn white() -> Color {
    Color {
        r: Scalar(ONE_BITS),
        g: Scalar(ONE_BITS),
        b: Scalar(ONE_BITS),
        a: Scalar(ONE_BITS),
    }
}

/// The color a batch is drawn in: a solid paint's own, white for any other.
pub open spec fn stamp_color(paint: Paint) -> Color {
    match paint {
        Paint::Solid(color) => color,
        _ => white(),
    }
}

/// A gradient drawn through the clip in place; one without stops draws nothing.
pub open spec fn gradient_calls<'a>(paint: &'a Paint, shape: &'a Shape) -> Seq<Draw<'a>> {
    match paint {
        Paint::Solid(_) => Seq::empty(),
        Paint::Linear { stops, start, end } => if stops@.len() == 0 {
            Seq::empty()
        } else {
            seq![Draw::Linear { stops, start: *start, end: *end, within: shape }]
        },
        Paint::Radial { stops, center, radius } => if stops@.len() == 0 {
            Seq::empty()
        } else {
            seq![
                Draw::Save,
                Draw::UnitSpace(shape),
                Draw::Radial { stops, center: *center, radius: *radius },
                Draw::Restore,
            ]
        },
    }
}

/// The calls of a fill: a solid one fills the path, a gradient is drawn through a clip to it.
pub open spec fn fill_calls<'a>(shape: &'a Shape, paint: &'a Paint) -> Seq<Draw<'a>> {
    if pathless(*shape) {
        Seq::empty()
    } else {
        match paint {
            Paint::Solid(color) => seq![Draw::Fill(shape, *color)],
            Paint::Linear { stops, start, end } => if stops@.len() == 0 {
                Seq::empty()
            } else {
                seq![
                    Draw::Save,
                    Draw::Clip(shape),
                    Draw::Linear { stops, start: *start, end: *end, within: shape },
                    Draw::Restore,
                ]
            },
            Paint::Radial { stops, center, radius } => if stops@.len() == 0 {
                Seq::empty()
            } else {
                seq![
                    Draw::Save,
                    Draw::Clip(shape),
                    Draw::UnitSpace(shape),
                    Draw::Radial { stops, center: *center, radius: *radius },
                    Draw::Restore,
                ]
            },
        }
    }
}

/// The calls of a stroke: a gradient is drawn through a clip to the region the stroke covers.
pub open spec fn stroke_calls<'a>(
    shape: &'a Shape,
    paint: &'a Paint,
    style: &'a StrokeStyle,
) -> Seq<Draw<'a>> {
    if pathless(*shape) {
        Seq::empty()
    } else {
        match paint {
            Paint::Solid(color) => seq![Draw::Stroke(shape, *color, style)],
            _ => seq![Draw::Save, Draw::ClipStroked(shape, style)] + gradient_calls(paint, shape)
                + seq![Draw::Restore],
        }
    }
}

/// The calls of one operation.
pub open spec fn calls<'a>(op: &'a DrawOp) -> Seq<Draw<'a>> {
    match op {
        DrawOp::Stamp { shape, at, paint, stroke } => seq![
            Draw::Batch {
                shape,
                at,
                color: stamp_color(*paint),
                stroke: match stroke {
                    Some(style) => Some(style),
                    None => None,
                },
            },
        ],
        DrawOp::Fill(shape, paint) => fill_calls(shape, paint),
        DrawOp::Stroke(shape, paint, style) => stroke_calls(shape, paint, style),
        DrawOp::Clip(shape) => if pathless(*shape) {
            Seq::empty()
        } else {
            seq![Draw::Clip(shape)]
        },
        DrawOp::Text(text) => seq![Draw::Text(text)],
        DrawOp::Save => seq![Draw::Save],
        DrawOp::Restore => seq![Draw::Restore],
        DrawOp::Concat(m) => seq![Draw::Concat(*m)],
    }
}

fn draw_gradient_in<'a>(paint: &'a Paint, shape: &'a Shape) -> (out: Vec<Draw<'a>>)
    ensures
        out@ == gradient_calls(paint, shape),
{
    let mut out: Vec<Draw<'a>> = Vec::new();
    match paint {
        Paint::Solid(_) => {},
        Paint::Linear { stops, start, end } => {
            if stops.len() > 0 {
                out.push(Draw::Linear { stops, start: *start, end: *end, within: shape });
            }
        },
        Paint::Radial { stops, center, radius } => {
            if stops.len() > 0 {
                out.push(Draw::Save);
                out.push(Draw::UnitSpace(shape));
                out.push(Draw::Radial { stops, center: *center, radius: *radius });
                out.push(Draw::Restore);
            }
        },
    }
    proof {
        assert(out@ =~= gradient_calls(paint, shape));
    }
    out
}

fn has_path(shape: &Shape) -> (r: bool)
    ensures
        r == !pathless(*shape),
{
    match shape {
        Shape::Path { segs, .. } => segs.len() > 0,
        Shape::Polygon(points) => points.len() >= 2,
        _ => true,
    }
}

/// The graphics calls of one operation, in order.
pub fn draw_op<'a>(op: &'a DrawOp) -> (out: Vec<Draw<'a>>)
    ensures
        out@ == calls(op),
{
    let mut out: Vec<Draw<'a>> = Vec::new();
    match op {
        DrawOp::Stamp { shape, at, paint, stroke } => {
            let color = match paint {
                Paint::Solid(color) => *color,
                _ => Color {
                    r: Scalar(ONE_BITS),
                    g: Scalar(ONE_BITS),
                    b: Scalar(ONE_BITS),
                    a: Scalar(ONE_BITS),
                },
            };
            let stroke = match stroke {
                Some(style) => Some(style),
                None => None,
            };
            out.push(Draw::Batch { shape, at, color, stroke });
        },
        DrawOp::Fill(shape, paint) => {
            if has_path(shape) {
                match paint {
                    Paint::Solid(color) => {
                        out.push(Draw::Fill(shape, *color));
                    },
                    Paint::Linear { stops, start, end } => {
                        if stops.len() > 0 {
                            out.push(Draw::Save);
                            out.push(Draw::Clip(shape));
                            out.push(
                                Draw::Linear { stops, start: *start, end: *end, within: shape },
                            );
                            out.push(Draw::Restore);
                        }
                    },
                    Paint::Radial { stops, center, radius } => {
                        if stops.len() > 0 {
                            out.push(Draw::Save);
                            out.push(Draw::Clip(shape));
                            out.push(Draw::UnitSpace(shape));
                            out.push(Draw::Radial { stops, center: *center, radius: *radius });
                            out.push(Draw::Restore);
                        }
                    },
                }
            }
        },
        DrawOp::Stroke(shape, paint, style) => {
            if has_path(shape) {
                match paint {
                    Paint::Solid(color) => {
                        out.push(Draw::Stroke(shape, *color, style));
                    },
                    _ => {
                        out.push(Draw::Save);
                        out.push(Draw::ClipStroked(shape, style));
                        let mut inner = draw_gradient_in(paint, shape);
                        out.append(&mut inner);
                        out.push(Draw::Restore);
                    },
                }
            }
        },
        DrawOp::Clip(shape) => {
            if has_path(shape) {
                out.push(Draw::Clip(shape));
            }
        },
        DrawOp::Text(text) => {
            out.push(Draw::Text(text));
        },
        DrawOp::Save => {
            out.push(Draw::Save);
        },
        DrawOp::Restore => {
            out.push(Draw::Restore);
        },
        DrawOp::Concat(m) => {
            out.push(Draw::Concat(*m));
        },
    }
    proof {
        assert(out@ =~= calls(op));
    }
    out
}

/// The graphics state calls draw in: the clips and transforms in force, in the order they were
/// made, and those saved.
#[verifier::ext_equal]
pub struct Graphics<'a> {
    pub marks: Seq<Draw<'a>>,
    pub saved: Seq<Seq<Draw<'a>>>,
}

impl<'a> Graphics<'a> {
    /// The state after one call: a save keeps it, a restore brings back the last one kept, a clip or
    /// a transform adds to it, and nothing else touches it.
    pub open spec fn after(self, call: Draw<'a>) -> Graphics<'a> {
        match call {
            Draw::Save => Graphics { saved: self.saved.push(self.marks), ..self },
            Draw::Restore => if self.saved.len() == 0 {
                self
            } else {
                Graphics { marks: self.saved.last(), saved: self.saved.drop_last() }
            },
            Draw::Clip(_) => Graphics { marks: self.marks.push(call), ..self },
            Draw::ClipStroked(_, _) => Graphics { marks: self.marks.push(call), ..self },
            Draw::UnitSpace(_) => Graphics { marks: self.marks.push(call), ..self },
            Draw::Concat(_) => Graphics { marks: self.marks.push(call), ..self },
            _ => self,
        }
    }

    /// The state after `calls`.
    pub open spec fn drawn(self, calls: Seq<Draw<'a>>) -> Graphics<'a>
        decreases calls.len(),
    {
        if calls.len() == 0 {
            self
        } else {
            self.drawn(calls.drop_last()).after(calls.last())
        }
    }
}

proof fn lemma_drawn_on<'a>(g: Graphics<'a>, a: Seq<Draw<'a>>, b: Seq<Draw<'a>>)
    ensures
        g.drawn(a + b) == g.drawn(a).drawn(b),
    decreases b.len(),
{
    if b.len() == 0 {
        assert(a + b =~= a);
    } else {
        assert((a + b).drop_last() =~= a + b.drop_last());
        lemma_drawn_on(g, a, b.drop_last());
    }
}

/// What is drawn between a save and its restore leaves nothing behind, where it leaves what was
/// saved before it alone.
proof fn lemma_bracketed<'a>(g: Graphics<'a>, inner: Seq<Draw<'a>>)
    requires
        g.after(Draw::Save).drawn(inner).saved == g.after(Draw::Save).saved,
    ensures
        g.drawn(seq![Draw::Save] + inner + seq![Draw::Restore]) == g,
{
    let whole = seq![Draw::Save] + inner + seq![Draw::Restore];
    assert(whole.drop_last() =~= seq![Draw::Save] + inner);
    lemma_drawn_on(g, seq![Draw::Save], inner);
    assert(seq![Draw::<'a>::Save].drop_last() =~= Seq::<Draw<'a>>::empty());
    reveal_with_fuel(Graphics::drawn, 2);
    assert(g.saved.push(g.marks).drop_last() =~= g.saved);
}

/// Drawing leaves the graphics state as it found it: after a stamp, a fill, a stroke or a text the
/// clip, the transform and what the app has saved are what they were before.
pub proof fn law_drawing_leaves_the_state<'a>(g: Graphics<'a>, op: &'a DrawOp)
    requires
        op is Stamp || op is Fill || op is Stroke || op is Text,
    ensures
        g.drawn(calls(op)) == g,
{
    let cs = calls(op);
    reveal_with_fuel(Graphics::drawn, 5);
    let saved = g.after(Draw::Save);
    match op {
        DrawOp::Fill(shape, paint) => {
            if !pathless(*shape) {
                match paint {
                    Paint::Solid(_) => {
                        assert(cs.drop_last() =~= Seq::<Draw<'a>>::empty());
                    },
                    Paint::Linear { stops, start, end } => {
                        if stops@.len() > 0 {
                            let inner = cs.subrange(1, 3);
                            assert(cs =~= seq![Draw::Save] + inner + seq![Draw::Restore]);
                            assert(inner.drop_last() =~= seq![cs[1]]);
                            assert(inner.drop_last().drop_last() =~= Seq::<Draw<'a>>::empty());
                            lemma_bracketed(g, inner);
                        }
                    },
                    Paint::Radial { stops, center, radius } => {
                        if stops@.len() > 0 {
                            let inner = cs.subrange(1, 4);
                            assert(cs =~= seq![Draw::Save] + inner + seq![Draw::Restore]);
                            assert(inner.drop_last() =~= seq![cs[1], cs[2]]);
                            assert(inner.drop_last().drop_last() =~= seq![cs[1]]);
                            assert(inner.drop_last().drop_last().drop_last() =~= Seq::<
                                Draw<'a>,
                            >::empty());
                            lemma_bracketed(g, inner);
                        }
                    },
                }
            }
        },
        DrawOp::Stroke(shape, paint, style) => {
            if !pathless(*shape) {
                if paint is Solid {
                    assert(cs.drop_last() =~= Seq::<Draw<'a>>::empty());
                } else {
                    let clip = seq![Draw::ClipStroked(shape, style)];
                    let inner = gradient_calls(paint, shape);
                    assert(cs =~= seq![Draw::Save] + (clip + inner) + seq![Draw::Restore]);
                    assert(clip.drop_last() =~= Seq::<Draw<'a>>::empty());
                    lemma_drawn_on(saved, clip, inner);
                    lemma_gradient_leaves(saved.drawn(clip), paint, shape);
                    lemma_bracketed(g, clip + inner);
                }
            }
        },
        _ => {
            assert(cs.drop_last() =~= Seq::<Draw<'a>>::empty());
        },
    }
}

proof fn lemma_gradient_leaves<'a>(g: Graphics<'a>, paint: &'a Paint, shape: &'a Shape)
    ensures
        g.drawn(gradient_calls(paint, shape)) == g,
{
    let cs = gradient_calls(paint, shape);
    reveal_with_fuel(Graphics::drawn, 4);
    match paint {
        Paint::Solid(_) => {},
        Paint::Linear { stops, start, end } => {
            if stops@.len() > 0 {
                assert(cs.drop_last() =~= Seq::<Draw<'a>>::empty());
            }
        },
        Paint::Radial { stops, center, radius } => {
            if stops@.len() > 0 {
                let inner = cs.subrange(1, 3);
                assert(cs =~= seq![Draw::Save] + inner + seq![Draw::Restore]);
                assert(inner.drop_last() =~= seq![cs[1]]);
                assert(inner.drop_last().drop_last() =~= Seq::<Draw<'a>>::empty());
                lemma_bracketed(g, inner);
            }
        },
    }
}

/// The app's own clip, transform, save and restore do what they say to the operations after them,
/// and no more: a clip or a transform is never wrapped in a save of its own.
pub proof fn law_state_operations_reach_what_follows<'a>(g: Graphics<'a>, op: &'a DrawOp)
    ensures
        op matches DrawOp::Clip(shape) ==> g.drawn(calls(op)) == (if pathless(*shape) {
            g
        } else {
            Graphics { marks: g.marks.push(Draw::Clip(shape)), ..g }
        }),
        op matches DrawOp::Concat(m) ==> g.drawn(calls(op)) == (Graphics {
            marks: g.marks.push(Draw::Concat(*m)),
            ..g
        }),
        op is Save ==> g.drawn(calls(op)) == (Graphics { saved: g.saved.push(g.marks), ..g }),
        op is Restore ==> g.drawn(calls(op)) == g.after(Draw::Restore),
{
    reveal_with_fuel(Graphics::drawn, 2);
    assert(calls(op).len() == 1 ==> calls(op).drop_last() =~= Seq::<Draw<'a>>::empty());
}

/// Whether a call puts something on the canvas.
pub open spec fn paints(call: Draw) -> bool {
    call is Fill || call is Stroke || call is Batch || call is Linear || call is Radial || call is Text
}

/// What is put on the canvas by `calls`, in order, each with the clips and transforms it is drawn
/// under.
pub open spec fn painted<'a>(g: Graphics<'a>, calls: Seq<Draw<'a>>) -> Seq<(Seq<Draw<'a>>, Draw<'a>)>
    decreases calls.len(),
{
    if calls.len() == 0 {
        Seq::empty()
    } else {
        let front = calls.drop_last();
        painted(g, front) + if paints(calls.last()) {
            seq![(g.drawn(front).marks, calls.last())]
        } else {
            Seq::empty()
        }
    }
}

/// `shape` outlines something: every shape does, but for a path without segments and a polygon of
/// fewer than two points.
pub open spec fn outlines(shape: Shape) -> bool {
    &&& shape matches Shape::Path { segs, .. } ==> segs@.len() > 0
    &&& shape matches Shape::Polygon(points) ==> points@.len() >= 2
}

proof fn lemma_painted_one<'a>(g: Graphics<'a>, calls: Seq<Draw<'a>>)
    requires
        calls.len() == 1,
    ensures
        painted(g, calls) == if paints(calls[0]) {
            seq![(g.marks, calls[0])]
        } else {
            Seq::empty()
        },
{
    reveal_with_fuel(painted, 2);
    assert(calls.drop_last() =~= Seq::<Draw<'a>>::empty());
    assert(painted(g, calls) =~= if paints(calls[0]) {
        seq![(g.marks, calls[0])]
    } else {
        Seq::empty()
    });
}

/// A shape filled in a color makes one mark: that shape, in that color, under the clips in force. A
/// shape that outlines nothing makes none.
pub proof fn law_solid_fill_is_one_mark<'a>(
    g: Graphics<'a>,
    op: &'a DrawOp,
    shape: &'a Shape,
    color: Color,
    out: Vec<Draw<'a>>,
)
    requires
        call_ensures(draw_op, (op,), out),
        op matches DrawOp::Fill(s, p) && s == shape && p == Paint::Solid(color),
    ensures
        outlines(*shape) ==> painted(g, out@) == seq![(g.marks, Draw::Fill(shape, color))],
        !outlines(*shape) ==> out@.len() == 0,
{
    if outlines(*shape) {
        lemma_painted_one(g, out@);
    }
}

/// A shape stroked in a color makes one mark: that shape's outline, in that color and style.
pub proof fn law_solid_stroke_is_one_mark<'a>(
    g: Graphics<'a>,
    op: &'a DrawOp,
    shape: &'a Shape,
    color: Color,
    style: &'a StrokeStyle,
    out: Vec<Draw<'a>>,
)
    requires
        call_ensures(draw_op, (op,), out),
        op matches DrawOp::Stroke(s, p, t) && s == shape && t == style && p == Paint::Solid(color),
    ensures
        outlines(*shape) ==> painted(g, out@) == seq![(g.marks, Draw::Stroke(shape, color, style))],
        !outlines(*shape) ==> out@.len() == 0,
{
    if outlines(*shape) {
        lemma_painted_one(g, out@);
    }
}

/// A shape filled with a gradient is the gradient's own stops, between its own points or about its
/// own center, seen through the shape and through nothing else that was not in force before. One
/// without stops paints nothing.
pub proof fn law_gradient_fill_is_seen_through_the_shape<'a>(
    g: Graphics<'a>,
    op: &'a DrawOp,
    shape: &'a Shape,
    paint: &'a Paint,
    out: Vec<Draw<'a>>,
)
    requires
        call_ensures(draw_op, (op,), out),
        op matches DrawOp::Fill(s, p) && s == shape && p == paint,
        outlines(*shape),
    ensures
        paint matches Paint::Linear { stops, start, end } ==> painted(g, out@) == (if stops@.len() > 0 {
            seq![
                (
                    g.marks.push(Draw::Clip(shape)),
                    Draw::Linear { stops, start: *start, end: *end, within: shape },
                ),
            ]
        } else {
            Seq::empty()
        }),
        paint matches Paint::Radial { stops, center, radius } ==> painted(g, out@) == (if stops@.len()
            > 0 {
            seq![
                (
                    g.marks.push(Draw::Clip(shape)).push(Draw::UnitSpace(shape)),
                    Draw::Radial { stops, center: *center, radius: *radius },
                ),
            ]
        } else {
            Seq::empty()
        }),
{
    reveal_with_fuel(painted, 6);
    reveal_with_fuel(Graphics::drawn, 6);
    let cs = out@;
    if cs.len() == 4 {
        lemma_fronts(cs, 4);
        assert(painted(g, cs) =~= seq![(g.marks.push(cs[1]), cs[2])]);
    } else if cs.len() == 5 {
        lemma_fronts(cs, 5);
        assert(painted(g, cs) =~= seq![(g.marks.push(cs[1]).push(cs[2]), cs[3])]);
    }
}

proof fn lemma_fronts<'a>(cs: Seq<Draw<'a>>, n: int)
    requires
        cs.len() == n,
        n <= 7,
    ensures
        n >= 1 ==> cs.drop_last() == cs.take(n - 1),
        n >= 2 ==> cs.take(n - 1).drop_last() == cs.take(n - 2),
        n >= 3 ==> cs.take(n - 2).drop_last() == cs.take(n - 3),
        n >= 4 ==> cs.take(n - 3).drop_last() == cs.take(n - 4),
        n >= 5 ==> cs.take(n - 4).drop_last() == cs.take(n - 5),
        n >= 6 ==> cs.take(n - 5).drop_last() == cs.take(n - 6),
        n >= 7 ==> cs.take(n - 6).drop_last() == cs.take(n - 7),
        forall|k: int| 1 <= k <= n ==> (#[trigger] cs.take(k)).last() == cs[k - 1],
        cs.take(0).len() == 0,
{
    assert(n >= 1 ==> cs.drop_last() =~= cs.take(n - 1));
    assert(n >= 2 ==> cs.take(n - 1).drop_last() =~= cs.take(n - 2));
    assert(n >= 3 ==> cs.take(n - 2).drop_last() =~= cs.take(n - 3));
    assert(n >= 4 ==> cs.take(n - 3).drop_last() =~= cs.take(n - 4));
    assert(n >= 5 ==> cs.take(n - 4).drop_last() =~= cs.take(n - 5));
    assert(n >= 6 ==> cs.take(n - 5).drop_last() =~= cs.take(n - 6));
    assert(n >= 7 ==> cs.take(n - 6).drop_last() =~= cs.take(n - 7));
}

/// A shape stroked with a gradient is the gradient seen through the region that its stroke covers.
pub proof fn law_gradient_stroke_is_seen_through_the_stroke<'a>(
    g: Graphics<'a>,
    op: &'a DrawOp,
    shape: &'a Shape,
    paint: &'a Paint,
    style: &'a StrokeStyle,
    out: Vec<Draw<'a>>,
)
    requires
        call_ensures(draw_op, (op,), out),
        op matches DrawOp::Stroke(s, p, t) && s == shape && p == paint && t == style,
        outlines(*shape),
    ensures
        paint matches Paint::Linear { stops, start, end } ==> painted(g, out@) == (if stops@.len() > 0 {
            seq![
                (
                    g.marks.push(Draw::ClipStroked(shape, style)),
                    Draw::Linear { stops, start: *start, end: *end, within: shape },
                ),
            ]
        } else {
            Seq::empty()
        }),
        paint matches Paint::Radial { stops, center, radius } ==> painted(g, out@) == (if stops@.len()
            > 0 {
            seq![
                (
                    g.marks.push(Draw::ClipStroked(shape, style)).push(Draw::UnitSpace(shape)),
                    Draw::Radial { stops, center: *center, radius: *radius },
                ),
            ]
        } else {
            Seq::empty()
        }),
{
    reveal_with_fuel(painted, 8);
    reveal_with_fuel(Graphics::drawn, 8);
    let cs = out@;
    if !(paint is Solid) {
        lemma_fronts(cs, cs.len() as int);
        if cs.len() == 3 {
            assert(painted(g, cs) =~= Seq::empty());
        } else if cs.len() == 4 {
            assert(painted(g, cs) =~= seq![(g.marks.push(cs[1]), cs[2])]);
        } else {
            assert(cs.len() == 7);
            assert(painted(g, cs) =~= seq![(g.marks.push(cs[1]).push(cs[3]), cs[4])]);
        }
    }
}

/// Stamps are one mark of every copy: the shape, at all its points, filled or stroked as asked, in a
/// solid paint's own color; a gradient stamps white.
pub proof fn law_stamps_are_one_mark<'a>(
    g: Graphics<'a>,
    op: &'a DrawOp,
    out: Vec<Draw<'a>>,
)
    requires
        call_ensures(draw_op, (op,), out),
        op is Stamp,
    ensures
        op matches DrawOp::Stamp { shape, at, paint, stroke } ==> {
            &&& out@.len() == 1
            &&& out@[0] matches Draw::Batch { shape: s, at: points, color, stroke: t }
            &&& s == shape && points == at
            &&& paint matches Paint::Solid(own) ==> color == *own
            &&& !(paint is Solid) ==> color.r.0 == ONE_BITS && color.g.0 == ONE_BITS && color.b.0
                == ONE_BITS && color.a.0 == ONE_BITS
            &&& t is Some == stroke is Some
            &&& stroke matches Some(style) ==> t == Some(&*style)
            &&& painted(g, out@) == seq![(g.marks, out@[0])]
        },
{
    lemma_painted_one(g, out@);
}

/// A text is one mark, of that very text; the operations on the state make none.
pub proof fn law_text_is_one_mark<'a>(g: Graphics<'a>, op: &'a DrawOp, out: Vec<Draw<'a>>)
    requires
        call_ensures(draw_op, (op,), out),
    ensures
        op matches DrawOp::Text(text) ==> painted(g, out@) == seq![(g.marks, Draw::Text(text))],
        op is Clip || op is Concat || op is Save || op is Restore ==> painted(g, out@).len() == 0,
        op matches DrawOp::Clip(shape) ==> out@ == (if outlines(*shape) {
            seq![Draw::Clip(shape)]
        } else {
            Seq::empty()
        }),
        op matches DrawOp::Concat(m) ==> out@ == seq![Draw::Concat(*m)],
        op is Save ==> out@ == seq![Draw::Save],
        op is Restore ==> out@ == seq![Draw::Restore],
{
    if out@.len() == 1 {
        lemma_painted_one(g, out@);
    }
}

/// A shape's path is the shape: the same rectangle, radius, angles, points, segments and fill rule. A
/// polygon goes to its first point, by a line to each other one, and back.
pub proof fn law_path_is_the_shape(shape: &Shape, r: Option<PathPlan>, i: int)
    requires
        call_ensures(bezier, (shape,), r),
    ensures
        r is Some <==> outlines(*shape),
        shape matches Shape::Rect(a) ==> r == Some(PathPlan::Rect(*a)),
        shape matches Shape::RoundedRect(a, radius) ==> r == Some(PathPlan::RoundedRect(*a, *radius)),
        shape matches Shape::Ellipse(a) ==> r == Some(PathPlan::Oval(*a)),
        shape matches Shape::Arc { rect, start_deg, sweep_deg } ==> r == Some(
            PathPlan::Arc { rect: *rect, start_deg: *start_deg, sweep_deg: *sweep_deg },
        ),
        shape matches Shape::Line(a, b) ==> r matches Some(PathPlan::Segs { segs, even_odd })
            && segs@.len() == 2 && segs@[0] == PathSeg::Move(*a) && segs@[1] == PathSeg::Line(*b)
            && !even_odd,
        shape matches Shape::Path { segs: own, even_odd: rule } ==> own@.len() > 0 ==> (r matches Some(
            PathPlan::Segs { segs, even_odd },
        ) && segs@ == own@ && even_odd == rule),
        shape matches Shape::Polygon(points) ==> points@.len() >= 2 ==> (r matches Some(
            PathPlan::Segs { segs, even_odd },
        ) && segs@.len() == points@.len() + 1 && segs@[0] == PathSeg::Move(points@[0]) && (0 < i
            < points@.len() ==> segs@[i] == PathSeg::Line(points@[i])) && segs@.last()
            == PathSeg::Close && !even_odd),
{
}

/// A stroke's style goes on its path: nothing where all of it is the default, else its own cap, join
/// and miter limit, dashed exactly when it has dashes.
pub proof fn law_stroke_keeps_its_style(style: &StrokeStyle, r: Option<StrokeDetail>)
    requires
        call_ensures(stroke_detail, (style,), r),
    ensures
        r matches Some(d) ==> d.cap == style.cap && d.join == style.join && d.miter_limit
            == style.miter_limit && (d.dashed <==> style.dash@.len() > 0),
        style.cap != LineCap::Butt ==> r is Some,
        style.join != LineJoin::Miter ==> r is Some,
        style.dash@.len() > 0 ==> r is Some,
        !style.miter_limit.same_spec(Scalar(0x4024_0000_0000_0000)) ==> r is Some,
        style.cap == LineCap::Butt && style.join == LineJoin::Miter && style.dash@.len() == 0
            && style.miter_limit == Scalar(0x4024_0000_0000_0000) && style.miter_limit.is_number() ==> r is None,
{
}

} // verus!
