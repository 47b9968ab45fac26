//! Attributed text: byte ranges become UTF-16 ranges, and runs become attributes.

use crate::font::FontSpec;
use crate::types::Color;
use vstd::prelude::*;

verus! {

/// How many bytes a character takes in UTF-8.
pub open spec fn utf8_len(c: char) -> nat {
    if (c as u32) < 0x80 {
        1
    } else if (c as u32) < 0x800 {
        2
    } else if (c as u32) < 0x10000 {
        3
    } else {
        4
    }
}

/// How many units a character takes in UTF-16.
pub open spec fn utf16_len(c: char) -> nat {
    if (c as u32) < 0x10000 {
        1
    } else {
        2
    }
}

/// The bytes of the first `i` characters.
pub open spec fn bytes_before(text: Seq<char>, i: int) -> nat
    decreases i,
{
    if i <= 0 {
        0
    } else {
        bytes_before(text, i - 1) + utf8_len(text[i - 1])
    }
}

/// The UTF-16 units of the first `i` characters.
pub open spec fn units_before(text: Seq<char>, i: int) -> nat
    decreases i,
{
    if i <= 0 {
        0
    } else {
        units_before(text, i - 1) + utf16_len(text[i - 1])
    }
}

/// `byte` is where character `i` starts, or the end of the text.
pub open spec fn boundary(text: Seq<char>, byte: nat, i: int) -> bool {
    0 <= i <= text.len() && bytes_before(text, i) == byte
}

fn width8(c: char) -> (r: usize)
    ensures
        r == utf8_len(c),
{
    let n: u32 = c as u32;
    if n < 0x80 {
        1
    } else if n < 0x800 {
        2
    } else if n < 0x10000 {
        3
    } else {
        4
    }
}

fn width16(c: char) -> (r: usize)
    ensures
        r == utf16_len(c),
{
    let n: u32 = c as u32;
    if n < 0x10000 {
        1
    } else {
        2
    }
}

proof fn lemma_bytes_grow(text: Seq<char>, i: int, j: int)
    requires
        0 <= i <= j <= text.len(),
    ensures
        bytes_before(text, i) <= bytes_before(text, j),
        units_before(text, i) <= units_before(text, j),
        units_before(text, i) <= bytes_before(text, i),
        i < j ==> bytes_before(text, i) < bytes_before(text, j),
    decreases j,
{
    if i < j {
        lemma_bytes_grow(text, i, j - 1);
    } else if i > 0 {
        lemma_bytes_grow(text, i - 1, i - 1);
    }
}

/// The UTF-16 offset of byte `byte`; none inside a character or past the end.
fn units_at(text: &str, byte: usize) -> (r: Option<usize>)
    ensures
        match r {
            Some(units) => exists|i: int|
                boundary(text@, byte as nat, i) && units == units_before(text@, i),
            None => forall|i: int| !boundary(text@, byte as nat, i),
        },
{
    let n: usize = text.unicode_len();
    let mut i: usize = 0;
    let mut bytes: usize = 0;
    let mut units: usize = 0;
    while i < n && bytes < byte
        invariant
            i <= n,
            n == text@.len(),
            bytes == bytes_before(text@, i as int),
            units == units_before(text@, i as int),
            units <= bytes,
            bytes <= byte,
        decreases n - i,
    {
        let c: char = text.get_char(i);
        let w: usize = width8(c);
        if byte - bytes < w {
            proof {
                assert forall|k: int| !boundary(text@, byte as nat, k) by {
                    if 0 <= k <= text@.len() {
                        if k <= i {
                            lemma_bytes_grow(text@, k, i as int);
                        } else {
                            lemma_bytes_grow(text@, i + 1, k);
                        }
                    }
                }
            }
            return None;
        }
        bytes = bytes + w;
        units = units + width16(c);
        i = i + 1;
    }
    if bytes == byte {
        proof {
            assert(boundary(text@, byte as nat, i as int));
        }
        Some(units)
    } else {
        proof {
            assert forall|k: int| !boundary(text@, byte as nat, k) by {
                if 0 <= k <= text@.len() {
                    lemma_bytes_grow(text@, k, i as int);
                }
            }
        }
        None
    }
}

/// A range of UTF-16 units.
#[derive(Clone, Copy, PartialEq, Eq, Structural, Debug)]
pub struct Utf16Range {
    pub at: usize,
    pub len: usize,
}

/// The bytes from `start` to `end` are the characters from `i` to `j`.
pub open spec fn spans(text: Seq<char>, start: nat, end: nat, i: int, j: int) -> bool {
    start <= end && boundary(text, start, i) && boundary(text, end, j)
}

/// A byte range as a range of units; none when it does not lie between characters.
pub open spec fn range_of(text: Seq<char>, start: nat, end: nat) -> Option<Utf16Range> {
    if exists|i: int, j: int| spans(text, start, end, i, j) {
        let (i, j) = choose|i: int, j: int| spans(text, start, end, i, j);
        Some(
            Utf16Range {
                at: units_before(text, i) as usize,
                len: (units_before(text, j) - units_before(text, i)) as usize,
            },
        )
    } else {
        None
    }
}

/// A byte range as a range of UTF-16 units; none when it does not lie between characters.
pub fn utf16_range(text: &str, start: usize, end: usize) -> (r: Option<Utf16Range>)
    ensures
        r == range_of(text@, start as nat, end as nat),
        match r {
            Some(range) => exists|i: int, j: int|
                spans(text@, start as nat, end as nat, i, j) && range.at == units_before(text@, i)
                    && range.len == units_before(text@, j) - units_before(text@, i),
            None => forall|i: int, j: int| !spans(text@, start as nat, end as nat, i, j),
        },
{
    if start > end {
        return None;
    }
    match (units_at(text, start), units_at(text, end)) {
        (Some(a), Some(b)) => {
            proof {
                let i = choose|i: int|
                    boundary(text@, start as nat, i) && a == units_before(text@, i);
                let j = choose|j: int| boundary(text@, end as nat, j) && b == units_before(text@, j);
                if j < i {
                    lemma_bytes_grow(text@, j, i);
                }
                lemma_bytes_grow(text@, i, j);
                assert(spans(text@, start as nat, end as nat, i, j));
                let (k, l) = choose|k: int, l: int| spans(text@, start as nat, end as nat, k, l);
                law_ranges_are_unique(text@, start as nat, end as nat, i, j, k, l);
            }
            Some(Utf16Range { at: a, len: b - a })
        },
        _ => None,
    }
}

#[derive(Clone, Copy, PartialEq, Eq, Structural, Debug)]
pub enum Underline {
    Off,
    Single,
    Double,
    Dotted,
    Wavy,
}

/// The platform's underline style: the line in the low byte, the pattern in the second.
pub fn ns_underline(u: Underline) -> (r: i64)
    ensures
        r == (match u {
            Underline::Off => 0i64,
            Underline::Single => 0x01i64,
            Underline::Double => 0x09i64,
            Underline::Dotted => 0x0101i64,
            Underline::Wavy => 0x0401i64,
        }),
{
    match u {
        Underline::Off => 0,
        Underline::Single => 0x01,
        Underline::Double => 0x09,
        Underline::Dotted => 0x0101,
        Underline::Wavy => 0x0401,
    }
}

/// One styled run of a label, by bytes.
#[derive(Debug)]
pub struct TextRun {
    pub start: usize,
    pub end: usize,
    pub font: FontSpec,
    pub color: Option<Color>,
    pub background: Option<Color>,
    pub underline: Underline,
    pub strikethrough: bool,
    pub link: Option<String>,
}

/// One attribute of a label's text.
#[derive(Clone, Copy, Debug)]
pub enum Attr<'a> {
    /// The label's own font.
    BaseFont,
    Font(&'a FontSpec),
    Foreground(Color),
    /// The color plain text has in either appearance.
    AdaptiveForeground,
    Background(Color),
    Underline(Underline),
    Strikethrough,
    Link(&'a String),
}

pub open spec fn color_attr<'a>(c: Option<Color>, back: bool) -> Seq<Attr<'a>> {
    match c {
        Some(c) => if back {
            seq![Attr::Background(c)]
        } else {
            seq![Attr::Foreground(c)]
        },
        None => Seq::empty(),
    }
}

/// The attributes of a run: its font always, the others as it declares them.
pub open spec fn run_attrs<'a>(run: &'a TextRun) -> Seq<Attr<'a>> {
    seq![Attr::Font(&run.font)] + color_attr(run.color, false) + color_attr(run.background, true) + (
    if run.underline == Underline::Off {
        Seq::empty()
    } else {
        seq![Attr::Underline(run.underline)]
    }) + (if run.strikethrough {
        seq![Attr::Strikethrough]
    } else {
        Seq::empty()
    }) + (match run.link {
        Some(link) => seq![Attr::Link(&link)],
        None => Seq::empty(),
    })
}

pub fn attributes<'a>(run: &'a TextRun) -> (out: Vec<Attr<'a>>)
    ensures
        out@ == run_attrs(run),
{
    let mut out: Vec<Attr<'a>> = Vec::new();
    out.push(Attr::Font(&run.font));
    match run.color {
        Some(c) => {
            out.push(Attr::Foreground(c));
        },
        None => {},
    }
    match run.background {
        Some(c) => {
            out.push(Attr::Background(c));
        },
        None => {},
    }
    if run.underline != Underline::Off {
        out.push(Attr::Underline(run.underline));
    }
    if run.strikethrough {
        out.push(Attr::Strikethrough);
    }
    match &run.link {
        Some(link) => {
            out.push(Attr::Link(link));
        },
        None => {},
    }
    proof {
        assert(out@ =~= run_attrs(run));
    }
    out
}

/// What an attribute is set over.
#[derive(Clone, Copy, PartialEq, Eq, Structural, Debug)]
pub enum Extent {
    Whole,
    Range(Utf16Range),
}

/// One attribute set on a label's text. Of two that say the same of a unit, the later wins.
#[derive(Clone, Copy, Debug)]
pub struct Applied<'a> {
    pub over: Extent,
    pub attr: Attr<'a>,
}

/// The foreground of text that no run colors: the label's own color, or the adaptive default. A
/// text view draws a range without a foreground in black, so there is always one.
pub open spec fn base_ink<'a>(color: Option<Color>) -> Attr<'a> {
    match color {
        Some(c) => Attr::Foreground(c),
        None => Attr::AdaptiveForeground,
    }
}

/// What the whole text has before any run.
pub open spec fn base_attrs<'a>(color: Option<Color>) -> Seq<Applied<'a>> {
    seq![
        Applied { over: Extent::Whole, attr: Attr::BaseFont },
        Applied { over: Extent::Whole, attr: base_ink(color) },
    ]
}

/// Attributes, each set over `range`.
pub open spec fn over<'a>(range: Utf16Range, attrs: Seq<Attr<'a>>) -> Seq<Applied<'a>> {
    Seq::new(attrs.len(), |i: int| Applied { over: Extent::Range(range), attr: attrs[i] })
}

/// Run `k`'s place on the text, if it lies between characters.
pub open spec fn place_of(text: Seq<char>, runs: Seq<TextRun>, k: int) -> Option<Utf16Range> {
    range_of(text, runs[k].start as nat, runs[k].end as nat)
}

/// The attributes of a label with its first `n` runs: the whole text's, then each run's in order. A
/// run that does not lie between characters has none.
pub open spec fn label_attrs<'a>(
    text: Seq<char>,
    color: Option<Color>,
    runs: Seq<TextRun>,
    n: int,
) -> Seq<Applied<'a>>
    decreases n,
{
    if n <= 0 {
        base_attrs(color)
    } else {
        label_attrs(text, color, runs, n - 1) + match place_of(text, runs, n - 1) {
            Some(range) => over(range, run_attrs(&runs[n - 1])),
            None => Seq::empty(),
        }
    }
}

/// The attributes of a label, in the order they are set.
pub fn attributed_label<'a>(text: &str, color: Option<Color>, runs: &'a Vec<TextRun>) -> (out: Vec<
    Applied<'a>,
>)
    ensures
        out@ == label_attrs(text@, color, runs@, runs@.len() as int),
{
    let mut out: Vec<Applied<'a>> = Vec::new();
    out.push(Applied { over: Extent::Whole, attr: Attr::BaseFont });
    let ink = match color {
        Some(c) => Attr::Foreground(c),
        None => Attr::AdaptiveForeground,
    };
    out.push(Applied { over: Extent::Whole, attr: ink });
    let n: usize = runs.len();
    proof {
        assert(out@ =~= base_attrs(color));
    }
    for k in 0..n
        invariant
            n == runs@.len(),
            out@ == label_attrs(text@, color, runs@, k as int),
    {
        match utf16_range(text, runs[k].start, runs[k].end) {
            Some(range) => {
                let attrs = attributes(&runs[k]);
                let ghost before = out@;
                let m: usize = attrs.len();
                for i in 0..m
                    invariant
                        m == attrs@.len(),
                        out@ == before + over(range, attrs@).take(i as int),
                {
                    out.push(Applied { over: Extent::Range(range), attr: attrs[i] });
                    proof {
                        assert(out@ =~= before + over(range, attrs@).take(i + 1));
                    }
                }
                proof {
                    assert(over(range, attrs@).take(m as int) =~= over(range, attrs@));
                }
            },
            None => {
                proof {
                    assert(out@ + Seq::<Applied<'a>>::empty() =~= out@);
                }
            },
        }
    }
    out
}

pub open spec fn has_link(runs: Seq<TextRun>) -> bool {
    exists|i: int| 0 <= i < runs.len() && (#[trigger] runs[i]).link is Some
}

/// Whether a label is built as a read-only text view: one that arrives with a link, since a plain
/// label cannot be tapped.
pub fn needs_link_view(runs: &Vec<TextRun>) -> (r: bool)
    ensures
        r == has_link(runs@),
{
    let n: usize = runs.len();
    for i in 0..n
        invariant
            n == runs@.len(),
            forall|j: int| 0 <= j < i ==> (#[trigger] runs@[j]).link is None,
    {
        if runs[i].link.is_some() {
            return true;
        }
    }
    false
}

/// Whether an attribute is set on unit `u`.
pub open spec fn covers(over: Extent, u: int) -> bool {
    match over {
        Extent::Whole => true,
        Extent::Range(r) => r.at <= u < r.at + r.len,
    }
}

pub open spec fn is_font(attr: Attr) -> bool {
    attr is BaseFont || attr is Font
}

pub open spec fn is_ink(attr: Attr) -> bool {
    attr is Foreground || attr is AdaptiveForeground
}

/// The font unit `u` is drawn in.
pub open spec fn font_at<'a>(attrs: Seq<Applied<'a>>, u: int) -> Option<Attr<'a>>
    decreases attrs.len(),
{
    if attrs.len() == 0 {
        None
    } else if covers(attrs.last().over, u) && is_font(attrs.last().attr) {
        Some(attrs.last().attr)
    } else {
        font_at(attrs.drop_last(), u)
    }
}

/// The foreground unit `u` is drawn in.
pub open spec fn ink_at<'a>(attrs: Seq<Applied<'a>>, u: int) -> Option<Attr<'a>>
    decreases attrs.len(),
{
    if attrs.len() == 0 {
        None
    } else if covers(attrs.last().over, u) && is_ink(attrs.last().attr) {
        Some(attrs.last().attr)
    } else {
        ink_at(attrs.drop_last(), u)
    }
}

/// Whether run `k` lies on unit `u`.
pub open spec fn run_on(text: Seq<char>, runs: Seq<TextRun>, k: int, u: int) -> bool {
    place_of(text, runs, k) matches Some(range) && covers(Extent::Range(range), u)
}

/// The font of the last of the first `n` runs that lies on unit `u`, else the label's own.
pub open spec fn last_font<'a>(text: Seq<char>, runs: Seq<TextRun>, n: int, u: int) -> Attr<'a>
    decreases n,
{
    if n <= 0 {
        Attr::BaseFont
    } else if run_on(text, runs, n - 1, u) {
        Attr::Font(&runs[n - 1].font)
    } else {
        last_font(text, runs, n - 1, u)
    }
}

/// The color of the last of the first `n` runs that lies on unit `u` and has one, else the label's
/// own foreground.
pub open spec fn last_ink<'a>(
    text: Seq<char>,
    color: Option<Color>,
    runs: Seq<TextRun>,
    n: int,
    u: int,
) -> Attr<'a>
    decreases n,
{
    if n <= 0 {
        base_ink(color)
    } else if run_on(text, runs, n - 1, u) && runs[n - 1].color is Some {
        Attr::Foreground(runs[n - 1].color->0)
    } else {
        last_ink(text, color, runs, n - 1, u)
    }
}

proof fn lemma_set_later<'a>(a: Seq<Applied<'a>>, b: Seq<Applied<'a>>, u: int)
    ensures
        font_at(a + b, u) == (if font_at(b, u) is Some {
            font_at(b, u)
        } else {
            font_at(a, u)
        }),
        ink_at(a + b, u) == (if ink_at(b, u) is Some {
            ink_at(b, u)
        } else {
            ink_at(a, u)
        }),
    decreases b.len(),
{
    if b.len() == 0 {
        assert(a + b == a);
    } else {
        assert((a + b).drop_last() == a + b.drop_last());
        assert((a + b).last() == b.last());
        lemma_set_later(a, b.drop_last(), u);
    }
}

/// What a run sets on a unit: its font, and its color if it has one.
proof fn lemma_run_sets<'a>(range: Utf16Range, run: &'a TextRun, u: int)
    ensures
        font_at(over(range, run_attrs(run)), u) == (if covers(Extent::Range(range), u) {
            Some(Attr::Font(&run.font))
        } else {
            None
        }),
        ink_at(over(range, run_attrs(run)), u) == (if covers(Extent::Range(range), u)
            && run.color is Some {
            Some(Attr::Foreground(run.color->0))
        } else {
            None
        }),
{
    let all = run_attrs(run);
    let set = over(range, all);
    let font = seq![Attr::Font(&run.font)];
    let ink = color_attr(run.color, false);
    let head = font + ink;
    let h = head.len() as int;
    assert(all.take(h) =~= head);
    let rest = set.skip(h);
    assert(set =~= over(range, head) + rest);
    assert(over(range, head) =~= over(range, font) + over(range, ink));
    lemma_set_later(over(range, head), rest, u);
    lemma_set_later(over(range, font), over(range, ink), u);
    assert forall|i: int| 0 <= i < rest.len() implies !is_font((#[trigger] rest[i]).attr) && !is_ink(
        rest[i].attr,
    ) by {
        assert(rest[i].attr == all[h + i]);
    }
    lemma_neither(rest, u);
    assert(over(range, font).drop_last() =~= Seq::<Applied<'a>>::empty());
    if run.color is Some {
        assert(over(range, ink).drop_last() =~= Seq::<Applied<'a>>::empty());
    } else {
        assert(over(range, ink) =~= Seq::<Applied<'a>>::empty());
    }
    reveal_with_fuel(font_at, 2);
    reveal_with_fuel(ink_at, 2);
}

proof fn lemma_neither<'a>(attrs: Seq<Applied<'a>>, u: int)
    requires
        forall|i: int|
            0 <= i < attrs.len() ==> !is_font((#[trigger] attrs[i]).attr) && !is_ink(attrs[i].attr),
    ensures
        font_at(attrs, u) is None,
        ink_at(attrs, u) is None,
    decreases attrs.len(),
{
    if attrs.len() > 0 {
        lemma_neither(attrs.drop_last(), u);
    }
}

/// Every unit of a label has a font and a foreground: those of the last run on it that says, else
/// the label's own, the adaptive default where it has no color. A run that does not lie between
/// characters is skipped, and the others still apply.
pub proof fn law_every_unit_has_font_and_ink<'a>(
    text: Seq<char>,
    color: Option<Color>,
    runs: Seq<TextRun>,
    n: int,
    u: int,
)
    ensures
        font_at(label_attrs(text, color, runs, n), u) == Some(last_font(text, runs, n, u)),
        ink_at(label_attrs(text, color, runs, n), u) == Some(last_ink(text, color, runs, n, u)),
    decreases n,
{
    if n <= 0 {
        let base: Seq<Applied> = base_attrs(color);
        assert(base.drop_last() =~= seq![base[0]]);
        reveal_with_fuel(font_at, 3);
        reveal_with_fuel(ink_at, 3);
    } else {
        law_every_unit_has_font_and_ink(text, color, runs, n - 1, u);
        let before: Seq<Applied> = label_attrs(text, color, runs, n - 1);
        match place_of(text, runs, n - 1) {
            Some(range) => {
                lemma_run_sets(range, &runs[n - 1], u);
                lemma_set_later(before, over(range, run_attrs(&runs[n - 1])), u);
            },
            None => {
                assert(before + Seq::<Applied>::empty() =~= before);
            },
        }
    }
}

/// A byte range between characters names one range of units: there is no second reading.
pub proof fn law_ranges_are_unique(text: Seq<char>, start: nat, end: nat, i: int, j: int, k: int, l: int)
    requires
        spans(text, start, end, i, j),
        spans(text, start, end, k, l),
    ensures
        i == k,
        j == l,
{
    if i < k {
        lemma_bytes_grow(text, i, k);
    } else {
        lemma_bytes_grow(text, k, i);
    }
    if j < l {
        lemma_bytes_grow(text, j, l);
    } else {
        lemma_bytes_grow(text, l, j);
    }
}

/// The whole text is one range, from its start to its end.
pub proof fn law_whole_text_is_a_range(text: Seq<char>)
    ensures
        spans(text, 0, bytes_before(text, text.len() as int), 0, text.len() as int),
{
}

/// Each character takes one to four bytes and one or two units, by its number; and the bytes of one
/// character are the units of that character, right behind those of the characters before it.
pub proof fn law_character_is_its_own_range(text: &str, i: int, start: usize, end: usize, r: Option<Utf16Range>)
    requires
        0 <= i < text@.len(),
        start == bytes_before(text@, i) && end == bytes_before(text@, i + 1),
        units_before(text@, i + 1) <= usize::MAX,
        call_ensures(utf16_range, (text, start, end), r),
    ensures
        bytes_before(text@, 0) == 0 && units_before(text@, 0) == 0,
        ({
            let c = text@[i] as u32;
            let bytes: int = if c <= 0x7f {
                1
            } else if c <= 0x7ff {
                2
            } else if c <= 0xffff {
                3
            } else {
                4
            };
            let units: int = if c <= 0xffff {
                1
            } else {
                2
            };
            &&& end == start + bytes
            &&& units_before(text@, i + 1) == units_before(text@, i) + units
            &&& r matches Some(range) && range.at == units_before(text@, i) && range.len == units
        }),
{
    let (s, e) = (start as nat, end as nat);
    assert(spans(text@, s, e, i, i + 1));
    let (k, l) = choose|k: int, l: int| spans(text@, s, e, k, l);
    law_ranges_are_unique(text@, s, e, i, i + 1, k, l);
}

proof fn lemma_plain_text(text: Seq<char>, i: int)
    requires
        0 <= i <= text.len(),
        forall|k: int| 0 <= k < text.len() ==> (#[trigger] text[k]) as u32 <= 0x7f,
    ensures
        bytes_before(text, i) == i,
        units_before(text, i) == i,
    decreases i,
{
    if i > 0 {
        lemma_plain_text(text, i - 1);
    }
}

/// In text of the smallest characters a range is the same by bytes and by units, from any character to
/// any later one; and there is none past its end, or backwards.
pub proof fn law_plain_text_keeps_its_ranges(text: &str, start: usize, end: usize, r: Option<Utf16Range>)
    requires
        forall|k: int| 0 <= k < text@.len() ==> (#[trigger] text@[k]) as u32 <= 0x7f,
        call_ensures(utf16_range, (text, start, end), r),
    ensures
        start <= end <= text@.len() ==> r == Some(Utf16Range { at: start, len: (end - start) as usize }),
        start > end || end > text@.len() ==> r is None,
{
    let (s, e) = (start as nat, end as nat);
    if start <= end <= text@.len() {
        lemma_plain_text(text@, start as int);
        lemma_plain_text(text@, end as int);
        assert(spans(text@, s, e, start as int, end as int));
        let (k, l) = choose|k: int, l: int| spans(text@, s, e, k, l);
        law_ranges_are_unique(text@, s, e, start as int, end as int, k, l);
    } else if exists|i: int, j: int| spans(text@, s, e, i, j) {
        let (i, j) = choose|i: int, j: int| spans(text@, s, e, i, j);
        lemma_plain_text(text@, i);
        lemma_plain_text(text@, j);
    }
}

/// Every underline is drawn as what it is.
pub proof fn law_underlines_are_drawn_as_themselves(u: Underline, r: i64)
    requires
        call_ensures(ns_underline, (u,), r),
    ensures
        r == 0 <==> u == Underline::Off,
        r == 0x01 <==> u == Underline::Single,
        r == 0x09 <==> u == Underline::Double,
        r == 0x0101 <==> u == Underline::Dotted,
        r == 0x0401 <==> u == Underline::Wavy,
{
}

/// A run has its font first, and beside it exactly what it declares: its color in front, its background
/// behind, its line, its strike and its link.
pub proof fn law_run_has_what_it_declares<'a>(run: &'a TextRun, r: Vec<Attr<'a>>, i: int)
    requires
        call_ensures(attributes, (run,), r),
    ensures
        r@.len() > 0 && r@[0] == Attr::Font(&run.font),
        run.color matches Some(c) ==> r@.contains(Attr::Foreground(c)),
        run.background matches Some(c) ==> r@.contains(Attr::Background(c)),
        run.underline != Underline::Off ==> r@.contains(Attr::Underline(run.underline)),
        run.strikethrough ==> r@.contains(Attr::Strikethrough),
        run.link matches Some(link) ==> r@.contains(Attr::Link(&link)),
        0 < i < r@.len() ==> match r@[i] {
            Attr::BaseFont => false,
            Attr::AdaptiveForeground => false,
            Attr::Font(_) => false,
            Attr::Foreground(c) => run.color == Some(c),
            Attr::Background(c) => run.background == Some(c),
            Attr::Underline(u) => u == run.underline && u != Underline::Off,
            Attr::Strikethrough => run.strikethrough,
            Attr::Link(link) => run.link == Some(*link),
        },
{
    let all = run_attrs(run);
    assert(r@ == all);
    let (fore, back) = (color_attr::<'a>(run.color, false), color_attr::<'a>(run.background, true));
    let at_back = 1 + fore.len();
    let at_line = at_back + back.len();
    let at_strike: int = at_line + if run.underline == Underline::Off {
        0int
    } else {
        1int
    };
    let at_link: int = at_strike + if run.strikethrough {
        1int
    } else {
        0int
    };
    if run.color is Some {
        assert(all[1] == Attr::Foreground(run.color->0));
    }
    if run.background is Some {
        assert(all[at_back as int] == Attr::Background(run.background->0));
    }
    if run.underline != Underline::Off {
        assert(all[at_line as int] == Attr::Underline(run.underline));
    }
    if run.strikethrough {
        assert(all[at_strike] == Attr::Strikethrough);
    }
    if run.link is Some {
        assert(all[at_link] == Attr::Link(&run.link->0));
    }
}

proof fn lemma_label_prefix<'a>(
    text: Seq<char>,
    color: Option<Color>,
    a: Seq<TextRun>,
    b: Seq<TextRun>,
    n: int,
)
    requires
        n <= a.len() <= b.len(),
        forall|k: int| 0 <= k < n ==> a[k] == b[k],
    ensures
        label_attrs::<'a>(text, color, a, n) == label_attrs::<'a>(text, color, b, n),
    decreases n,
{
    if n > 0 {
        lemma_label_prefix(text, color, a, b, n - 1);
    }
}

/// A label without runs is its own font in its own color, else the adaptive one, over the whole text.
pub proof fn law_plain_label_has_its_own_ink<'a>(
    text: &str,
    color: Color,
    runs: &'a Vec<TextRun>,
    colored: Vec<Applied<'a>>,
    adaptive: Vec<Applied<'a>>,
)
    requires
        runs@.len() == 0,
        call_ensures(attributed_label, (text, Some(color), runs), colored),
        call_ensures(attributed_label, (text, None::<Color>, runs), adaptive),
    ensures
        colored@.len() == 2 && adaptive@.len() == 2,
        colored@[0] == (Applied { over: Extent::Whole, attr: Attr::BaseFont }),
        colored@[1] == (Applied { over: Extent::Whole, attr: Attr::Foreground(color) }),
        adaptive@[0] == (Applied { over: Extent::Whole, attr: Attr::BaseFont }),
        adaptive@[1] == (Applied { over: Extent::Whole, attr: Attr::AdaptiveForeground }),
{
}

/// One more run sets what it has on its own range, after everything else; a run that names no range sets
/// nothing.
pub proof fn law_later_runs_are_set_later<'a>(
    text: &str,
    color: Option<Color>,
    fewer: &'a Vec<TextRun>,
    more: &'a Vec<TextRun>,
    run: &'a TextRun,
    range: Option<Utf16Range>,
    attrs: Vec<Attr<'a>>,
    a: Vec<Applied<'a>>,
    b: Vec<Applied<'a>>,
    i: int,
)
    requires
        more@ == fewer@.push(*run),
        call_ensures(utf16_range, (text, run.start, run.end), range),
        call_ensures(attributes, (run,), attrs),
        call_ensures(attributed_label, (text, color, fewer), a),
        call_ensures(attributed_label, (text, color, more), b),
    ensures
        range is None ==> b@ == a@,
        range matches Some(at) ==> {
            &&& b@.len() == a@.len() + attrs@.len()
            &&& 0 <= i < a@.len() ==> b@[i] == a@[i]
            &&& 0 <= i < attrs@.len() ==> b@[a@.len() + i] == (Applied {
                over: Extent::Range(at),
                attr: attrs@[i],
            })
        },
{
    let n = fewer@.len() as int;
    lemma_label_prefix(text@, color, fewer@, more@, n);
    assert(more@[n] == *run);
    assert(place_of(text@, more@, n) == range);
    if range is None {
        assert(b@ =~= a@);
    }
}

/// A label with a link among its runs can be tapped, and no other.
pub proof fn law_linked_label_can_be_tapped(runs: &Vec<TextRun>, i: int, r: bool)
    requires
        call_ensures(needs_link_view, (runs,), r),
    ensures
        0 <= i < runs@.len() && runs@[i].link is Some ==> r,
        (forall|k: int| 0 <= k < runs@.len() ==> (#[trigger] runs@[k]).link is None) ==> !r,
{
    assert(r == has_link(runs@));
    if 0 <= i < runs@.len() && runs@[i].link is Some {
        assert(runs@[i].link is Some);
    }
}

} // verus!
