//! Events, and the way they leave: to the installed sink, or nowhere before there is one.

use crate::split::Presentation;
use crate::types::{Point, Scalar, Size, Target};
use vstd::prelude::*;

verus! {

#[derive(Clone, Copy, PartialEq, Eq, Structural, Debug)]
pub enum Phase {
    Began,
    Changed,
    Ended,
}

#[derive(Clone, Copy, PartialEq, Eq, Structural, Debug)]
pub enum Lifecycle {
    WillEnterForeground,
    DidEnterBackground,
    DidBecomeActive,
    WillResignActive,
    DidReceiveMemoryWarning,
    WillTerminate,
}

#[derive(Clone, Copy, PartialEq, Eq, Structural, Debug)]
pub enum EditCommand {
    Cut,
    Copy,
    Paste,
    SelectAll,
}

/// What a dialog or picker was answered with.
#[derive(Debug, PartialEq, Eq)]
pub enum PresentResult {
    Dismissed,
    Button(i64),
    Text(String),
    Files(Vec<String>),
}

/// The modifiers held with a key.
#[derive(Clone, Copy, PartialEq, Eq, Structural, Debug)]
pub struct Modifiers {
    pub shift: bool,
    pub primary: bool,
    pub alt: bool,
}

#[derive(Debug, PartialEq, Eq)]
pub enum Event {
    Pressed,
    ToggleChanged(bool),
    ValueChanged(Scalar),
    ValueCommitted(Scalar),
    TextChanged(String),
    Submitted,
    FocusChanged(bool),
    SearchChanged(String),
    LinkActivated(String),
    Tap(Point),
    Drag { phase: Phase, location: Point, travel: Point },
    Pan { phase: Phase, delta: Point, location: Point },
    Pinch { phase: Phase, scale: Scalar, location: Point },
    Hover { phase: Phase, location: Point },
    Key { name: String, modifiers: Modifiers },
    SelectionChanged(i64),
    TreeExpanded { token: u64, expanded: bool },
    TreeSelection(Vec<u64>),
    FrameChanged(Size),
    NavBack { already_popped: bool },
    NavPresentationChanged(Presentation),
    CoverHidden,
    MenuAction(u64),
    ToolbarToggled { action: u64, on: bool },
    ToolbarSelected { action: u64, index: usize },
    PresentResult { req: u64, result: PresentResult },
    Undo { redo: bool },
    Edit(EditCommand),
    RouteRequested(String),
    Lifecycle(Lifecycle),
    WindowResized(Size),
    WindowFocused(bool),
    WindowClosed,
}

/// The sink the app installed last, by its token.
#[derive(Clone, Copy, PartialEq, Eq, Structural, Debug)]
pub struct Sink {
    pub installed: Option<u64>,
}

/// A call of a sink, with what it is handed.
#[derive(Debug, PartialEq, Eq)]
pub struct Call {
    pub sink: u64,
    pub to: Target,
    pub event: Event,
}

impl Sink {
    pub fn new() -> (s: Sink)
        ensures
            s.installed is None,
    {
        Sink { installed: None }
    }

    /// `token` hears everything from now on, and no earlier sink hears anything.
    pub fn install(&mut self, token: u64)
        ensures
            final(self).installed == Some(token),
    {
        self.installed = Some(token);
    }

    /// The one call an emission makes.
    pub open spec fn call(self, id: Target, ev: Event) -> Option<Call> {
        match self.installed {
            Some(sink) => Some(Call { sink, to: id, event: ev }),
            None => None,
        }
    }
}

/// Whether a lifecycle phase reaches the app: a mobile platform delivers all of them.
pub fn lifecycle_supported(_phase: Lifecycle) -> (r: bool)
    ensures
        r,
{
    true
}

/// Emit `ev` under `id`: the call to make at once, or none without a sink. Nothing is kept or
/// changed, so that the sink may itself emit, or install another sink, while it is called.
pub fn emit(sink: &Sink, id: Target, ev: Event) -> (r: Option<Call>)
    ensures
        r == sink.call(id, ev),
{
    match sink.installed {
        Some(token) => Some(Call { sink: token, to: id, event: ev }),
        None => None,
    }
}

/// What can happen to the sink.
pub enum SinkAct {
    Install(u64),
    /// An emission, and what the sink does while it is called.
    Emit(Target, Event, Seq<SinkAct>),
}

/// The sink in force after `acts`, and the calls made, in the order they begin.
pub open spec fn run(sink: Sink, acts: Seq<SinkAct>) -> (Sink, Seq<Call>)
    decreases acts,
{
    if acts.len() == 0 {
        (sink, Seq::empty())
    } else {
        let (before, calls) = run(sink, acts.drop_last());
        match acts.last() {
            SinkAct::Install(token) => (Sink { installed: Some(token) }, calls),
            SinkAct::Emit(id, ev, during) => match before.call(id, ev) {
                Some(call) => {
                    let (after, nested) = run(before, during);
                    (after, calls.push(call) + nested)
                },
                None => (before, calls),
            },
        }
    }
}

/// Every emission calls the sink installed last exactly once, with what was emitted, before it
/// returns: the call comes before those the sink itself gives rise to, and all of them before
/// anything later. Without a sink it does nothing.
pub proof fn law_emission_is_one_call(
    sink: Sink,
    acts: Seq<SinkAct>,
    id: Target,
    ev: Event,
    during: Seq<SinkAct>,
)
    ensures
        ({
            let (before, calls) = run(sink, acts);
            let emitted = run(sink, acts.push(SinkAct::Emit(id, ev, during)));
            match before.installed {
                Some(token) => emitted == (
                    run(before, during).0,
                    calls.push(Call { sink: token, to: id, event: ev }) + run(before, during).1,
                ),
                None => emitted == (before, calls),
            }
        }),
{
    assert(acts.push(SinkAct::Emit(id, ev, during)).drop_last() =~= acts);
}

/// A sink installed is the one called from then on, whatever was installed before.
pub proof fn law_last_sink_hears(sink: Sink, acts: Seq<SinkAct>, token: u64, id: Target, ev: Event)
    ensures
        run(sink, acts.push(SinkAct::Install(token))).0.call(id, ev) == Some(
            Call { sink: token, to: id, event: ev },
        ),
        run(sink, acts.push(SinkAct::Install(token))).1 == run(sink, acts).1,
{
    assert(acts.push(SinkAct::Install(token)).drop_last() =~= acts);
}

/// What is emitted reaches the sink installed last, once, under the name it was emitted for; without a
/// sink nobody hears it.
pub proof fn law_emission_reaches_the_sink_in_force(
    fresh: Sink,
    early: Option<Call>,
    sink: &mut Sink,
    token: u64,
    id: Target,
    ev: Event,
    r: Option<Call>,
)
    requires
        call_ensures(Sink::new, (), fresh),
        call_ensures(emit, (&fresh, id, ev), early),
        call_ensures(Sink::install, (sink, token), ()),
        call_ensures(emit, (&*final(sink), id, ev), r),
    ensures
        early is None,
        r matches Some(call) && call.sink == token && call.to == id && call.event == ev,
{
}

/// Every phase of the app's life is delivered.
pub proof fn law_every_phase_is_delivered(phase: Lifecycle, r: bool)
    requires
        call_ensures(lifecycle_supported, (phase,), r),
    ensures
        r,
{
}

} // verus!
