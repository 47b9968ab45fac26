//! Target/action controls: which control event each control listens to, and what it reports.

use crate::event::Event;
use crate::types::Scalar;
use vstd::prelude::*;

verus! {

/// The control that fired, with what it holds.
pub enum Sender {
    Switch(bool),
    Slider(Scalar),
    Field(Option<String>),
    Other,
}

fn text_or_empty(text: Option<String>) -> (r: String)
    ensures
        r@ == (match text {
            Some(t) => t@,
            None => Seq::empty(),
        }),
{
    match text {
        Some(t) => t,
        None => {
            proof {
                reveal_strlit("");
            }
            let r = "".to_string();
            proof {
                assert(r@ =~= Seq::<char>::empty());
            }
            r
        },
    }
}

/// A control's own event: a switch, slider or field reports its value, anything else a press.
pub fn fire(sender: Sender) -> (r: Event)
    ensures
        match sender {
            Sender::Switch(on) => r == Event::ToggleChanged(on),
            Sender::Slider(v) => r == Event::ValueChanged(v),
            Sender::Field(text) => r matches Event::TextChanged(s) && s@ == (match text {
                Some(t) => t@,
                None => Seq::empty(),
            }),
            Sender::Other => r is Pressed,
        },
{
    match sender {
        Sender::Switch(on) => Event::ToggleChanged(on),
        Sender::Slider(v) => Event::ValueChanged(v),
        Sender::Field(text) => Event::TextChanged(text_or_empty(text)),
        Sender::Other => Event::Pressed,
    }
}

/// A slider's interaction ended: the value under the finger is the one the user chose.
pub fn commit(sender: Sender) -> (r: Option<Event>)
    ensures
        match sender {
            Sender::Slider(v) => r == Some(Event::ValueCommitted(v)),
            _ => r is None,
        },
{
    match sender {
        Sender::Slider(v) => Some(Event::ValueCommitted(v)),
        _ => None,
    }
}

/// The text field that owns the keyboard.
pub struct Focus {
    pub field: Option<usize>,
}

impl Focus {
    pub fn new() -> (f: Focus)
        ensures
            f.field is None,
    {
        Focus { field: None }
    }

    /// Editing began: the field owns the keyboard, is revealed, and reports focus.
    pub fn edit_began(&mut self, field: usize) -> (r: Event)
        ensures
            final(self).field == Some(field),
            r == Event::FocusChanged(true),
    {
        self.field = Some(field);
        Event::FocusChanged(true)
    }

    /// Editing ended: the keyboard was dismissed, or focus moved on.
    pub fn edit_ended(&mut self) -> (r: Event)
        ensures
            final(self).field is None,
            r == Event::FocusChanged(false),
    {
        self.field = None;
        Event::FocusChanged(false)
    }

    /// The Return key.
    pub fn edit_exit(&self) -> (r: Event)
        ensures
            r is Submitted,
    {
        Event::Submitted
    }
}

/// The method of a control's target.
#[derive(Clone, Copy, PartialEq, Eq, Structural, Debug)]
pub enum Trampoline {
    Fire,
    Commit,
    EditBegan,
    EditEnded,
    EditExit,
}

/// A control event, or the two lift events together.
#[derive(Clone, Copy, PartialEq, Eq, Structural, Debug)]
pub enum ControlEvent {
    TouchUpInside,
    TouchUp,
    ValueChanged,
    EditingChanged,
    EditingDidBegin,
    EditingDidEnd,
    EditingDidEndOnExit,
}

#[derive(Clone, Copy, PartialEq, Eq, Structural, Debug)]
pub struct Wire {
    pub method: Trampoline,
    pub on: ControlEvent,
}

/// The four controls that report through a target.
#[derive(Clone, Copy, PartialEq, Eq, Structural, Debug)]
pub enum Wired {
    Button,
    Toggle,
    Slider,
    TextField,
}

pub open spec fn wires_of(control: Wired) -> Seq<Wire> {
    match control {
        Wired::Button => seq![Wire { method: Trampoline::Fire, on: ControlEvent::TouchUpInside }],
        Wired::Toggle => seq![Wire { method: Trampoline::Fire, on: ControlEvent::ValueChanged }],
        Wired::Slider => seq![
            Wire { method: Trampoline::Fire, on: ControlEvent::ValueChanged },
            Wire { method: Trampoline::Commit, on: ControlEvent::TouchUp },
        ],
        Wired::TextField => seq![
            Wire { method: Trampoline::Fire, on: ControlEvent::EditingChanged },
            Wire { method: Trampoline::EditBegan, on: ControlEvent::EditingDidBegin },
            Wire { method: Trampoline::EditEnded, on: ControlEvent::EditingDidEnd },
            Wire { method: Trampoline::EditExit, on: ControlEvent::EditingDidEndOnExit },
        ],
    }
}

/// What a control is wired to, in order.
pub fn wires(control: Wired) -> (r: Vec<Wire>)
    ensures
        r@ == wires_of(control),
{
    match control {
        Wired::Button => vec![Wire { method: Trampoline::Fire, on: ControlEvent::TouchUpInside }],
        Wired::Toggle => vec![Wire { method: Trampoline::Fire, on: ControlEvent::ValueChanged }],
        Wired::Slider => vec![
            Wire { method: Trampoline::Fire, on: ControlEvent::ValueChanged },
            Wire { method: Trampoline::Commit, on: ControlEvent::TouchUp },
        ],
        Wired::TextField => vec![
            Wire { method: Trampoline::Fire, on: ControlEvent::EditingChanged },
            Wire { method: Trampoline::EditBegan, on: ControlEvent::EditingDidBegin },
            Wire { method: Trampoline::EditEnded, on: ControlEvent::EditingDidEnd },
            Wire { method: Trampoline::EditExit, on: ControlEvent::EditingDidEndOnExit },
        ],
    }
}

/// A slider's edits and its settled value come from different control events.
pub proof fn law_slider_commits_apart_from_its_changes()
    ensures
        forall|i: int, j: int|
            0 <= i < j < wires_of(Wired::Slider).len() ==> (#[trigger] wires_of(Wired::Slider)[i]).on
                != (#[trigger] wires_of(Wired::Slider)[j]).on,
{
}

/// A control reports what it holds: a switch its state, a slider its value, a field its text, and
/// anything else that it was pressed. A slider let go reports the value it was let go at, and nothing
/// else is committed.
pub proof fn law_control_reports_what_it_holds(
    on: bool,
    v: Scalar,
    text: String,
    a: Event,
    b: Event,
    c: Event,
    d: Event,
    e: Event,
    other: Sender,
    settled: Option<Event>,
    none: Option<Event>,
)
    requires
        call_ensures(fire, (Sender::Switch(on),), a),
        call_ensures(fire, (Sender::Slider(v),), b),
        call_ensures(fire, (Sender::Field(Some(text)),), c),
        call_ensures(fire, (Sender::Field(None::<String>),), d),
        call_ensures(fire, (Sender::Other,), e),
        call_ensures(commit, (Sender::Slider(v),), settled),
        !(other is Slider),
        call_ensures(commit, (other,), none),
    ensures
        a == Event::ToggleChanged(on),
        b == Event::ValueChanged(v),
        c matches Event::TextChanged(t) && t@ == text@,
        d matches Event::TextChanged(t) && t@.len() == 0,
        e is Pressed,
        settled == Some(Event::ValueCommitted(v)),
        none is None,
{
}

/// The field whose editing began owns the keyboard until editing ends, and both are reported; the
/// Return key submits.
pub proof fn law_editing_owns_the_keyboard(
    began: &mut Focus,
    ended: &mut Focus,
    f: &Focus,
    field: usize,
    a: Event,
    b: Event,
    c: Event,
)
    requires
        call_ensures(Focus::edit_began, (began, field), a),
        call_ensures(Focus::edit_ended, (ended,), b),
        call_ensures(Focus::edit_exit, (f,), c),
    ensures
        final(began).field == Some(field),
        a == Event::FocusChanged(true),
        final(ended).field is None,
        b == Event::FocusChanged(false),
        c is Submitted,
{
}

/// Whether a control's wires call `method` on `on`.
pub open spec fn calls_on(wires: Seq<Wire>, method: Trampoline, on: ControlEvent) -> bool {
    exists|i: int| 0 <= i < wires.len() && #[trigger] wires[i] == (Wire { method, on })
}

/// Every control reports from the event that changes it: a button from a press inside it, a switch and
/// a slider from a change of value, a slider's commit from the finger's lift, and a field from its
/// edits, their beginning and end, and Return. Nothing else is wired.
pub proof fn law_controls_report_their_own_events(
    button: Vec<Wire>,
    toggle: Vec<Wire>,
    slider: Vec<Wire>,
    field: Vec<Wire>,
)
    requires
        call_ensures(wires, (Wired::Button,), button),
        call_ensures(wires, (Wired::Toggle,), toggle),
        call_ensures(wires, (Wired::Slider,), slider),
        call_ensures(wires, (Wired::TextField,), field),
    ensures
        button@.len() == 1 && calls_on(button@, Trampoline::Fire, ControlEvent::TouchUpInside),
        toggle@.len() == 1 && calls_on(toggle@, Trampoline::Fire, ControlEvent::ValueChanged),
        slider@.len() == 2 && calls_on(slider@, Trampoline::Fire, ControlEvent::ValueChanged)
            && calls_on(slider@, Trampoline::Commit, ControlEvent::TouchUp),
        field@.len() == 4 && calls_on(field@, Trampoline::Fire, ControlEvent::EditingChanged)
            && calls_on(field@, Trampoline::EditBegan, ControlEvent::EditingDidBegin) && calls_on(
            field@,
            Trampoline::EditEnded,
            ControlEvent::EditingDidEnd,
        ) && calls_on(field@, Trampoline::EditExit, ControlEvent::EditingDidEndOnExit),
{
    assert(button@[0] == (Wire { method: Trampoline::Fire, on: ControlEvent::TouchUpInside }));
    assert(toggle@[0] == (Wire { method: Trampoline::Fire, on: ControlEvent::ValueChanged }));
    assert(slider@[0] == (Wire { method: Trampoline::Fire, on: ControlEvent::ValueChanged }));
    assert(slider@[1] == (Wire { method: Trampoline::Commit, on: ControlEvent::TouchUp }));
    assert(field@[0] == (Wire { method: Trampoline::Fire, on: ControlEvent::EditingChanged }));
    assert(field@[1] == (Wire { method: Trampoline::EditBegan, on: ControlEvent::EditingDidBegin }));
    assert(field@[2] == (Wire { method: Trampoline::EditEnded, on: ControlEvent::EditingDidEnd }));
    assert(field@[3] == (Wire { method: Trampoline::EditExit, on: ControlEvent::EditingDidEndOnExit }));
}

/// Nobody owns the keyboard at first.
pub proof fn law_nobody_owns_the_keyboard_at_first(f: Focus)
    requires
        call_ensures(Focus::new, (), f),
    ensures
        f.field is None,
{
}

} // verus!
