//! Dialogs, prompts and file pickers: what each shows, and how each answer resolves.

use crate::event::PresentResult;
use vstd::prelude::*;

verus! {

#[derive(Clone, Copy, PartialEq, Eq, Structural, Debug)]
pub enum ButtonRole {
    Default,
    Cancel,
    Destructive,
}

#[derive(Debug)]
pub struct DialogButton {
    pub label: String,
    pub role: ButtonRole,
}

#[derive(Debug)]
pub enum PresentSpec {
    Dialog { title: String, message: Option<String>, buttons: Vec<DialogButton>, sheet: bool },
    Prompt {
        title: String,
        message: Option<String>,
        placeholder: String,
        initial: String,
        ok: String,
        cancel: String,
    },
    OpenFile,
    SaveFile { src_path: String },
}

/// What choosing an action answers.
#[derive(Clone, Copy, PartialEq, Eq, Structural, Debug)]
pub enum Answer {
    Button(i64),
    /// The text the field holds.
    Text,
    Dismissed,
}

#[derive(Debug)]
pub struct AlertAction {
    pub label: String,
    pub style: ButtonRole,
    pub answer: Answer,
}

/// The text field of a prompt.
#[derive(Debug)]
pub struct AlertField {
    pub placeholder: String,
    pub initial: String,
}

/// An alert to build, retain and queue.
#[derive(Debug)]
pub struct Alert {
    pub title: String,
    pub message: Option<String>,
    /// An action sheet: where it presents as a popover it is anchored to the window's middle,
    /// without an arrow.
    pub sheet: bool,
    pub field: Option<AlertField>,
    pub actions: Vec<AlertAction>,
}

#[derive(Debug)]
pub enum PresentPlan {
    Alert(Alert),
    /// Import any one item.
    OpenPicker,
    /// Export the file at this path.
    SavePicker(String),
    /// A scripted session answers for the picker, which is not shown.
    Nothing,
}

/// Button `i` of a dialog, as an action.
pub open spec fn button_action(buttons: Seq<DialogButton>, i: int, action: AlertAction) -> bool {
    action.label == buttons[i].label && action.style == buttons[i].role && action.answer
        == Answer::Button(i as i64)
}

/// `plan` is what a request shows.
pub open spec fn shown_for(spec: PresentSpec, scripted: bool, plan: PresentPlan) -> bool {
    match spec {
        PresentSpec::Dialog { title, message, buttons, sheet } => plan
            matches PresentPlan::Alert(a) && a.title == title && a.message == message && a.sheet
            == sheet && a.field is None && a.actions@.len() == buttons@.len() && forall|i: int|
            0 <= i < buttons@.len() ==> button_action(buttons@, i, #[trigger] a.actions@[i]),
        PresentSpec::Prompt { title, message, placeholder, initial, ok, cancel } => plan
            matches PresentPlan::Alert(a) && a.title == title && a.message == message && !a.sheet
            && a.field == Some(AlertField { placeholder, initial }) && a.actions@ == seq![
            AlertAction { label: ok, style: ButtonRole::Default, answer: Answer::Text },
            AlertAction { label: cancel, style: ButtonRole::Cancel, answer: Answer::Dismissed },
        ],
        PresentSpec::OpenFile => if scripted {
            plan is Nothing
        } else {
            plan is OpenPicker
        },
        PresentSpec::SaveFile { src_path } => if scripted {
            plan is Nothing
        } else {
            plan == PresentPlan::SavePicker(src_path)
        },
    }
}

/// What a request shows. `scripted` says whether a script drives the session: it answers file
/// pickers itself, while alerts, prompts and sheets still show.
pub fn present(spec: PresentSpec, scripted: bool) -> (plan: PresentPlan)
    requires
        spec matches PresentSpec::Dialog { buttons, .. } ==> buttons@.len() <= i64::MAX,
    ensures
        shown_for(spec, scripted, plan),
{
    match spec {
        PresentSpec::Dialog { title, message, buttons, sheet } => {
            let mut actions: Vec<AlertAction> = Vec::new();
            let n: usize = buttons.len();
            for i in 0..n
                invariant
                    n == buttons@.len(),
                    n <= i64::MAX,
                    actions@.len() == i,
                    forall|j: int|
                        0 <= j < i ==> button_action(buttons@, j, #[trigger] actions@[j]),
            {
                actions.push(
                    AlertAction {
                        label: buttons[i].label.clone(),
                        style: buttons[i].role,
                        answer: Answer::Button(i as i64),
                    },
                );
            }
            PresentPlan::Alert(Alert { title, message, sheet, field: None, actions })
        },
        PresentSpec::Prompt { title, message, placeholder, initial, ok, cancel } => {
            let mut actions: Vec<AlertAction> = Vec::new();
            actions.push(
                AlertAction { label: ok, style: ButtonRole::Default, answer: Answer::Text },
            );
            actions.push(
                AlertAction {
                    label: cancel,
                    style: ButtonRole::Cancel,
                    answer: Answer::Dismissed,
                },
            );
            proof {
                assert(actions@ =~= seq![
                    AlertAction { label: ok, style: ButtonRole::Default, answer: Answer::Text },
                    AlertAction {
                        label: cancel,
                        style: ButtonRole::Cancel,
                        answer: Answer::Dismissed,
                    },
                ]);
            }
            PresentPlan::Alert(
                Alert {
                    title,
                    message,
                    sheet: false,
                    field: Some(AlertField { placeholder, initial }),
                    actions,
                },
            )
        },
        PresentSpec::OpenFile => if scripted {
            PresentPlan::Nothing
        } else {
            PresentPlan::OpenPicker
        },
        PresentSpec::SaveFile { src_path } => if scripted {
            PresentPlan::Nothing
        } else {
            PresentPlan::SavePicker(src_path)
        },
    }
}

/// The result an action resolves its request with; `text` is what the prompt's field holds. The
/// caller reports it and forgets the controller.
pub fn answer(action: Answer, text: Option<String>) -> (r: PresentResult)
    ensures
        match action {
            Answer::Button(i) => r == PresentResult::Button(i),
            Answer::Dismissed => r is Dismissed,
            Answer::Text => r matches PresentResult::Text(t) && t@ == (match text {
                Some(s) => s@,
                None => Seq::empty(),
            }),
        },
{
    match action {
        Answer::Button(i) => PresentResult::Button(i),
        Answer::Dismissed => PresentResult::Dismissed,
        Answer::Text => match text {
            Some(s) => PresentResult::Text(s),
            None => {
                proof {
                    reveal_strlit("");
                }
                let empty = "".to_string();
                proof {
                    assert(empty@ =~= Seq::<char>::empty());
                }
                PresentResult::Text(empty)
            },
        },
    }
}

/// The paths among picked documents, in order; a document without one is left out.
pub open spec fn paths_of(picked: Seq<Option<String>>) -> Seq<String>
    decreases picked.len(),
{
    if picked.len() == 0 {
        Seq::empty()
    } else {
        match picked.last() {
            Some(path) => paths_of(picked.drop_last()).push(path),
            None => paths_of(picked.drop_last()),
        }
    }
}

/// Documents were picked: their paths, or a dismissal when none has one.
pub fn did_pick(picked: &Vec<Option<String>>) -> (r: PresentResult)
    ensures
        if paths_of(picked@).len() == 0 {
            r is Dismissed
        } else {
            r matches PresentResult::Files(paths) && paths@ == paths_of(picked@)
        },
{
    let mut paths: Vec<String> = Vec::new();
    let n: usize = picked.len();
    for i in 0..n
        invariant
            n == picked@.len(),
            paths@ == paths_of(picked@.take(i as int)),
    {
        proof {
            assert(picked@.take(i + 1).drop_last() == picked@.take(i as int));
        }
        match &picked[i] {
            Some(path) => {
                paths.push(path.clone());
            },
            None => {},
        }
    }
    proof {
        assert(picked@.take(n as int) == picked@);
    }
    if paths.len() == 0 {
        PresentResult::Dismissed
    } else {
        PresentResult::Files(paths)
    }
}

/// As many files are answered as documents were picked, in their order, when each has a path.
pub proof fn law_every_document_is_one_file(picked: Seq<Option<String>>)
    requires
        forall|i: int| 0 <= i < picked.len() ==> #[trigger] picked[i] is Some,
    ensures
        paths_of(picked).len() == picked.len(),
        forall|i: int| 0 <= i < picked.len() ==> Some(#[trigger] paths_of(picked)[i]) == picked[i],
    decreases picked.len(),
{
    if picked.len() > 0 {
        let front = picked.drop_last();
        assert forall|i: int| 0 <= i < front.len() implies #[trigger] front[i] is Some by {
            assert(picked[i] is Some);
        }
        law_every_document_is_one_file(front);
        assert(picked.last() == picked[picked.len() - 1]);
        assert forall|i: int| 0 <= i < picked.len() implies Some(
            #[trigger] paths_of(picked)[i],
        ) == picked[i] by {
            if i < front.len() {
                assert(paths_of(picked)[i] == paths_of(front)[i]);
                assert(front[i] == picked[i]);
            }
        }
    }
}

/// A dialog shows its title, message and form, and its buttons in order, each as it was given; choosing
/// one answers with that button's own position.
pub proof fn law_dialog_answers_with_its_button(
    title: String,
    message: Option<String>,
    buttons: Vec<DialogButton>,
    sheet: bool,
    scripted: bool,
    plan: PresentPlan,
    i: int,
    text: Option<String>,
    r: PresentResult,
)
    requires
        call_ensures(
            present,
            (PresentSpec::Dialog { title, message, buttons, sheet }, scripted),
            plan,
        ),
        buttons@.len() <= i64::MAX,
        0 <= i < buttons@.len(),
        plan matches PresentPlan::Alert(a) ==> call_ensures(answer, (a.actions@[i].answer, text), r),
    ensures
        plan matches PresentPlan::Alert(a) && {
            &&& a.title == title
            &&& a.message == message
            &&& a.sheet == sheet
            &&& a.field is None
            &&& a.actions@.len() == buttons@.len()
            &&& a.actions@[i].label == buttons@[i].label
            &&& a.actions@[i].style == buttons@[i].role
        },
        r matches PresentResult::Button(k) && k == i,
{
    match plan {
        PresentPlan::Alert(a) => {
            assert(button_action(buttons@, i, a.actions@[i]));
        },
        _ => {},
    }
}

/// A prompt shows its field with its placeholder and first text. Its first button, the one that
/// agrees, answers with what the field holds by then, and its second, the one that cancels, with a
/// dismissal.
pub proof fn law_prompt_answers_with_its_text(
    title: String,
    message: Option<String>,
    placeholder: String,
    initial: String,
    ok: String,
    cancel: String,
    scripted: bool,
    plan: PresentPlan,
    typed: String,
    yes: PresentResult,
    nothing: PresentResult,
    no: PresentResult,
)
    requires
        call_ensures(
            present,
            (PresentSpec::Prompt { title, message, placeholder, initial, ok, cancel }, scripted),
            plan,
        ),
        plan matches PresentPlan::Alert(a) ==> a.actions@.len() == 2 ==> call_ensures(
            answer,
            (a.actions@[0].answer, Some(typed)),
            yes,
        ) && call_ensures(answer, (a.actions@[0].answer, None::<String>), nothing) && call_ensures(
            answer,
            (a.actions@[1].answer, Some(typed)),
            no,
        ),
    ensures
        plan matches PresentPlan::Alert(a) && {
            &&& a.title == title
            &&& a.message == message
            &&& !a.sheet
            &&& a.field matches Some(f)
            &&& f.placeholder == placeholder
            &&& f.initial == initial
            &&& a.actions@.len() == 2
            &&& a.actions@[0].label == ok
            &&& a.actions@[0].style == ButtonRole::Default
            &&& a.actions@[1].label == cancel
            &&& a.actions@[1].style == ButtonRole::Cancel
        },
        yes matches PresentResult::Text(t) && t@ == typed@,
        nothing matches PresentResult::Text(t) && t@.len() == 0,
        no is Dismissed,
{
}

/// A file request shows its picker, a save with its own file; under a script it shows nothing, while
/// dialogs and prompts still show.
pub proof fn law_files_are_asked_of_a_picker(
    path: String,
    a: PresentPlan,
    b: PresentPlan,
    c: PresentPlan,
    d: PresentPlan,
)
    requires
        call_ensures(present, (PresentSpec::OpenFile, false), a),
        call_ensures(present, (PresentSpec::SaveFile { src_path: path }, false), b),
        call_ensures(present, (PresentSpec::OpenFile, true), c),
        call_ensures(present, (PresentSpec::SaveFile { src_path: path }, true), d),
    ensures
        a is OpenPicker,
        b == PresentPlan::SavePicker(path),
        c is Nothing,
        d is Nothing,
{
}

/// Picked documents are answered with their paths in order, those without one left out; none at all
/// is a dismissal.
pub proof fn law_picked_paths_are_answered(picked: &Vec<Option<String>>, r: PresentResult)
    requires
        call_ensures(did_pick, (picked,), r),
    ensures
        ({
            let kept = picked@.filter(|p: Option<String>| p is Some);
            if kept.len() == 0 {
                r is Dismissed
            } else {
                r matches PresentResult::Files(paths) && paths@ == kept.map_values(
                    |p: Option<String>| p->0,
                )
            }
        }),
{
    lemma_paths(picked@);
}

proof fn lemma_paths(picked: Seq<Option<String>>)
    ensures
        paths_of(picked) == picked.filter(|p: Option<String>| p is Some).map_values(
            |p: Option<String>| p->0,
        ),
        paths_of(picked).len() == picked.filter(|p: Option<String>| p is Some).len(),
    decreases picked.len(),
{
    reveal(Seq::filter);
    let kept = picked.filter(|p: Option<String>| p is Some);
    if picked.len() > 0 {
        lemma_paths(picked.drop_last());
    }
    assert(paths_of(picked) =~= kept.map_values(|p: Option<String>| p->0));
}

} // verus!
