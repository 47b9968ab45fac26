//! Hardware keys on a focused canvas, the editing commands of the responder chain, and the
//! mirrored undo state.

use crate::event::{EditCommand, Event, Modifiers};
use crate::types::NodeId;
use vstd::prelude::*;

verus! {

#[derive(Clone, Copy, PartialEq, Eq, Structural, Debug)]
pub enum KeyCode {
    LeftArrow,
    RightArrow,
    UpArrow,
    DownArrow,
    DeleteForward,
    DeleteOrBackspace,
    Other,
}

/// UIKit's modifier flags, as far as they matter.
#[derive(Clone, Copy, PartialEq, Eq, Structural, Debug)]
pub struct KeyFlags {
    pub shift: bool,
    pub command: bool,
    pub alternate: bool,
    pub control: bool,
}

/// The name of a digit: what it types.
pub open spec fn digit_name_spec(c: char) -> Option<Seq<char>> {
    if '0' <= c <= '9' {
        Some(seq![c])
    } else {
        None
    }
}

pub open spec fn view_of(name: Option<&'static str>) -> Option<Seq<char>> {
    match name {
        Some(s) => Some(s@),
        None => None,
    }
}

pub fn digit_name(c: char) -> (r: Option<&'static str>)
    ensures
        view_of(r) == digit_name_spec(c),
{
    proof {
        reveal_strlit("0");
        reveal_strlit("1");
        reveal_strlit("2");
        reveal_strlit("3");
        reveal_strlit("4");
        reveal_strlit("5");
        reveal_strlit("6");
        reveal_strlit("7");
        reveal_strlit("8");
        reveal_strlit("9");
        assert("0"@ =~= seq!['0']);
        assert("1"@ =~= seq!['1']);
        assert("2"@ =~= seq!['2']);
        assert("3"@ =~= seq!['3']);
        assert("4"@ =~= seq!['4']);
        assert("5"@ =~= seq!['5']);
        assert("6"@ =~= seq!['6']);
        assert("7"@ =~= seq!['7']);
        assert("8"@ =~= seq!['8']);
        assert("9"@ =~= seq!['9']);
    }
    if c == '0' {
        Some("0")
    } else if c == '1' {
        Some("1")
    } else if c == '2' {
        Some("2")
    } else if c == '3' {
        Some("3")
    } else if c == '4' {
        Some("4")
    } else if c == '5' {
        Some("5")
    } else if c == '6' {
        Some("6")
    } else if c == '7' {
        Some("7")
    } else if c == '8' {
        Some("8")
    } else if c == '9' {
        Some("9")
    } else {
        None
    }
}

/// A key's name: the arrows and the two deletes under any modifiers; a digit by what it types,
/// unless a modifier makes it a key command; nothing else.
pub open spec fn key_name_spec(code: KeyCode, flags: KeyFlags, typed: Seq<char>) -> Option<
    Seq<char>,
> {
    match code {
        KeyCode::LeftArrow => Some("ArrowLeft"@),
        KeyCode::RightArrow => Some("ArrowRight"@),
        KeyCode::UpArrow => Some("ArrowUp"@),
        KeyCode::DownArrow => Some("ArrowDown"@),
        KeyCode::DeleteForward => Some("Delete"@),
        KeyCode::DeleteOrBackspace => Some("Backspace"@),
        KeyCode::Other => if flags.command || flags.alternate || flags.control {
            None
        } else if typed.len() == 1 {
            digit_name_spec(typed[0])
        } else {
            None
        },
    }
}

/// The name a key is reported under, or `None` for every key that is not reported. `typed` is
/// what the key types.
pub fn key_name(code: KeyCode, flags: KeyFlags, typed: &str) -> (r: Option<&'static str>)
    ensures
        view_of(r) == key_name_spec(code, flags, typed@),
{
    match code {
        KeyCode::LeftArrow => Some("ArrowLeft"),
        KeyCode::RightArrow => Some("ArrowRight"),
        KeyCode::UpArrow => Some("ArrowUp"),
        KeyCode::DownArrow => Some("ArrowDown"),
        KeyCode::DeleteForward => Some("Delete"),
        KeyCode::DeleteOrBackspace => Some("Backspace"),
        KeyCode::Other => {
            if flags.command || flags.alternate || flags.control {
                return None;
            }
            if typed.unicode_len() == 1 {
                digit_name(typed.get_char(0))
            } else {
                None
            }
        },
    }
}

/// UIKit's flags as the modifiers an event carries.
pub fn key_modifiers(f: KeyFlags) -> (r: Modifiers)
    ensures
        r == (Modifiers { shift: f.shift, primary: f.command, alt: f.alternate }),
{
    Modifiers { shift: f.shift, primary: f.command, alt: f.alternate }
}

/// One pressed key.
pub struct Press {
    pub code: KeyCode,
    pub flags: KeyFlags,
    pub typed: String,
}

/// The presses that are reported, in order.
pub open spec fn reported(presses: Seq<Press>, events: Seq<Event>) -> bool
    decreases presses.len(),
{
    if presses.len() == 0 {
        events.len() == 0
    } else {
        let p = presses.last();
        match key_name_spec(p.code, p.flags, p.typed@) {
            None => reported(presses.drop_last(), events),
            Some(name) => {
                &&& events.len() > 0
                &&& events.last() matches Event::Key { name: n, modifiers }
                &&& n@ == name
                &&& modifiers == (Modifiers {
                    shift: p.flags.shift,
                    primary: p.flags.command,
                    alt: p.flags.alternate,
                })
                &&& reported(presses.drop_last(), events.drop_last())
            },
        }
    }
}

/// Whether a canvas takes a press for itself: somebody listens, and the key has a name.
pub open spec fn claims(listens: bool, p: Press) -> bool {
    listens && key_name_spec(p.code, p.flags, p.typed@) is Some
}

/// Each press is marked as it was taken.
pub open spec fn each_claimed(listens: bool, presses: Seq<Press>, claimed: Seq<bool>) -> bool {
    &&& claimed.len() == presses.len()
    &&& forall|i: int|
        0 <= i < presses.len() ==> #[trigger] claimed[i] == claims(listens, presses[i])
}

/// What becomes of the keys pressed on a focused canvas.
pub struct Presses {
    /// What to report, in the order of the presses.
    pub events: Vec<Event>,
    /// For each press whether it was reported. The others go on up the responder chain.
    pub claimed: Vec<bool>,
}

/// Keys pressed on a focused canvas. A key nobody wanted, and every key of a canvas nobody listens
/// to, still reaches whatever else wants it.
pub fn presses_began(listens: bool, presses: &Vec<Press>) -> (r: Presses)
    ensures
        !listens ==> r.events@.len() == 0,
        listens ==> reported(presses@, r.events@),
        each_claimed(listens, presses@, r.claimed@),
{
    let mut events: Vec<Event> = Vec::new();
    let mut claimed: Vec<bool> = Vec::new();
    let n: usize = presses.len();
    for i in 0..n
        invariant
            n == presses@.len(),
            !listens ==> events@.len() == 0,
            listens ==> reported(presses@.take(i as int), events@),
            claimed@.len() == i,
            forall|j: int| 0 <= j < i ==> #[trigger] claimed@[j] == claims(listens, presses@[j]),
    {
        let p = &presses[i];
        let ghost before = events@;
        proof {
            assert(presses@.take(i + 1).drop_last() == presses@.take(i as int));
        }
        let name = if listens {
            key_name(p.code, p.flags, p.typed.as_str())
        } else {
            None
        };
        match name {
            Some(name) => {
                events.push(
                    Event::Key { name: name.to_string(), modifiers: key_modifiers(p.flags) },
                );
                claimed.push(true);
                proof {
                    assert(events@.drop_last() == before);
                }
            },
            None => {
                claimed.push(false);
            },
        }
    }
    proof {
        assert(presses@.take(n as int) == presses@);
    }
    Presses { events, claimed }
}

/// A canvas became or stopped being first responder: reported by one that is registered.
pub fn responder_changed(node: Option<NodeId>, done: bool, focused: bool) -> (r: Option<
    (NodeId, Event),
>)
    ensures
        r == (match node {
            Some(n) if done => Some((n, Event::FocusChanged(focused))),
            _ => None,
        }),
{
    match node {
        Some(n) if done => Some((n, Event::FocusChanged(focused))),
        _ => None,
    }
}

/// Which editing commands the app can take now.
#[derive(Clone, Copy, PartialEq, Eq, Structural, Debug)]
pub struct EditState {
    pub can_cut: bool,
    pub can_copy: bool,
    pub can_paste: bool,
    pub can_select_all: bool,
}

/// Whether an editing command is enabled: the app takes it now, and for a paste there is text on
/// the pasteboard.
pub fn can_perform(state: EditState, command: EditCommand, has_strings: bool) -> (r: bool)
    ensures
        r == (match command {
            EditCommand::Cut => state.can_cut,
            EditCommand::Copy => state.can_copy,
            EditCommand::Paste => state.can_paste && has_strings,
            EditCommand::SelectAll => state.can_select_all,
        }),
{
    match command {
        EditCommand::Cut => state.can_cut,
        EditCommand::Copy => state.can_copy,
        EditCommand::Paste => state.can_paste && has_strings,
        EditCommand::SelectAll => state.can_select_all,
    }
}

/// A digit under a command modifier is never claimed: key commands are not starved.
pub proof fn law_key_commands_are_never_claimed(flags: KeyFlags, typed: Seq<char>)
    requires
        flags.command || flags.alternate || flags.control,
    ensures
        key_name_spec(KeyCode::Other, flags, typed) is None,
{
}

/// A digit is named by itself, and nothing else by a digit.
pub proof fn law_digit_is_named_by_itself(c: char, r: Option<&'static str>)
    requires
        call_ensures(digit_name, (c,), r),
    ensures
        '0' <= c <= '9' ==> (r matches Some(name) && name@ == seq![c]),
        !('0' <= c <= '9') ==> r is None,
{
    assert(view_of(r) == digit_name_spec(c));
}

/// The arrows and deletes are reported under their names whatever is held with them.
pub proof fn law_arrows_and_deletes_have_names(
    flags: KeyFlags,
    typed: &str,
    left: Option<&'static str>,
    right: Option<&'static str>,
    up: Option<&'static str>,
    down: Option<&'static str>,
    delete: Option<&'static str>,
    backspace: Option<&'static str>,
)
    requires
        call_ensures(key_name, (KeyCode::LeftArrow, flags, typed), left),
        call_ensures(key_name, (KeyCode::RightArrow, flags, typed), right),
        call_ensures(key_name, (KeyCode::UpArrow, flags, typed), up),
        call_ensures(key_name, (KeyCode::DownArrow, flags, typed), down),
        call_ensures(key_name, (KeyCode::DeleteForward, flags, typed), delete),
        call_ensures(key_name, (KeyCode::DeleteOrBackspace, flags, typed), backspace),
    ensures
        left matches Some(name) && name@ == "ArrowLeft"@,
        right matches Some(name) && name@ == "ArrowRight"@,
        up matches Some(name) && name@ == "ArrowUp"@,
        down matches Some(name) && name@ == "ArrowDown"@,
        delete matches Some(name) && name@ == "Delete"@,
        backspace matches Some(name) && name@ == "Backspace"@,
{
}

/// Any other key is reported only where it types one digit and is no key command, and then under that
/// digit, shifted or not.
pub proof fn law_typed_digit_is_the_only_other_name(flags: KeyFlags, typed: &str, r: Option<&'static str>)
    requires
        call_ensures(key_name, (KeyCode::Other, flags, typed), r),
    ensures
        flags.command || flags.alternate || flags.control ==> r is None,
        typed@.len() != 1 ==> r is None,
        typed@.len() == 1 && !('0' <= typed@[0] <= '9') ==> r is None,
        !flags.command && !flags.alternate && !flags.control && typed@.len() == 1 && '0' <= typed@[0]
            <= '9' ==> (r matches Some(name) && name@ == typed@),
{
    if typed@.len() == 1 {
        assert(typed@ =~= seq![typed@[0]]);
    }
}

/// Each modifier held is reported as itself; the command key is the primary one.
pub proof fn law_modifiers_are_reported_as_held(f: KeyFlags, r: Modifiers)
    requires
        call_ensures(key_modifiers, (f,), r),
    ensures
        r.shift == f.shift,
        r.primary == f.command,
        r.alt == f.alternate,
{
}

/// A canvas nobody listens to claims nothing and reports nothing. A lone key on a canvas that is listened
/// to is claimed exactly when it has a name, and then reported under it with the modifiers held.
pub proof fn law_named_key_is_claimed_and_reported(
    p: Press,
    typed: &str,
    presses: &Vec<Press>,
    name: Option<&'static str>,
    held: Modifiers,
    deaf: Presses,
    r: Presses,
    i: int,
)
    requires
        call_ensures(presses_began, (false, presses), deaf),
        call_ensures(presses_began, (true, presses), r),
        0 <= i < presses@.len(),
        presses@[i] == p && p.typed@ == typed@,
        call_ensures(key_name, (p.code, p.flags, typed), name),
        call_ensures(key_modifiers, (p.flags,), held),
    ensures
        deaf.events@.len() == 0,
        deaf.claimed@.len() == presses@.len() && !deaf.claimed@[i],
        r.claimed@.len() == presses@.len() && (r.claimed@[i] <==> name is Some),
        presses@.len() == 1 && name is None ==> r.events@.len() == 0,
        presses@.len() == 1 ==> (name matches Some(n) ==> r.events@.len() == 1 && (r.events@[0]
            matches Event::Key { name: reported, modifiers } && reported@ == n@ && modifiers == held)),
{
    assert(each_claimed(false, presses@, deaf.claimed@));
    assert(each_claimed(true, presses@, r.claimed@));
    assert(deaf.claimed@[i] == claims(false, presses@[i]));
    assert(r.claimed@[i] == claims(true, presses@[i]));
    reveal_with_fuel(reported, 2);
}

/// As many keys are reported as were claimed, and the last one claimed last.
pub proof fn law_claimed_keys_are_reported(presses: &Vec<Press>, r: Presses)
    requires
        call_ensures(presses_began, (true, presses), r),
    ensures
        r.events@.len() == r.claimed@.filter(|claimed: bool| claimed).len(),
{
    assert(each_claimed(true, presses@, r.claimed@));
    lemma_reported_counts(presses@, r.events@, r.claimed@);
}

proof fn lemma_reported_counts(presses: Seq<Press>, events: Seq<Event>, claimed: Seq<bool>)
    requires
        reported(presses, events),
        each_claimed(true, presses, claimed),
    ensures
        events.len() == claimed.filter(|claimed: bool| claimed).len(),
    decreases presses.len(),
{
    reveal(Seq::filter);
    if presses.len() > 0 {
        let p = presses.last();
        assert(claimed[claimed.len() - 1] == claims(true, presses[presses.len() - 1]));
        assert(each_claimed(true, presses.drop_last(), claimed.drop_last())) by {
            assert forall|i: int| 0 <= i < presses.len() - 1 implies #[trigger] claimed.drop_last()[i]
                == claims(true, presses.drop_last()[i]) by {
                assert(claimed[i] == claims(true, presses[i]));
            }
        }
        if claimed.last() {
            lemma_reported_counts(presses.drop_last(), events.drop_last(), claimed.drop_last());
        } else {
            lemma_reported_counts(presses.drop_last(), events, claimed.drop_last());
        }
    }
}

/// A registered canvas reports the responder it became or left, and only where that was done.
pub proof fn law_responder_is_reported_by_its_canvas(
    node: NodeId,
    focused: bool,
    done: Option<(NodeId, Event)>,
    refused: Option<(NodeId, Event)>,
    nobody: Option<(NodeId, Event)>,
)
    requires
        call_ensures(responder_changed, (Some(node), true, focused), done),
        call_ensures(responder_changed, (Some(node), false, focused), refused),
        call_ensures(responder_changed, (None::<NodeId>, true, focused), nobody),
    ensures
        done == Some((node, Event::FocusChanged(focused))),
        refused is None,
        nobody is None,
{
}

/// Each editing command is enabled as the app says of that command, and a paste only with text to paste.
pub proof fn law_edit_commands_are_enabled_as_the_app_says(
    state: EditState,
    text: bool,
    cut: bool,
    copy: bool,
    paste: bool,
    all: bool,
)
    requires
        call_ensures(can_perform, (state, EditCommand::Cut, text), cut),
        call_ensures(can_perform, (state, EditCommand::Copy, text), copy),
        call_ensures(can_perform, (state, EditCommand::Paste, text), paste),
        call_ensures(can_perform, (state, EditCommand::SelectAll, text), all),
    ensures
        cut == state.can_cut,
        copy == state.can_copy,
        paste <==> state.can_paste && text,
        all == state.can_select_all,
{
}

/// Two reports say the same: key for key the same name and the same modifiers.
pub open spec fn same_keys(a: Seq<Event>, b: Seq<Event>) -> bool {
    &&& a.len() == b.len()
    &&& forall|i: int|
        0 <= i < a.len() ==> ((#[trigger] a[i]) matches Event::Key { name: m, modifiers: k } && b[i]
            matches Event::Key { name: n, modifiers: l } && m@ == n@ && k == l)
}

proof fn lemma_reports_agree(presses: Seq<Press>, a: Seq<Event>, b: Seq<Event>)
    requires
        reported(presses, a),
        reported(presses, b),
    ensures
        same_keys(a, b),
    decreases presses.len(),
{
    if presses.len() > 0 {
        let p = presses.last();
        match key_name_spec(p.code, p.flags, p.typed@) {
            None => {
                lemma_reports_agree(presses.drop_last(), a, b);
            },
            Some(_) => {
                lemma_reports_agree(presses.drop_last(), a.drop_last(), b.drop_last());
                assert forall|i: int| 0 <= i < a.len() implies ((#[trigger] a[i]) matches Event::Key {
                    name: m,
                    modifiers: k,
                } && b[i] matches Event::Key { name: n, modifiers: l } && m@ == n@ && k == l) by {
                    if i < a.len() - 1 {
                        assert(a.drop_last()[i] == a[i]);
                        assert(b.drop_last()[i] == b[i]);
                    }
                }
            },
        }
    }
}

/// One more key pressed is reported behind the others, which are reported as before; a key without a name
/// changes nothing.
pub proof fn law_keys_are_reported_in_order(
    fewer: &Vec<Press>,
    more: &Vec<Press>,
    p: Press,
    typed: &str,
    name: Option<&'static str>,
    held: Modifiers,
    a: Presses,
    b: Presses,
)
    requires
        more@ == fewer@.push(p),
        p.typed@ == typed@,
        call_ensures(key_name, (p.code, p.flags, typed), name),
        call_ensures(key_modifiers, (p.flags,), held),
        call_ensures(presses_began, (true, fewer), a),
        call_ensures(presses_began, (true, more), b),
    ensures
        name is None ==> same_keys(b.events@, a.events@),
        name matches Some(n) ==> b.events@.len() > 0 && same_keys(b.events@.drop_last(), a.events@) && (
        b.events@.last() matches Event::Key { name: reported, modifiers } && reported@ == n@ && modifiers
            == held),
{
    assert(more@.drop_last() =~= fewer@);
    assert(more@.last() == p);
    match name {
        None => {
            lemma_reports_agree(fewer@, b.events@, a.events@);
        },
        Some(_) => {
            lemma_reports_agree(fewer@, b.events@.drop_last(), a.events@);
        },
    }
}

} // verus!
