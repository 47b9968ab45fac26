//! Whether the interface has settled: nothing modal waits or runs, no navigation transition is
//! live, and one settle margin has passed since either was last seen.

use crate::modal::Modal;
use vstd::prelude::*;

verus! {

/// How long past the last transition the interface still counts as moving: a transition's
/// coordinator clears a frame before the final composite.
pub const SETTLE_MS: u64 = 250;

/// When a transition was last seen or requested, in milliseconds of a monotonic clock.
pub struct Settle {
    pub last_active: Option<u64>,
}

/// Whether more than the settle margin has passed by `now`.
pub open spec fn settled_by(last_active: Option<u64>, now: u64) -> bool {
    match last_active {
        None => true,
        Some(t) => now - t > SETTLE_MS,
    }
}

impl Settle {
    pub fn new() -> (s: Settle)
        ensures
            s.last_active is None,
    {
        Settle { last_active: None }
    }

    /// A push, pop or switch is requested: the coordinator that would show it appears a run-loop
    /// turn later, so the clock is marked now.
    pub fn note_transition(&mut self, now: u64)
        ensures
            final(self).last_active == Some(now),
    {
        self.last_active = Some(now);
    }

    /// Whether the interface is idle: `top` and `nav` say whether the frontmost controller, or any
    /// registered navigation stack, has a live transition.
    pub fn ui_idle(&mut self, modal: &Modal, top: bool, nav: bool, now: u64) -> (idle: bool)
        ensures
            ({
                let active = !modal@.idle() || top || nav;
                &&& active ==> !idle && final(self).last_active == Some(now)
                &&& !active ==> idle == settled_by(old(self).last_active, now)
                    && final(self).last_active == old(self).last_active
            }),
    {
        if !modal.is_idle() || top || nav {
            self.last_active = Some(now);
            return false;
        }
        match self.last_active {
            None => true,
            Some(t) => now.saturating_sub(t) > SETTLE_MS,
        }
    }
}

/// A request leaves no blind window: from the moment a transition is noted until the settle
/// margin has passed, the interface is not idle, coordinator or no coordinator.
pub proof fn law_noted_transition_holds_idle(noted: u64, now: u64)
    requires
        noted <= now <= noted + SETTLE_MS,
    ensures
        !settled_by(Some(noted), now),
{
}

/// The interface is never idle while something modal waits or runs, the frontmost controller moves, or a
/// stack does; nor for a quarter of a second after that was seen or noted. Once still for longer, it is.
pub proof fn law_interface_idles_after_the_margin(
    noted: &mut Settle,
    asked: &mut Settle,
    modal: &Modal,
    idle_modal: bool,
    top: bool,
    nav: bool,
    seen: u64,
    now: u64,
    idle: bool,
)
    requires
        seen <= now,
        call_ensures(Settle::note_transition, (noted, seen), ()),
        *final(noted) == *old(asked),
        call_ensures(Modal::is_idle, (modal,), idle_modal),
        call_ensures(Settle::ui_idle, (asked, modal, top, nav, now), idle),
    ensures
        !idle_modal || top || nav ==> !idle && final(asked).last_active == Some(now),
        now <= seen + 250 ==> !idle,
        now > seen + 250 && idle_modal && !top && !nav ==> idle && final(asked).last_active == Some(seen),
{
}

/// An interface in which nothing ever moved is idle.
pub proof fn law_still_interface_is_idle(s: Settle, asked: &mut Settle, modal: &Modal, now: u64, idle: bool)
    requires
        call_ensures(Settle::new, (), s),
        *old(asked) == s,
        call_ensures(Modal::is_idle, (modal,), true),
        call_ensures(Settle::ui_idle, (asked, modal, false, false, now), idle),
    ensures
        idle,
{
}

} // verus!
