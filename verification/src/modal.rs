//! The modal queue. UIKit view-controller presentation is transactional: a present or dismiss
//! issued while another transition is in flight is silently dropped. Every present and dismiss
//! therefore goes through a FIFO that runs one transition at a time, pumped from each
//! transition's completion; a watchdog unjams the queue when a completion is lost, and work that
//! meets an animating transition is put back at the head and retried.

use std::collections::{HashMap, VecDeque};
use vstd::prelude::*;

verus! {

broadcast use vstd::std_specs::hash::group_hash_axioms;

/// How long a transition may hold the queue before it counts as lost.
pub const WATCHDOG_MS: u64 = 2000;

/// How long deferred work waits before it is tried again.
pub const RETRY_MS: u64 = 50;

/// Retries of a dismissal whose controller is not attached, or whose presenter animates.
pub const DISMISS_RETRIES: u32 = 100;

/// Retries of a cover that finds a transition animating, or no window to present on.
pub const COVER_RETRIES: u32 = 40;

/// How long after a cover's dismissal began its missing completion is looked into.
pub const COVER_FALLBACK_MS: u64 = 1500;

/// One queued modal transition. Controllers are addresses, `Run` carries the token of a deferred
/// closure; `Dismiss` and `Cover` carry how many retries they have already made.
#[derive(Clone, Copy, PartialEq, Eq, Structural, Debug)]
pub enum ModalOp {
    Present(u64, usize),
    Dismiss(u64, u32),
    Cover(usize, u32),
    Run(u64),
}

/// A controller as it is found on screen, and whether a transition runs through it.
#[derive(Clone, Copy, PartialEq, Eq, Structural, Debug)]
pub struct Sighted {
    pub vc: usize,
    pub animating: bool,
}

/// What is on screen when the queue is pumped: the frontmost controller, and the controller that
/// presents the head op's own controller (see [`Modal::subject`]).
#[derive(Clone, Copy, PartialEq, Eq, Structural, Debug)]
pub struct Sight {
    pub topmost: Option<Sighted>,
    pub presenter: Option<Sighted>,
}

/// What one pump asks for.
#[derive(Clone, Copy, PartialEq, Eq, Structural, Debug)]
pub enum ModalAct {
    /// A transition is in flight, or nothing is queued.
    Idle,
    /// Come back with [`Modal::retry`] after [`RETRY_MS`].
    Retry,
    /// Present `vc` on `on`, animated; the completion is [`Modal::end_transition`], and
    /// [`Modal::watchdog`] fires with `watchdog` after [`WATCHDOG_MS`].
    Present { on: usize, vc: usize, watchdog: u64 },
    /// Dismiss from the presenting side `from`, animated; completion and watchdog as above.
    Dismiss { from: usize, watchdog: u64 },
    /// There is no window to present on: resolve the request as dismissed and pump again.
    Resolve { req: u64 },
    /// The op needed nothing (more): pump again.
    Dropped,
    /// A cover ran out of retries: report it and pump again.
    CoverLost { tries: u32 },
    /// Run the deferred closure and pump again.
    Run { token: u64 },
}

impl ModalAct {
    /// Whether the queue is pumped again at once.
    pub open spec fn again_spec(self) -> bool {
        match self {
            ModalAct::Resolve { .. } => true,
            ModalAct::Dropped => true,
            ModalAct::CoverLost { .. } => true,
            ModalAct::Run { .. } => true,
            _ => false,
        }
    }

    pub fn again(self) -> (r: bool)
        ensures
            r == self.again_spec(),
    {
        match self {
            ModalAct::Resolve { .. } => true,
            ModalAct::Dropped => true,
            ModalAct::CoverLost { .. } => true,
            ModalAct::Run { .. } => true,
            _ => false,
        }
    }

    /// Whether the act puts a transition in flight.
    pub open spec fn begins(self) -> bool {
        self is Present || self is Dismiss
    }
}

/// The queue as a value: what waits, whether a transition holds it, the transition generation,
/// and the live alerts and document pickers by request.
#[verifier::ext_equal]
pub struct ModalState {
    pub queue: Seq<ModalOp>,
    pub busy: bool,
    pub generation: u64,
    pub alerts: Map<u64, usize>,
    pub pickers: Map<u64, usize>,
}

/// `queue` without any presentation of `req`.
pub open spec fn without_present(queue: Seq<ModalOp>, req: u64) -> Seq<ModalOp>
    decreases queue.len(),
{
    if queue.len() == 0 {
        queue
    } else {
        let rest = without_present(queue.drop_last(), req);
        if presents(queue.last(), req) {
            rest
        } else {
            rest.push(queue.last())
        }
    }
}

/// Whether `op` is the presentation of `req`.
pub open spec fn presents(op: ModalOp, req: u64) -> bool {
    op matches ModalOp::Present(r, _) && r == req
}

/// The generation after `g`.
pub open spec fn next_generation(g: u64) -> u64 {
    if g == u64::MAX {
        0
    } else {
        (g + 1) as u64
    }
}

impl ModalState {
    /// Nothing queued and nothing in flight.
    pub open spec fn idle(self) -> bool {
        !self.busy && self.queue.len() == 0
    }

    /// The live controller of `req`: its alert, else its document picker.
    pub open spec fn controller(self, req: u64) -> Option<usize> {
        if self.alerts.dom().contains(req) {
            Some(self.alerts[req])
        } else if self.pickers.dom().contains(req) {
            Some(self.pickers[req])
        } else {
            None
        }
    }

    /// The controller of `req` dropped.
    pub open spec fn forgotten(self, req: u64) -> ModalState {
        ModalState { alerts: self.alerts.remove(req), pickers: self.pickers.remove(req), ..self }
    }

    /// A transition marked in flight, under a generation of its own.
    pub open spec fn begun(self) -> ModalState {
        ModalState { busy: true, generation: next_generation(self.generation), ..self }
    }

    /// A transition ended: the queue free, and its watchdog stale.
    pub open spec fn ended(self) -> ModalState {
        ModalState { busy: false, generation: next_generation(self.generation), ..self }
    }

    /// `op` put back at the head, and the queue held until the retry.
    pub open spec fn deferred(self, op: ModalOp) -> ModalState {
        ModalState {
            queue: seq![op] + self.queue,
            busy: true,
            generation: next_generation(self.generation),
            ..self
        }
    }

    pub open spec fn queued(self, queue: Seq<ModalOp>) -> ModalState {
        ModalState { queue, ..self }
    }

    /// One pump. A held or empty queue answers nothing; otherwise the head op leaves the queue.
    pub open spec fn pumped(self, sight: Sight) -> (ModalState, ModalAct) {
        if self.busy || self.queue.len() == 0 {
            (self, ModalAct::Idle)
        } else {
            let taken = self.queued(self.queue.skip(1));
            match self.queue[0] {
                ModalOp::Present(req, vc) => taken.present_step(req, vc, sight.topmost),
                ModalOp::Dismiss(req, tries) => taken.dismiss_step(req, tries, sight.presenter),
                ModalOp::Cover(vc, tries) => taken.cover_step(vc, tries, sight),
                ModalOp::Run(token) => (taken, ModalAct::Run { token }),
            }
        }
    }

    /// A presentation waits out an animating transition, presents on the frontmost controller,
    /// and is resolved as dismissed when there is none.
    pub open spec fn present_step(self, req: u64, vc: usize, topmost: Option<Sighted>) -> (
        ModalState,
        ModalAct,
    ) {
        match topmost {
            None => (self.forgotten(req), ModalAct::Resolve { req }),
            Some(top) => if top.animating {
                (self.deferred(ModalOp::Present(req, vc)), ModalAct::Retry)
            } else {
                let s = self.begun();
                (s, ModalAct::Present { on: top.vc, vc, watchdog: s.generation })
            },
        }
    }

    /// A dismissal drops a presentation that never reached the screen; a controller that is gone
    /// needs nothing; one that is not attached, or whose presenter animates, is retried up to
    /// [`DISMISS_RETRIES`] times; otherwise the presenter dismisses it.
    pub open spec fn dismiss_step(self, req: u64, tries: u32, presenter: Option<Sighted>) -> (
        ModalState,
        ModalAct,
    ) {
        let kept = without_present(self.queue, req);
        if kept.len() != self.queue.len() {
            (self.queued(kept).forgotten(req), ModalAct::Dropped)
        } else if self.controller(req) is None {
            (self.forgotten(req), ModalAct::Dropped)
        } else if presenter is None || presenter->0.animating {
            if tries < DISMISS_RETRIES {
                (self.deferred(ModalOp::Dismiss(req, (tries + 1) as u32)), ModalAct::Retry)
            } else {
                (self.forgotten(req), ModalAct::Dropped)
            }
        } else {
            let s = self.forgotten(req).begun();
            (s, ModalAct::Dismiss { from: presenter->0.vc, watchdog: s.generation })
        }
    }

    /// A cover already up needs nothing; one that meets an animating transition, or no window, is
    /// retried up to [`COVER_RETRIES`] times; otherwise it is presented like a dialog.
    pub open spec fn cover_step(self, vc: usize, tries: u32, sight: Sight) -> (
        ModalState,
        ModalAct,
    ) {
        if sight.presenter is Some {
            (self, ModalAct::Dropped)
        } else if sight.topmost is None || sight.topmost->0.animating {
            if tries < COVER_RETRIES {
                (self.deferred(ModalOp::Cover(vc, (tries + 1) as u32)), ModalAct::Retry)
            } else {
                (self, ModalAct::CoverLost { tries })
            }
        } else {
            let s = self.begun();
            (s, ModalAct::Present { on: sight.topmost->0.vc, vc, watchdog: s.generation })
        }
    }

    /// The watchdog of generation `g`: it frees the queue only while that transition holds it.
    pub open spec fn watched(self, g: u64) -> (ModalState, bool) {
        if self.busy && self.generation == g {
            (ModalState { busy: false, ..self }, true)
        } else {
            (self, false)
        }
    }

    /// The retry timer frees the queue.
    pub open spec fn retried(self) -> ModalState {
        ModalState { busy: false, ..self }
    }
}

pub struct Modal {
    pub queue: VecDeque<ModalOp>,
    pub busy: bool,
    pub generation: u64,
    pub alerts: HashMap<u64, usize>,
    pub pickers: HashMap<u64, usize>,
}

impl View for Modal {
    type V = ModalState;

    open spec fn view(&self) -> ModalState {
        ModalState {
            queue: self.queue@,
            busy: self.busy,
            generation: self.generation,
            alerts: self.alerts@,
            pickers: self.pickers@,
        }
    }
}

/// How a cover's dismissal starts.
#[derive(Clone, Copy, PartialEq, Eq, Structural, Debug)]
pub enum CoverStart {
    /// The cover is not up: it counts as hidden at once.
    Hidden,
    /// Dismiss from `from`, animated, under the watchdog `watchdog`; look again after
    /// [`COVER_FALLBACK_MS`].
    Begin { from: usize, watchdog: u64 },
}

impl Modal {
    pub fn new() -> (m: Modal)
        ensures
            m@.idle(),
            m@.generation == 0,
            m@.alerts == Map::<u64, usize>::empty(),
            m@.pickers == Map::<u64, usize>::empty(),
    {
        Modal {
            queue: VecDeque::new(),
            busy: false,
            generation: 0,
            alerts: HashMap::new(),
            pickers: HashMap::new(),
        }
    }

    /// Nothing queued and nothing in flight.
    pub fn is_idle(&self) -> (r: bool)
        ensures
            r == self@.idle(),
    {
        !self.busy && self.queue.len() == 0
    }

    /// Queue `op` behind everything that waits; the caller pumps.
    pub fn enqueue(&mut self, op: ModalOp)
        ensures
            final(self)@ == old(self)@.queued(old(self)@.queue.push(op)),
    {
        self.queue.push_back(op);
    }

    /// Whether a deferred closure may run now; if not, it is queued under `token`.
    pub fn after_idle(&mut self, token: u64) -> (now: bool)
        ensures
            now == old(self)@.idle(),
            now ==> final(self)@ == old(self)@,
            !now ==> final(self)@ == old(self)@.queued(
                old(self)@.queue.push(ModalOp::Run(token)),
            ),
    {
        if self.is_idle() {
            true
        } else {
            self.enqueue(ModalOp::Run(token));
            false
        }
    }

    /// Present an alert controller for `req`: retain it, and queue its presentation.
    pub fn present_alert(&mut self, req: u64, vc: usize)
        ensures
            final(self)@ == (ModalState {
                alerts: old(self)@.alerts.insert(req, vc),
                queue: old(self)@.queue.push(ModalOp::Present(req, vc)),
                ..old(self)@
            }),
    {
        self.alerts.insert(req, vc);
        self.enqueue(ModalOp::Present(req, vc));
    }

    /// Present a document picker for `req`: retain it, and queue its presentation.
    pub fn present_doc_picker(&mut self, req: u64, vc: usize)
        ensures
            final(self)@ == (ModalState {
                pickers: old(self)@.pickers.insert(req, vc),
                queue: old(self)@.queue.push(ModalOp::Present(req, vc)),
                ..old(self)@
            }),
    {
        self.pickers.insert(req, vc);
        self.enqueue(ModalOp::Present(req, vc));
    }

    /// Drop the controller retained for `req`.
    pub fn forget(&mut self, req: u64)
        ensures
            final(self)@ == old(self)@.forgotten(req),
    {
        self.alerts.remove(&req);
        self.pickers.remove(&req);
    }

    /// The controller retained for `req`: its alert, else its document picker.
    pub fn controller_of(&self, req: u64) -> (r: Option<usize>)
        ensures
            r == self@.controller(req),
    {
        match self.alerts.get(&req) {
            Some(vc) => Some(*vc),
            None => match self.pickers.get(&req) {
                Some(vc) => Some(*vc),
                None => None,
            },
        }
    }

    /// The controller whose presenter the next pump asks about: a dismissal's own controller, or
    /// the cover to present.
    pub fn subject(&self) -> (r: Option<usize>)
        ensures
            r == (if self@.queue.len() == 0 {
                None
            } else {
                match self@.queue[0] {
                    ModalOp::Dismiss(req, _) => self@.controller(req),
                    ModalOp::Cover(vc, _) => Some(vc),
                    _ => None,
                }
            }),
    {
        if self.queue.len() == 0 {
            None
        } else {
            match self.queue[0] {
                ModalOp::Dismiss(req, _) => self.controller_of(req),
                ModalOp::Cover(vc, _) => Some(vc),
                _ => None,
            }
        }
    }

    /// Mark a transition in flight; its watchdog fires with the returned generation.
    pub fn begin_transition(&mut self) -> (watchdog: u64)
        ensures
            final(self)@ == old(self)@.begun(),
            watchdog == final(self)@.generation,
    {
        self.busy = true;
        self.generation = self.generation.wrapping_add(1);
        self.generation
    }

    /// A transition's completion; the caller pumps.
    pub fn end_transition(&mut self)
        ensures
            final(self)@ == old(self)@.ended(),
    {
        self.generation = self.generation.wrapping_add(1);
        self.busy = false;
    }

    /// The watchdog of generation `g`. `true` means a completion was lost: the queue is free
    /// again and the caller pumps.
    pub fn watchdog(&mut self, g: u64) -> (lost: bool)
        ensures
            (final(self)@, lost) == old(self)@.watched(g),
    {
        if self.busy && self.generation == g {
            self.busy = false;
            true
        } else {
            false
        }
    }

    /// Put `op` back at the head and hold the queue until the retry.
    fn defer_retry(&mut self, op: ModalOp)
        ensures
            final(self)@ == old(self)@.deferred(op),
    {
        self.queue.push_front(op);
        self.busy = true;
        self.generation = self.generation.wrapping_add(1);
    }

    /// The retry timer; the caller pumps.
    pub fn retry(&mut self)
        ensures
            final(self)@ == old(self)@.retried(),
    {
        self.busy = false;
    }

    /// Take every presentation of `req` out of the queue; whether there was one.
    fn drop_presents(&mut self, req: u64) -> (dropped: bool)
        ensures
            final(self)@ == old(self)@.queued(without_present(old(self)@.queue, req)),
            dropped == (without_present(old(self)@.queue, req).len() != old(self)@.queue.len()),
    {
        let mut kept: VecDeque<ModalOp> = VecDeque::new();
        let n: usize = self.queue.len();
        for i in 0..n
            invariant
                n == self.queue@.len(),
                self@ == old(self)@,
                kept@ == without_present(self.queue@.take(i as int), req),
        {
            let op = self.queue[i];
            proof {
                assert(self.queue@.take(i + 1).drop_last() == self.queue@.take(i as int));
            }
            let hit = match op {
                ModalOp::Present(r, _) => r == req,
                _ => false,
            };
            if !hit {
                kept.push_back(op);
            }
        }
        proof {
            assert(self.queue@.take(n as int) == self.queue@);
        }
        let dropped = kept.len() != n;
        self.queue = kept;
        dropped
    }

    /// Run the next queued op, if no transition is in flight.
    pub fn pump(&mut self, sight: Sight) -> (act: ModalAct)
        ensures
            (final(self)@, act) == old(self)@.pumped(sight),
    {
        if self.busy {
            return ModalAct::Idle;
        }
        let head = match self.queue.pop_front() {
            None => {
                return ModalAct::Idle;
            },
            Some(op) => op,
        };
        proof {
            assert(self.queue@ == old(self)@.queue.skip(1));
        }
        match head {
            ModalOp::Present(req, vc) => match sight.topmost {
                None => {
                    self.forget(req);
                    ModalAct::Resolve { req }
                },
                Some(top) => {
                    if top.animating {
                        self.defer_retry(head);
                        ModalAct::Retry
                    } else {
                        let watchdog: u64 = self.begin_transition();
                        ModalAct::Present { on: top.vc, vc, watchdog }
                    }
                },
            },
            ModalOp::Dismiss(req, tries) => {
                if self.drop_presents(req) {
                    self.forget(req);
                    return ModalAct::Dropped;
                }
                proof {
                    lemma_nothing_dropped(old(self)@.queue.skip(1), req);
                }
                if self.controller_of(req).is_none() {
                    self.forget(req);
                    return ModalAct::Dropped;
                }
                match sight.presenter {
                    Some(by) if !by.animating => {
                        self.forget(req);
                        let watchdog: u64 = self.begin_transition();
                        ModalAct::Dismiss { from: by.vc, watchdog }
                    },
                    _ => {
                        if tries < DISMISS_RETRIES {
                            self.defer_retry(ModalOp::Dismiss(req, tries + 1));
                            ModalAct::Retry
                        } else {
                            self.forget(req);
                            ModalAct::Dropped
                        }
                    },
                }
            },
            ModalOp::Cover(vc, tries) => {
                if sight.presenter.is_some() {
                    return ModalAct::Dropped;
                }
                match sight.topmost {
                    Some(top) if !top.animating => {
                        let watchdog: u64 = self.begin_transition();
                        ModalAct::Present { on: top.vc, vc, watchdog }
                    },
                    _ => {
                        if tries < COVER_RETRIES {
                            self.defer_retry(ModalOp::Cover(vc, tries + 1));
                            ModalAct::Retry
                        } else {
                            ModalAct::CoverLost { tries }
                        }
                    },
                }
            },
            ModalOp::Run(token) => ModalAct::Run { token },
        }
    }

    /// Queue a cover's presentation.
    pub fn cover_present(&mut self, vc: usize)
        ensures
            final(self)@ == old(self)@.queued(old(self)@.queue.push(ModalOp::Cover(vc, 0))),
    {
        self.enqueue(ModalOp::Cover(vc, 0));
    }

    /// Queue a dialog's dismissal.
    pub fn dismiss(&mut self, req: u64)
        ensures
            final(self)@ == old(self)@.queued(old(self)@.queue.push(ModalOp::Dismiss(req, 0))),
    {
        self.enqueue(ModalOp::Dismiss(req, 0));
    }

    /// The body of a cover's queued dismissal, given the controller that presents the cover.
    pub fn cover_dismiss(&mut self, presenter: Option<usize>) -> (start: CoverStart)
        ensures
            presenter is None ==> start is Hidden && final(self)@ == old(self)@,
            presenter is Some ==> final(self)@ == old(self)@.begun() && start
                == (CoverStart::Begin {
                from: presenter->0,
                watchdog: final(self)@.generation,
            }),
    {
        match presenter {
            None => CoverStart::Hidden,
            Some(from) => {
                let watchdog: u64 = self.begin_transition();
                CoverStart::Begin { from, watchdog }
            },
        }
    }
}

/// Whether a cover's dismissal is reported hidden without its completion: the completion never
/// came, and the cover has left the hierarchy.
pub fn cover_completion_lost(completed: bool, presented: bool) -> (r: bool)
    ensures
        r == (!completed && !presented),
{
    !completed && !presented
}

proof fn lemma_nothing_dropped(queue: Seq<ModalOp>, req: u64)
    ensures
        without_present(queue, req).len() <= queue.len(),
        without_present(queue, req).len() == queue.len() ==> without_present(queue, req) == queue,
    decreases queue.len(),
{
    if queue.len() > 0 {
        lemma_nothing_dropped(queue.drop_last(), req);
        if without_present(queue, req).len() == queue.len() {
            assert(queue == queue.drop_last().push(queue.last()));
        }
    }
}

/// What can happen to the queue.
pub enum ModalEvent {
    Enqueue(ModalOp),
    Pump(Sight),
    /// A queued closure begins a transition of its own (a cover's dismissal).
    Begin,
    /// A transition's completion.
    Complete,
    /// The retry timer.
    Retry,
    /// The watchdog of a generation.
    Watchdog(u64),
}

/// The queue among what surrounds it: whether UIKit has a transition of the queue's in flight,
/// how many retry timers are armed, and which watchdogs.
pub struct ModalWorld {
    pub state: ModalState,
    pub in_flight: bool,
    pub retries: nat,
    pub armed: Set<u64>,
}

impl ModalWorld {
    /// A fresh queue, with nothing around it.
    pub open spec fn fresh(self) -> bool {
        self.state.idle() && !self.in_flight && self.retries == 0 && self.armed == Set::<
            u64,
        >::empty()
    }

    /// Timers fire only when armed, and a closure begins a transition only out of a pump that ran
    /// it, so while nothing holds the queue.
    pub open spec fn possible(self, e: ModalEvent) -> bool {
        match e {
            ModalEvent::Begin => !self.state.busy,
            ModalEvent::Retry => self.retries > 0,
            ModalEvent::Watchdog(g) => self.armed.contains(g),
            _ => true,
        }
    }

    /// Every completion comes, once, while its transition is in flight and before its watchdog.
    pub open spec fn faithful(self, e: ModalEvent) -> bool {
        match e {
            ModalEvent::Complete => self.in_flight,
            ModalEvent::Watchdog(g) => !(self.state.busy && self.state.generation == g),
            _ => true,
        }
    }

    /// Whether `e` puts a transition in flight.
    pub open spec fn begins(self, e: ModalEvent) -> bool {
        match e {
            ModalEvent::Pump(sight) => self.state.pumped(sight).1.begins(),
            ModalEvent::Begin => true,
            _ => false,
        }
    }

    pub open spec fn after(self, e: ModalEvent) -> ModalWorld {
        match e {
            ModalEvent::Enqueue(op) => ModalWorld {
                state: self.state.queued(self.state.queue.push(op)),
                ..self
            },
            ModalEvent::Pump(sight) => {
                let (state, act) = self.state.pumped(sight);
                if act.begins() {
                    ModalWorld {
                        state,
                        in_flight: true,
                        armed: self.armed.insert(state.generation),
                        ..self
                    }
                } else if act is Retry {
                    ModalWorld { state, retries: self.retries + 1, ..self }
                } else {
                    ModalWorld { state, ..self }
                }
            },
            ModalEvent::Begin => {
                let state = self.state.begun();
                ModalWorld {
                    state,
                    in_flight: true,
                    armed: self.armed.insert(state.generation),
                    ..self
                }
            },
            ModalEvent::Complete => ModalWorld {
                state: self.state.ended(),
                in_flight: false,
                ..self
            },
            ModalEvent::Retry => ModalWorld {
                state: self.state.retried(),
                retries: (self.retries - 1) as nat,
                ..self
            },
            ModalEvent::Watchdog(g) => ModalWorld {
                state: self.state.watched(g).0,
                armed: self.armed.remove(g),
                ..self
            },
        }
    }

    /// The world after a whole history.
    pub open spec fn history(self, events: Seq<ModalEvent>) -> ModalWorld
        decreases events.len(),
    {
        if events.len() == 0 {
            self
        } else {
            self.history(events.drop_last()).after(events.last())
        }
    }

    /// Every event of the history could happen when it did.
    pub open spec fn admits(self, events: Seq<ModalEvent>) -> bool {
        forall|i: int|
            0 <= i < events.len() ==> #[trigger] self.history(events.take(i)).possible(events[i])
    }

    /// No completion of the history was lost, late or repeated.
    pub open spec fn loses_nothing(self, events: Seq<ModalEvent>) -> bool {
        forall|i: int|
            0 <= i < events.len() ==> #[trigger] self.history(events.take(i)).faithful(events[i])
    }

    spec fn exclusive(self) -> bool {
        &&& self.state.busy == (self.in_flight || self.retries > 0)
        &&& !(self.in_flight && self.retries > 0)
        &&& self.retries <= 1
    }
}

proof fn lemma_prefix(w: ModalWorld, events: Seq<ModalEvent>, n: int)
    requires
        0 <= n <= events.len(),
    ensures
        w.admits(events) ==> w.admits(events.take(n)),
        w.loses_nothing(events) ==> w.loses_nothing(events.take(n)),
{
    let front = events.take(n);
    if w.admits(events) {
        assert forall|i: int| 0 <= i < n implies #[trigger] w.history(front.take(i)).possible(
            front[i],
        ) by {
            assert(front.take(i) == events.take(i));
            assert(w.history(events.take(i)).possible(events[i]));
        }
    }
    if w.loses_nothing(events) {
        assert forall|i: int| 0 <= i < n implies #[trigger] w.history(front.take(i)).faithful(
            front[i],
        ) by {
            assert(front.take(i) == events.take(i));
            assert(w.history(events.take(i)).faithful(events[i]));
        }
    }
}

proof fn lemma_exclusive(w: ModalWorld, events: Seq<ModalEvent>)
    requires
        w.fresh(),
        w.admits(events),
        w.loses_nothing(events),
    ensures
        w.history(events).exclusive(),
    decreases events.len(),
{
    if events.len() > 0 {
        let front = events.drop_last();
        let n = front.len() as int;
        assert(events.take(n) == front);
        lemma_prefix(w, events, n);
        lemma_exclusive(w, front);
        assert(w.history(events.take(n)).possible(events[n]));
        assert(w.history(events.take(n)).faithful(events[n]));
    }
}

/// Transitions never overlap: while every completion arrives, a transition begins only when none
/// is in flight.
pub proof fn law_transitions_never_overlap(w: ModalWorld, events: Seq<ModalEvent>, i: int)
    requires
        w.fresh(),
        w.admits(events),
        w.loses_nothing(events),
        0 <= i < events.len(),
        w.history(events.take(i)).begins(events[i]),
    ensures
        !w.history(events.take(i)).in_flight,
{
    lemma_prefix(w, events, i);
    lemma_exclusive(w, events.take(i));
    assert(w.history(events.take(i)).possible(events[i]));
}

/// The queue never jams: whatever completions are lost, late or repeated, a held queue always has
/// a timer armed that frees it.
pub proof fn law_queue_never_jams(w: ModalWorld, events: Seq<ModalEvent>)
    requires
        w.fresh(),
        w.admits(events),
    ensures
        ({
            let s = w.history(events);
            s.state.busy ==> {
                ||| s.possible(ModalEvent::Retry) && !s.after(ModalEvent::Retry).state.busy
                ||| {
                    let g = s.state.generation;
                    s.possible(ModalEvent::Watchdog(g)) && !s.after(
                        ModalEvent::Watchdog(g),
                    ).state.busy
                }
            }
        }),
    decreases events.len(),
{
    if events.len() > 0 {
        let front = events.drop_last();
        let n = front.len() as int;
        assert(events.take(n) == front);
        lemma_prefix(w, events, n);
        law_queue_never_jams(w, front);
        assert(w.history(events.take(n)).possible(events[n]));
    }
}

/// A held queue runs nothing, whatever is on screen.
pub proof fn law_held_queue_waits(s: ModalState, sight: Sight)
    requires
        s.busy,
    ensures
        s.pumped(sight) == (s, ModalAct::Idle),
{
}

/// A transition that completed leaves a stale watchdog: firing it changes nothing.
pub proof fn law_completed_transition_disarms_its_watchdog(s: ModalState)
    ensures
        s.begun().ended().watched(s.begun().generation) == (s.begun().ended(), false),
        s.begun().watched(s.begun().generation).1,
{
}

/// Ops leave in the order they came: a pump takes the head, keeps everything behind it (less the
/// presentations a dismissal drops), and a deferred op returns to the head it left.
pub proof fn law_queue_is_first_in_first_out(s: ModalState, sight: Sight)
    requires
        !s.busy,
        s.queue.len() > 0,
    ensures
        ({
            let (t, act) = s.pumped(sight);
            let rest = s.queue.skip(1);
            if act is Retry {
                &&& t.queue.len() == s.queue.len()
                &&& t.queue.skip(1) == rest
                &&& match (s.queue[0], t.queue[0]) {
                    (ModalOp::Present(a, b), ModalOp::Present(c, d)) => a == c && b == d,
                    (ModalOp::Dismiss(a, m), ModalOp::Dismiss(b, n)) => a == b && n == m + 1,
                    (ModalOp::Cover(a, m), ModalOp::Cover(b, n)) => a == b && n == m + 1,
                    _ => false,
                }
            } else {
                match s.queue[0] {
                    ModalOp::Dismiss(req, _) => t.queue == without_present(rest, req),
                    _ => t.queue == rest,
                }
            }
        }),
{
    let rest = s.queue.skip(1);
    match s.queue[0] {
        ModalOp::Dismiss(req, tries) => {
            lemma_nothing_dropped(rest, req);
            let op = ModalOp::Dismiss(req, (tries + 1) as u32);
            assert((seq![op] + rest).skip(1) == rest);
        },
        ModalOp::Cover(vc, tries) => {
            let op = ModalOp::Cover(vc, (tries + 1) as u32);
            assert((seq![op] + rest).skip(1) == rest);
        },
        ModalOp::Present(req, vc) => {
            assert((seq![s.queue[0]] + rest).skip(1) == rest);
        },
        _ => {},
    }
}

proof fn lemma_without_present(queue: Seq<ModalOp>, req: u64)
    ensures
        forall|i: int|
            0 <= i < without_present(queue, req).len() ==> !presents(
                #[trigger] without_present(queue, req)[i],
                req,
            ),
        without_present(queue, req).len() == queue.len() ==> forall|i: int|
            0 <= i < queue.len() ==> !presents(#[trigger] queue[i], req),
    decreases queue.len(),
{
    if queue.len() > 0 {
        let front = queue.drop_last();
        lemma_without_present(front, req);
        lemma_nothing_dropped(front, req);
        if without_present(queue, req).len() == queue.len() {
            assert forall|i: int| 0 <= i < queue.len() implies !presents(
                #[trigger] queue[i],
                req,
            ) by {
                if i < front.len() {
                    assert(front[i] == queue[i]);
                }
            }
        }
    }
}

/// Dismissing a request whose presentation still waits means it never reaches the screen: it is
/// taken out, its controller is forgotten, and no transition begins.
pub proof fn law_dismissed_before_shown_is_never_shown(
    s: ModalState,
    sight: Sight,
    req: u64,
    tries: u32,
    i: int,
)
    requires
        !s.busy,
        s.queue.len() > 0,
        s.queue[0] == ModalOp::Dismiss(req, tries),
        0 < i < s.queue.len(),
        presents(s.queue[i], req),
    ensures
        s.pumped(sight).1 == ModalAct::Dropped,
        !s.pumped(sight).0.busy,
        s.pumped(sight).0.controller(req) is None,
        forall|j: int|
            0 <= j < s.pumped(sight).0.queue.len() ==> !presents(
                #[trigger] s.pumped(sight).0.queue[j],
                req,
            ),
{
    let rest = s.queue.skip(1);
    lemma_without_present(rest, req);
    assert(rest[i - 1] == s.queue[i]);
}

/// Whether every queued op is within its retry bound.
pub open spec fn retries_bounded(queue: Seq<ModalOp>) -> bool {
    forall|i: int|
        0 <= i < queue.len() ==> match #[trigger] queue[i] {
            ModalOp::Dismiss(_, tries) => tries <= DISMISS_RETRIES,
            ModalOp::Cover(_, tries) => tries <= COVER_RETRIES,
            _ => true,
        }
}

/// Retries are bounded: no pump ever takes an op past its bound.
pub proof fn law_retries_are_bounded(s: ModalState, sight: Sight)
    requires
        retries_bounded(s.queue),
    ensures
        retries_bounded(s.pumped(sight).0.queue),
{
    if !s.busy && s.queue.len() > 0 {
        let rest = s.queue.skip(1);
        assert(retries_bounded(rest));
        match s.queue[0] {
            ModalOp::Dismiss(req, _) => {
                lemma_bounded_without(rest, req);
            },
            _ => {},
        }
    }
}

proof fn lemma_bounded_without(queue: Seq<ModalOp>, req: u64)
    requires
        retries_bounded(queue),
    ensures
        retries_bounded(without_present(queue, req)),
    decreases queue.len(),
{
    if queue.len() > 0 {
        let front = queue.drop_last();
        assert forall|i: int| 0 <= i < front.len() implies match #[trigger] front[i] {
            ModalOp::Dismiss(_, tries) => tries <= DISMISS_RETRIES,
            ModalOp::Cover(_, tries) => tries <= COVER_RETRIES,
            _ => true,
        } by {
            assert(front[i] == queue[i]);
        }
        lemma_bounded_without(front, req);
        assert(queue.last() == queue[queue.len() - 1]);
    }
}

/// A controller presented over another.
#[derive(Clone, Copy, PartialEq, Eq, Structural, Debug)]
pub struct Presented {
    pub vc: usize,
    pub being_dismissed: bool,
}

/// The frontmost controller, from position `from` on over `under`.
pub open spec fn front_from(under: usize, presented: Seq<Presented>, from: int) -> usize
    decreases presented.len() - from,
{
    if from < 0 || from >= presented.len() || presented[from].being_dismissed {
        under
    } else {
        front_from(presented[from].vc, presented, from + 1)
    }
}

/// The frontmost controller: past everything presented over the root, but short of one on its way
/// out, on which a presentation would be dropped. `presented` is the chain from the root on.
pub fn topmost_vc(root: Option<usize>, presented: &Vec<Presented>) -> (r: Option<usize>)
    ensures
        r == (match root {
            None => None,
            Some(root) => Some(front_from(root, presented@, 0)),
        }),
{
    let mut vc: usize = match root {
        Some(root) => root,
        None => {
            return None;
        },
    };
    let mut i: usize = 0;
    while i < presented.len()
        invariant
            root is Some,
            i <= presented@.len(),
            front_from(root->0, presented@, 0) == front_from(vc, presented@, i as int),
        decreases presented@.len() - i,
    {
        if presented[i].being_dismissed {
            return Some(vc);
        }
        vc = presented[i].vc;
        i = i + 1;
    }
    Some(vc)
}

/// A cover gets on screen. Out of a free queue it is presented by the frontmost controller, if
/// nothing animates there, and the transition holds the queue under a generation of its own; one
/// that is up already needs nothing; and one that meets an animation, or no window, waits at the
/// head, counting, until its retries are used up.
pub proof fn law_cover_gets_on_screen(
    m: &mut Modal,
    sight: Sight,
    act: ModalAct,
    vc: usize,
    tries: u32,
)
    requires
        call_ensures(Modal::pump, (m, sight), act),
        !old(m).busy,
        old(m).queue@.len() > 0,
        old(m).queue@[0] == ModalOp::Cover(vc, tries),
    ensures
        final(m).alerts@ == old(m).alerts@,
        final(m).pickers@ == old(m).pickers@,
        sight.presenter is Some ==> {
            &&& act is Dropped
            &&& !final(m).busy
            &&& final(m).queue@ == old(m).queue@.skip(1)
        },
        sight.presenter is None && sight.topmost is Some && !sight.topmost->0.animating ==> {
            &&& act == (ModalAct::Present {
                on: sight.topmost->0.vc,
                vc,
                watchdog: final(m).generation,
            })
            &&& final(m).busy
            &&& final(m).generation != old(m).generation
            &&& final(m).queue@ == old(m).queue@.skip(1)
        },
        sight.presenter is None && (sight.topmost is None || sight.topmost->0.animating)
            ==> if tries < 40 {
            &&& act is Retry
            &&& final(m).busy
            &&& final(m).queue@ == old(m).queue@.update(0, ModalOp::Cover(vc, (tries + 1) as u32))
        } else {
            &&& act == (ModalAct::CoverLost { tries })
            &&& !final(m).busy
            &&& final(m).queue@ == old(m).queue@.skip(1)
        },
{
    let rest = old(m).queue@.skip(1);
    let op = ModalOp::Cover(vc, (tries + 1) as u32);
    assert(seq![op] + rest =~= old(m).queue@.update(0, op));
}

/// A dialog gets on screen. Out of a free queue it is presented by the frontmost controller, if
/// nothing animates there; it waits out an animation at the head; and without a window its request
/// is resolved, and its controller let go.
pub proof fn law_dialog_gets_on_screen(
    m: &mut Modal,
    sight: Sight,
    act: ModalAct,
    req: u64,
    vc: usize,
)
    requires
        call_ensures(Modal::pump, (m, sight), act),
        !old(m).busy,
        old(m).queue@.len() > 0,
        old(m).queue@[0] == ModalOp::Present(req, vc),
    ensures
        sight.topmost is Some && !sight.topmost->0.animating ==> {
            &&& act == (ModalAct::Present {
                on: sight.topmost->0.vc,
                vc,
                watchdog: final(m).generation,
            })
            &&& final(m).busy
            &&& final(m).generation != old(m).generation
            &&& final(m).queue@ == old(m).queue@.skip(1)
            &&& final(m).alerts@ == old(m).alerts@
            &&& final(m).pickers@ == old(m).pickers@
        },
        sight.topmost is Some && sight.topmost->0.animating ==> {
            &&& act is Retry
            &&& final(m).busy
            &&& final(m).queue@ == old(m).queue@
            &&& final(m).alerts@ == old(m).alerts@
            &&& final(m).pickers@ == old(m).pickers@
        },
        sight.topmost is None ==> {
            &&& act == (ModalAct::Resolve { req })
            &&& !final(m).busy
            &&& final(m).queue@ == old(m).queue@.skip(1)
            &&& final(m).alerts@ == old(m).alerts@.remove(req)
            &&& final(m).pickers@ == old(m).pickers@.remove(req)
        },
{
    assert(seq![old(m).queue@[0]] + old(m).queue@.skip(1) =~= old(m).queue@);
}

/// A dialog on screen comes down. Where nothing still waits to present it, its presenter dismisses
/// it, unless it animates; a dialog that is not attached, or whose presenter animates, waits at the
/// head, counting, until its retries are used up; and one without a controller needs nothing. Its
/// controller is let go in the end, and nobody else's.
pub proof fn law_dialog_comes_down(
    m: &mut Modal,
    sight: Sight,
    act: ModalAct,
    req: u64,
    tries: u32,
)
    requires
        call_ensures(Modal::pump, (m, sight), act),
        !old(m).busy,
        old(m).queue@.len() > 0,
        old(m).queue@[0] == ModalOp::Dismiss(req, tries),
        forall|i: int|
            0 <= i < old(m).queue@.len() ==> !(#[trigger] old(m).queue@[i] matches ModalOp::Present(
                r,
                _,
            ) && r == req),
    ensures
        ({
            let known = old(m).alerts@.dom().contains(req) || old(m).pickers@.dom().contains(req);
            let ready = sight.presenter is Some && !sight.presenter->0.animating;
            &&& known && ready ==> {
                &&& act == (ModalAct::Dismiss {
                    from: sight.presenter->0.vc,
                    watchdog: final(m).generation,
                })
                &&& final(m).busy
                &&& final(m).generation != old(m).generation
            }
            &&& known && !ready && tries < 100 ==> {
                &&& act is Retry
                &&& final(m).busy
                &&& final(m).queue@ == old(m).queue@.update(
                    0,
                    ModalOp::Dismiss(req, (tries + 1) as u32),
                )
                &&& final(m).alerts@ == old(m).alerts@
                &&& final(m).pickers@ == old(m).pickers@
            }
            &&& !known || (!ready && tries >= 100) ==> act is Dropped && !final(m).busy
            &&& !(act is Retry) ==> {
                &&& final(m).queue@ == old(m).queue@.skip(1)
                &&& final(m).alerts@ == old(m).alerts@.remove(req)
                &&& final(m).pickers@ == old(m).pickers@.remove(req)
            }
        }),
{
    let rest = old(m).queue@.skip(1);
    let op = ModalOp::Dismiss(req, (tries + 1) as u32);
    assert(seq![op] + rest =~= old(m).queue@.update(0, op));
    lemma_none_presented(rest, req);
}

proof fn lemma_none_presented(queue: Seq<ModalOp>, req: u64)
    requires
        forall|i: int|
            0 <= i < queue.len() ==> !(#[trigger] queue[i] matches ModalOp::Present(r, _) && r
                == req),
    ensures
        without_present(queue, req) == queue,
    decreases queue.len(),
{
    if queue.len() > 0 {
        let front = queue.drop_last();
        assert forall|i: int| 0 <= i < front.len() implies !(
        #[trigger] front[i] matches ModalOp::Present(r, _) && r == req) by {
            assert(queue[i] == front[i]);
        }
        lemma_none_presented(front, req);
        assert(queue[queue.len() - 1] == queue.last());
        assert(front.push(queue.last()) =~= queue);
    }
}

/// A dismissal takes only its own request's presentations out of the queue: everything else that
/// waits stays, in order.
pub proof fn law_dismissal_drops_its_own_presentation_only(
    m: &mut Modal,
    sight: Sight,
    act: ModalAct,
    req: u64,
    tries: u32,
)
    requires
        call_ensures(Modal::pump, (m, sight), act),
        !old(m).busy,
        old(m).queue@.len() > 0,
        old(m).queue@[0] == ModalOp::Dismiss(req, tries),
        !(act is Retry),
    ensures
        final(m).queue@ == old(m).queue@.skip(1).filter(
            |op: ModalOp| !(op matches ModalOp::Present(r, _) && r == req),
        ),
        final(m).alerts@ == old(m).alerts@.remove(req),
        final(m).pickers@ == old(m).pickers@.remove(req),
{
    lemma_nothing_dropped(old(m).queue@.skip(1), req);
    lemma_without_filters(old(m).queue@.skip(1), req);
}

proof fn lemma_without_filters(queue: Seq<ModalOp>, req: u64)
    ensures
        without_present(queue, req) == queue.filter(
            |op: ModalOp| !(op matches ModalOp::Present(r, _) && r == req),
        ),
    decreases queue.len(),
{
    reveal(Seq::filter);
    if queue.len() > 0 {
        lemma_without_filters(queue.drop_last(), req);
    }
}

/// A deferred closure runs once, in its turn, and holds nothing up.
pub proof fn law_deferred_work_runs_in_its_turn(
    m: &mut Modal,
    sight: Sight,
    act: ModalAct,
    token: u64,
)
    requires
        call_ensures(Modal::pump, (m, sight), act),
        !old(m).busy,
        old(m).queue@.len() > 0,
        old(m).queue@[0] == ModalOp::Run(token),
    ensures
        act == (ModalAct::Run { token }),
        !final(m).busy,
        final(m).queue@ == old(m).queue@.skip(1),
        final(m).alerts@ == old(m).alerts@,
        final(m).pickers@ == old(m).pickers@,
{
}

/// A pump runs something exactly when the queue is free and something waits. What it runs is
/// pumped on from at once unless it holds the queue.
pub proof fn law_pump_runs_what_it_can(m: &mut Modal, sight: Sight, act: ModalAct)
    requires
        call_ensures(Modal::pump, (m, sight), act),
    ensures
        act is Idle <==> old(m).busy || old(m).queue@.len() == 0,
        act is Idle ==> final(m)@ == old(m)@,
        !old(m).busy && old(m).queue@.len() > 0 ==> (final(m).busy <==> act is Present || act is Dismiss
            || act is Retry),
{
}

/// What asked for another pump gets one: exactly the acts that hold nothing.
pub proof fn law_acts_that_hold_nothing_pump_again(m: &mut Modal, sight: Sight, act: ModalAct, r: bool)
    requires
        call_ensures(Modal::pump, (m, sight), act),
        call_ensures(ModalAct::again, (act,), r),
        !old(m).busy,
        old(m).queue@.len() > 0,
    ensures
        r == !final(m).busy,
{
}

/// An alert asked of an idle queue is the next thing presented, and is its request's controller
/// from then on.
pub proof fn law_alert_asked_is_presented(
    asked: &mut Modal,
    pumped: &mut Modal,
    req: u64,
    vc: usize,
    top: Sighted,
    presenter: Option<Sighted>,
    act: ModalAct,
    who: Option<usize>,
)
    requires
        !old(asked).busy,
        old(asked).queue@.len() == 0,
        call_ensures(Modal::present_alert, (asked, req, vc), ()),
        *final(asked) == *old(pumped),
        call_ensures(Modal::pump, (pumped, Sight { topmost: Some(top), presenter }), act),
        call_ensures(Modal::controller_of, (&*final(pumped), req), who),
        !top.animating,
    ensures
        act == (ModalAct::Present { on: top.vc, vc, watchdog: final(pumped).generation }),
        who == Some(vc),
        final(pumped).busy,
        final(pumped).queue@.len() == 0,
        forall|o: u64| o != req ==> final(pumped)@.controller(o) == old(asked)@.controller(o),
{
    assert(old(asked).queue@.push(ModalOp::Present(req, vc)).skip(1) =~= old(asked).queue@);
}

/// A document picker asked of an idle queue is the next thing presented, and is its request's
/// controller unless an alert is.
pub proof fn law_picker_asked_is_presented(
    asked: &mut Modal,
    pumped: &mut Modal,
    req: u64,
    vc: usize,
    top: Sighted,
    presenter: Option<Sighted>,
    act: ModalAct,
    who: Option<usize>,
)
    requires
        !old(asked).busy,
        old(asked).queue@.len() == 0,
        !old(asked).alerts@.dom().contains(req),
        call_ensures(Modal::present_doc_picker, (asked, req, vc), ()),
        *final(asked) == *old(pumped),
        call_ensures(Modal::pump, (pumped, Sight { topmost: Some(top), presenter }), act),
        call_ensures(Modal::controller_of, (&*final(pumped), req), who),
        !top.animating,
    ensures
        act == (ModalAct::Present { on: top.vc, vc, watchdog: final(pumped).generation }),
        who == Some(vc),
        final(pumped).busy,
        final(pumped).queue@.len() == 0,
        forall|o: u64| o != req ==> final(pumped)@.controller(o) == old(asked)@.controller(o),
{
    assert(old(asked).queue@.push(ModalOp::Present(req, vc)).skip(1) =~= old(asked).queue@);
}

/// A cover asked of an idle queue is the next thing presented, with every retry still to go.
pub proof fn law_cover_asked_is_presented(
    asked: &mut Modal,
    pumped: &mut Modal,
    vc: usize,
    top: Sighted,
    act: ModalAct,
)
    requires
        !old(asked).busy,
        old(asked).queue@.len() == 0,
        call_ensures(Modal::cover_present, (asked, vc), ()),
        *final(asked) == *old(pumped),
        call_ensures(Modal::pump, (pumped, Sight { topmost: Some(top), presenter: None }), act),
    ensures
        !top.animating ==> act == (ModalAct::Present {
            on: top.vc,
            vc,
            watchdog: final(pumped).generation,
        }),
        top.animating ==> act is Retry && final(pumped).queue@ == seq![ModalOp::Cover(vc, 1)],
        final(pumped).busy,
{
    let queue = old(asked).queue@.push(ModalOp::Cover(vc, 0));
    assert(queue.skip(1) =~= Seq::<ModalOp>::empty());
    assert(seq![ModalOp::Cover(vc, 1)] + queue.skip(1) =~= seq![ModalOp::Cover(vc, 1)]);
}

/// Dismissing a dialog on an idle queue brings it down by its presenter.
pub proof fn law_dismissal_asked_is_done(
    asked: &mut Modal,
    pumped: &mut Modal,
    req: u64,
    topmost: Option<Sighted>,
    by: Sighted,
    act: ModalAct,
)
    requires
        !old(asked).busy,
        old(asked).queue@.len() == 0,
        old(asked)@.controller(req) is Some,
        call_ensures(Modal::dismiss, (asked, req), ()),
        *final(asked) == *old(pumped),
        call_ensures(Modal::pump, (pumped, Sight { topmost, presenter: Some(by) }), act),
        !by.animating,
    ensures
        act == (ModalAct::Dismiss { from: by.vc, watchdog: final(pumped).generation }),
        final(pumped).busy,
        final(pumped)@.controller(req) is None,
{
    let queue = old(asked).queue@.push(ModalOp::Dismiss(req, 0));
    assert(queue.skip(1) =~= Seq::<ModalOp>::empty());
}

/// Everything asked for waits behind what was asked for before it, and disturbs none of it.
pub proof fn law_asking_queues_behind(
    m: &mut Modal,
    alert: &mut Modal,
    picker: &mut Modal,
    cover: &mut Modal,
    away: &mut Modal,
    op: ModalOp,
    req: u64,
    vc: usize,
)
    requires
        call_ensures(Modal::enqueue, (m, op), ()),
        call_ensures(Modal::present_alert, (alert, req, vc), ()),
        call_ensures(Modal::present_doc_picker, (picker, req, vc), ()),
        call_ensures(Modal::cover_present, (cover, vc), ()),
        call_ensures(Modal::dismiss, (away, req), ()),
    ensures
        final(m).queue@ == old(m).queue@ + seq![op],
        final(alert).queue@ == old(alert).queue@ + seq![ModalOp::Present(req, vc)],
        final(picker).queue@ == old(picker).queue@ + seq![ModalOp::Present(req, vc)],
        final(cover).queue@ == old(cover).queue@ + seq![ModalOp::Cover(vc, 0)],
        final(away).queue@ == old(away).queue@ + seq![ModalOp::Dismiss(req, 0)],
        final(m).busy == old(m).busy && final(m).generation == old(m).generation,
        final(alert).busy == old(alert).busy && final(alert).generation == old(alert).generation,
        final(picker).busy == old(picker).busy && final(picker).generation == old(picker).generation,
        final(cover).busy == old(cover).busy && final(cover).generation == old(cover).generation,
        final(away).busy == old(away).busy && final(away).generation == old(away).generation,
        final(alert).alerts@ == old(alert).alerts@.insert(req, vc),
        final(alert).pickers@ == old(alert).pickers@,
        final(picker).pickers@ == old(picker).pickers@.insert(req, vc),
        final(picker).alerts@ == old(picker).alerts@,
{
}

/// Deferred work runs at once on an idle queue, and otherwise behind everything that waits.
pub proof fn law_after_idle_runs_now_or_last(m: &mut Modal, token: u64, now: bool)
    requires
        call_ensures(Modal::after_idle, (m, token), now),
    ensures
        now <==> !old(m).busy && old(m).queue@.len() == 0,
        now ==> final(m)@ == old(m)@,
        !now ==> final(m).queue@ == old(m).queue@ + seq![ModalOp::Run(token)] && final(m).busy
            == old(m).busy,
{
}

/// The screen is asked about the controller the head op is about: the dialog to dismiss, or the
/// cover to present.
pub proof fn law_subject_is_the_head_ops_own(m: &Modal, r: Option<usize>)
    requires
        call_ensures(Modal::subject, (m,), r),
    ensures
        m.queue@.len() == 0 ==> r is None,
        m.queue@.len() > 0 ==> {
            &&& m.queue@[0] matches ModalOp::Cover(vc, _) ==> r == Some(vc)
            &&& m.queue@[0] matches ModalOp::Dismiss(req, _) ==> {
                &&& m.alerts@.dom().contains(req) ==> r == Some(m.alerts@[req])
                &&& !m.alerts@.dom().contains(req) && m.pickers@.dom().contains(req) ==> r == Some(
                    m.pickers@[req],
                )
                &&& !m.alerts@.dom().contains(req) && !m.pickers@.dom().contains(req) ==> r is None
            }
            &&& m.queue@[0] is Present || m.queue@[0] is Run ==> r is None
        },
{
}

/// Forgetting a request lets go of its controllers, and of nobody else's.
pub proof fn law_forgotten_request_has_no_controller(m: &mut Modal, req: u64, who: Option<usize>)
    requires
        call_ensures(Modal::forget, (m, req), ()),
        call_ensures(Modal::controller_of, (&*final(m), req), who),
    ensures
        who is None,
        forall|o: u64|
            o != req ==> final(m).alerts@.dom().contains(o) == old(m).alerts@.dom().contains(o)
                && final(m).pickers@.dom().contains(o) == old(m).pickers@.dom().contains(o)
                && final(m).alerts@[o] == old(m).alerts@[o] && final(m).pickers@[o]
                == old(m).pickers@[o],
        final(m).queue@ == old(m).queue@,
        final(m).busy == old(m).busy,
{
}

/// A transition holds the queue from its beginning to its completion; its watchdog frees the queue
/// only in between, and only its own.
pub proof fn law_transition_holds_the_queue(
    begun: &mut Modal,
    ended: &mut Modal,
    watched: &mut Modal,
    retried: &mut Modal,
    watchdog: u64,
    g: u64,
    lost: bool,
)
    requires
        call_ensures(Modal::begin_transition, (begun,), watchdog),
        call_ensures(Modal::end_transition, (ended,), ()),
        call_ensures(Modal::watchdog, (watched, g), lost),
        call_ensures(Modal::retry, (retried,), ()),
    ensures
        final(begun).busy && watchdog == final(begun).generation && watchdog != old(begun).generation,
        !final(ended).busy && final(ended).generation != old(ended).generation,
        lost <==> old(watched).busy && old(watched).generation == g,
        final(watched).busy <==> old(watched).busy && !lost,
        !final(retried).busy,
        final(begun).queue@ == old(begun).queue@,
        final(ended).queue@ == old(ended).queue@,
        final(watched).queue@ == old(watched).queue@,
        final(retried).queue@ == old(retried).queue@,
        final(retried).generation == old(retried).generation,
        final(watched).generation == old(watched).generation,
        final(begun).alerts@ == old(begun).alerts@ && final(begun).pickers@ == old(begun).pickers@,
        final(ended).alerts@ == old(ended).alerts@ && final(ended).pickers@ == old(ended).pickers@,
        final(watched).alerts@ == old(watched).alerts@ && final(watched).pickers@
            == old(watched).pickers@,
        final(retried).alerts@ == old(retried).alerts@ && final(retried).pickers@
            == old(retried).pickers@,
{
}

/// A cover that is up is dismissed by its presenter, and holds the queue meanwhile; one that is not
/// up counts as hidden at once, and holds nothing.
pub proof fn law_cover_dismissal_starts_where_it_is_up(
    m: &mut Modal,
    presenter: Option<usize>,
    start: CoverStart,
)
    requires
        call_ensures(Modal::cover_dismiss, (m, presenter), start),
    ensures
        start is Hidden <==> presenter is None,
        presenter is None ==> final(m)@ == old(m)@,
        presenter matches Some(from) ==> start == (CoverStart::Begin {
            from,
            watchdog: final(m).generation,
        }) && final(m).busy && final(m).generation != old(m).generation && final(m).queue@
            == old(m).queue@,
{
}

/// A cover is reported hidden in its completion's place only when that never came and the cover is
/// gone: never twice, and never while it is up.
pub proof fn law_lost_completion_is_reported_once(completed: bool, presented: bool, r: bool)
    requires
        call_ensures(cover_completion_lost, (completed, presented), r),
    ensures
        completed ==> !r,
        presented ==> !r,
        !completed && !presented ==> r,
{
}

/// The frontmost controller is the last of the chain that nothing below it is leaving: everything up
/// to it stays, and the next one, if any, is on its way out.
pub proof fn law_frontmost_stays(
    root: usize,
    presented: Vec<Presented>,
    r: Option<usize>,
    n: int,
)
    requires
        call_ensures(topmost_vc, (Some(root), &presented), r),
        0 <= n <= presented@.len(),
        forall|i: int| 0 <= i < n ==> !(#[trigger] presented@[i]).being_dismissed,
        n < presented@.len() ==> presented@[n].being_dismissed,
    ensures
        r == Some(
            if n == 0 {
                root
            } else {
                presented@[n - 1].vc
            },
        ),
{
    lemma_front(root, presented@, n, 0);
}

proof fn lemma_front(under: usize, presented: Seq<Presented>, n: int, from: int)
    requires
        0 <= from <= n <= presented.len(),
        forall|i: int| 0 <= i < n ==> !(#[trigger] presented[i]).being_dismissed,
        n < presented.len() ==> presented[n].being_dismissed,
    ensures
        front_from(under, presented, from) == if from == n {
            under
        } else {
            presented[n - 1].vc
        },
    decreases n - from,
{
    if from < n {
        lemma_front(presented[from].vc, presented, n, from + 1);
    }
}

/// Without a window there is no frontmost controller.
pub proof fn law_no_window_no_frontmost(presented: Vec<Presented>, r: Option<usize>)
    requires
        call_ensures(topmost_vc, (None, &presented), r),
    ensures
        r is None,
{
}

/// A cover's retries last as long as a transition may hold the queue, and a dismissal's longer.
pub proof fn law_retries_outlast_a_transition()
    ensures
        COVER_RETRIES * RETRY_MS == WATCHDOG_MS,
        DISMISS_RETRIES * RETRY_MS > WATCHDOG_MS,
        RETRY_MS < COVER_FALLBACK_MS < WATCHDOG_MS,
        WATCHDOG_MS == 2000 && RETRY_MS == 50 && COVER_FALLBACK_MS == 1500,
{
}

/// A queue starts empty and free, with nothing on screen to answer for.
pub proof fn law_queue_starts_free(m: Modal)
    requires
        call_ensures(Modal::new, (), m),
    ensures
        m.queue@.len() == 0 && !m.busy && m.generation == 0,
        m.alerts@.len() == 0 && m.pickers@.len() == 0,
{
    assert(m@.idle());
    assert(m@.alerts == Map::<u64, usize>::empty());
    assert(m@.pickers == Map::<u64, usize>::empty());
}

} // verus!
