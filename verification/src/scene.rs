//! Scenes and windows: every connected scene's window, the app-level lifecycle derived from all of
//! them, windows opened and closed, the keyboard's rail, and the frame clock.

use crate::event::{Event, Lifecycle};
use crate::types::{NodeId, Rect, Scalar, Size, Target};
use vstd::prelude::*;

verus! {

/// One connected scene's windowing state. The primary scene has no node of its own.
#[derive(Clone, Copy, PartialEq, Eq, Structural, Debug)]
pub struct SceneEntry {
    pub window: usize,
    pub root_view: usize,
    pub base: Rect,
    pub node: Option<NodeId>,
}

/// The node a window reports against: its own root, or the window target for the primary.
pub open spec fn target_spec(e: SceneEntry) -> Target {
    match e.node {
        Some(node) => Target::Node(node),
        None => Target::Window,
    }
}

pub fn scene_target(e: &SceneEntry) -> (r: Target)
    ensures
        r == target_spec(*e),
{
    match e.node {
        Some(node) => Target::Node(node),
        None => Target::Window,
    }
}

#[derive(Clone, Copy, PartialEq, Eq, Structural, Debug)]
pub enum SceneState {
    ForegroundActive,
    ForegroundInactive,
    Other,
}

pub open spec fn any_active(states: Seq<SceneState>) -> bool {
    exists|i: int| 0 <= i < states.len() && #[trigger] states[i] == SceneState::ForegroundActive
}

pub open spec fn any_foreground(states: Seq<SceneState>) -> bool {
    exists|i: int| 0 <= i < states.len() && #[trigger] states[i] != SceneState::Other
}

/// The lifecycle events between two app-level states, foreground before activity.
pub open spec fn transitions(
    was_foreground: bool,
    was_active: bool,
    foreground: bool,
    active: bool,
) -> Seq<Lifecycle> {
    (if was_foreground == foreground {
        Seq::empty()
    } else if foreground {
        seq![Lifecycle::WillEnterForeground]
    } else {
        seq![Lifecycle::DidEnterBackground]
    }) + (if was_active == active {
        Seq::empty()
    } else if active {
        seq![Lifecycle::DidBecomeActive]
    } else {
        seq![Lifecycle::WillResignActive]
    })
}

/// How a connecting scene is treated.
#[derive(Clone, Copy, PartialEq, Eq, Structural, Debug)]
pub enum Connect {
    /// The launch waits for a scene: this one mounts the app.
    Primary,
    /// A window the app asked for.
    Secondary(NodeId),
    /// A session restored from a previous run: nothing to mount behind it.
    Destroy,
}

#[derive(Clone, Copy, PartialEq, Eq, Structural, Debug)]
pub enum WindowOpen {
    Unsupported,
    Pending,
}

/// A window asked for and not connected yet.
#[derive(Debug)]
pub struct PendingWindow {
    pub node: NodeId,
    pub title: String,
}

pub struct Scenes {
    pub entries: Vec<SceneEntry>,
    pub foreground: bool,
    pub active: bool,
    /// The app waits to be mounted in the first scene.
    pub launching: bool,
    pub pending: Vec<PendingWindow>,
}

/// The entries without those of `node`.
pub open spec fn without_node(entries: Seq<SceneEntry>, node: NodeId) -> Seq<SceneEntry>
    decreases entries.len(),
{
    if entries.len() == 0 {
        entries
    } else if entries.last().node == Some(node) {
        without_node(entries.drop_last(), node)
    } else {
        without_node(entries.drop_last(), node).push(entries.last())
    }
}

/// The entries without those rooted at `root`.
pub open spec fn without_root(entries: Seq<SceneEntry>, root: usize) -> Seq<SceneEntry>
    decreases entries.len(),
{
    if entries.len() == 0 {
        entries
    } else if entries.last().root_view == root {
        without_root(entries.drop_last(), root)
    } else {
        without_root(entries.drop_last(), root).push(entries.last())
    }
}

/// The pending windows without those of `node`.
pub open spec fn not_pending(pending: Seq<PendingWindow>, node: NodeId) -> Seq<PendingWindow>
    decreases pending.len(),
{
    if pending.len() == 0 {
        pending
    } else if pending.last().node == node {
        not_pending(pending.drop_last(), node)
    } else {
        not_pending(pending.drop_last(), node).push(pending.last())
    }
}

/// The first entry, from `from`, whose window is among `windows`.
pub open spec fn window_from(entries: Seq<SceneEntry>, windows: Seq<usize>, from: int) -> Option<
    int,
>
    decreases entries.len() - from,
{
    if from < 0 || from >= entries.len() {
        None
    } else if windows.contains(entries[from].window) {
        Some(from)
    } else {
        window_from(entries, windows, from + 1)
    }
}

/// The first primary entry from `from`.
pub open spec fn primary_from(entries: Seq<SceneEntry>, from: int) -> Option<int>
    decreases entries.len() - from,
{
    if from < 0 || from >= entries.len() {
        None
    } else if entries[from].node is None {
        Some(from)
    } else {
        primary_from(entries, from + 1)
    }
}

/// The first entry, from `from`, rooted at `root`.
pub open spec fn root_from(entries: Seq<SceneEntry>, root: usize, from: int) -> Option<int>
    decreases entries.len() - from,
{
    if from < 0 || from >= entries.len() {
        None
    } else if entries[from].root_view == root {
        Some(from)
    } else {
        root_from(entries, root, from + 1)
    }
}

pub open spec fn entry_at(entries: Seq<SceneEntry>, i: Option<int>) -> Option<SceneEntry> {
    match i {
        Some(i) => Some(entries[i]),
        None => None,
    }
}

fn contains(v: &Vec<usize>, x: usize) -> (r: bool)
    ensures
        r == v@.contains(x),
{
    let n: usize = v.len();
    for i in 0..n
        invariant
            n == v@.len(),
            forall|j: int| 0 <= j < i ==> v@[j] != x,
    {
        if v[i] == x {
            return true;
        }
    }
    false
}

impl Scenes {
    pub fn new() -> (s: Scenes)
        ensures
            s.entries@.len() == 0,
            !s.foreground,
            !s.active,
            !s.launching,
            s.pending@.len() == 0,
    {
        Scenes {
            entries: Vec::new(),
            foreground: false,
            active: false,
            launching: false,
            pending: Vec::new(),
        }
    }

    /// The first window among `windows`.
    fn first_of(&self, windows: &Vec<usize>) -> (r: Option<SceneEntry>)
        ensures
            r == entry_at(self.entries@, window_from(self.entries@, windows@, 0)),
    {
        let mut i: usize = 0;
        while i < self.entries.len()
            invariant
                i <= self.entries@.len(),
                window_from(self.entries@, windows@, 0) == window_from(
                    self.entries@,
                    windows@,
                    i as int,
                ),
            decreases self.entries@.len() - i,
        {
            if contains(windows, self.entries[i].window) {
                return Some(self.entries[i]);
            }
            i = i + 1;
        }
        None
    }

    /// The scene the user types into: the first whose window is key, else the primary.
    pub fn key_scene(&self, key_windows: &Vec<usize>) -> (r: Option<SceneEntry>)
        ensures
            r == (if window_from(self.entries@, key_windows@, 0) is Some {
                entry_at(self.entries@, window_from(self.entries@, key_windows@, 0))
            } else {
                entry_at(self.entries@, primary_from(self.entries@, 0))
            }),
    {
        let key = self.first_of(key_windows);
        if key.is_some() {
            return key;
        }
        let mut i: usize = 0;
        while i < self.entries.len()
            invariant
                i <= self.entries@.len(),
                primary_from(self.entries@, 0) == primary_from(self.entries@, i as int),
                window_from(self.entries@, key_windows@, 0) is None,
            decreases self.entries@.len() - i,
        {
            if self.entries[i].node.is_none() {
                return Some(self.entries[i]);
            }
            i = i + 1;
        }
        None
    }

    /// The scene a view lives in, by the window it is in.
    pub fn scene_of(&self, window: Option<usize>) -> (r: Option<SceneEntry>)
        ensures
            r == (match window {
                None => None,
                Some(w) => entry_at(self.entries@, window_from(self.entries@, seq![w], 0)),
            }),
    {
        match window {
            None => None,
            Some(w) => {
                let one = vec![w];
                proof {
                    assert(one@ =~= seq![w]);
                }
                self.first_of(&one)
            },
        }
    }

    /// The scene of a window root.
    pub fn scene_of_root(&self, root: usize) -> (r: Option<SceneEntry>)
        ensures
            r == entry_at(self.entries@, root_from(self.entries@, root, 0)),
    {
        let mut i: usize = 0;
        while i < self.entries.len()
            invariant
                i <= self.entries@.len(),
                root_from(self.entries@, root, 0) == root_from(self.entries@, root, i as int),
            decreases self.entries@.len() - i,
        {
            if self.entries[i].root_view == root {
                return Some(self.entries[i]);
            }
            i = i + 1;
        }
        None
    }

    /// The base frame of the scene in `window` is `base` from now on.
    pub fn set_base(&mut self, window: usize, base: Rect)
        ensures
            final(self).entries@ == (match window_from(old(self).entries@, seq![window], 0) {
                Some(i) => old(self).entries@.update(
                    i,
                    SceneEntry { base, ..old(self).entries@[i] },
                ),
                None => old(self).entries@,
            }),
            final(self).foreground == old(self).foreground,
            final(self).active == old(self).active,
            final(self).launching == old(self).launching,
            final(self).pending == old(self).pending,
    {
        let mut i: usize = 0;
        while i < self.entries.len()
            invariant
                i <= self.entries@.len(),
                *self == *old(self),
                window_from(self.entries@, seq![window], 0) == window_from(
                    self.entries@,
                    seq![window],
                    i as int,
                ),
            decreases self.entries@.len() - i,
        {
            let e = self.entries[i];
            proof {
                assert(seq![window].contains(e.window) == (e.window == window)) by {
                    assert(seq![window][0] == window);
                }
            }
            if e.window == window {
                self.entries[i] = SceneEntry { base, ..e };
                return ;
            }
            i = i + 1;
        }
    }

    /// Recompute the app-level lifecycle from all scenes: what to report, in order.
    pub fn note_lifecycle(&mut self, states: &Vec<SceneState>) -> (r: Vec<Lifecycle>)
        ensures
            r@ == transitions(
                old(self).foreground,
                old(self).active,
                any_foreground(states@),
                any_active(states@),
            ),
            final(self).foreground == any_foreground(states@),
            final(self).active == any_active(states@),
            final(self).entries == old(self).entries,
            final(self).launching == old(self).launching,
            final(self).pending == old(self).pending,
    {
        let mut active = false;
        let mut foreground = false;
        let n: usize = states.len();
        for i in 0..n
            invariant
                n == states@.len(),
                active == any_active(states@.take(i as int)),
                foreground == any_foreground(states@.take(i as int)),
        {
            proof {
                let a = states@.take(i as int);
                let b = states@.take(i + 1);
                assert(b == a.push(states@[i as int]));
                assert(forall|k: int| 0 <= k < a.len() ==> b[k] == a[k]);
                assert(b[i as int] == states@[i as int]);
                if any_active(a) {
                    let k = choose|k: int|
                        0 <= k < a.len() && #[trigger] a[k] == SceneState::ForegroundActive;
                    assert(b[k] == SceneState::ForegroundActive);
                }
                if any_foreground(a) {
                    let k = choose|k: int|
                        0 <= k < a.len() && #[trigger] a[k] != SceneState::Other;
                    assert(b[k] != SceneState::Other);
                }
            }
            match states[i] {
                SceneState::ForegroundActive => {
                    active = true;
                    foreground = true;
                },
                SceneState::ForegroundInactive => {
                    foreground = true;
                },
                SceneState::Other => {},
            }
        }
        proof {
            assert(states@.take(n as int) == states@);
        }
        let mut out: Vec<Lifecycle> = Vec::new();
        if self.foreground != foreground {
            out.push(
                if foreground {
                    Lifecycle::WillEnterForeground
                } else {
                    Lifecycle::DidEnterBackground
                },
            );
        }
        if self.active != active {
            out.push(
                if active {
                    Lifecycle::DidBecomeActive
                } else {
                    Lifecycle::WillResignActive
                },
            );
        }
        proof {
            assert(out@ =~= transitions(
                old(self).foreground,
                old(self).active,
                foreground,
                active,
            ));
        }
        self.foreground = foreground;
        self.active = active;
        out
    }

    /// The launch waits for its first scene.
    pub fn launch(&mut self)
        ensures
            *final(self) == (Scenes { launching: true, ..*old(self) }),
    {
        self.launching = true;
    }

    /// A scene connects; `node` is the window root its request names. A window that connects is
    /// pending no longer.
    pub fn will_connect(&mut self, node: Option<NodeId>) -> (r: Connect)
        ensures
            r == (match node {
                Some(node) => Connect::Secondary(node),
                None => if old(self).launching {
                    Connect::Primary
                } else {
                    Connect::Destroy
                },
            }),
            final(self).entries == old(self).entries,
            final(self).foreground == old(self).foreground,
            final(self).active == old(self).active,
            final(self).launching == (old(self).launching && node is Some),
            final(self).pending@ == (match node {
                Some(node) => not_pending(old(self).pending@, node),
                None => old(self).pending@,
            }),
    {
        match node {
            Some(node) => {
                self.drop_pending(node);
                Connect::Secondary(node)
            },
            None => {
                if self.launching {
                    self.launching = false;
                    Connect::Primary
                } else {
                    Connect::Destroy
                }
            },
        }
    }

    fn drop_pending(&mut self, node: NodeId)
        ensures
            final(self).entries == old(self).entries,
            final(self).foreground == old(self).foreground,
            final(self).active == old(self).active,
            final(self).launching == old(self).launching,
            final(self).pending@ == not_pending(old(self).pending@, node),
    {
        let mut rest: Vec<PendingWindow> = Vec::new();
        rest.append(&mut self.pending);
        let ghost all = rest@;
        let mut back: Vec<PendingWindow> = Vec::new();
        let n: usize = rest.len();
        for k in 0..n
            invariant
                n == all.len(),
                rest@ == all.take(n - k),
                back@ == all.skip(n - k).reverse(),
        {
            match rest.pop() {
                Some(w) => {
                    proof {
                        assert(w == all[n - 1 - k]);
                        assert(rest@ =~= all.take(n - 1 - k));
                    }
                    back.push(w);
                    proof {
                        assert(back@ =~= all.skip(n - 1 - k).reverse());
                    }
                },
                None => {
                    proof {
                        assert(false);
                    }
                },
            }
        }
        proof {
            assert(all.skip(0) == all);
            assert(all.take(0).len() == 0);
        }
        for k in 0..n
            invariant
                n == all.len(),
                back@ == all.skip(k as int).reverse(),
                self.pending@ == not_pending(all.take(k as int), node),
                self.entries == old(self).entries,
                self.foreground == old(self).foreground,
                self.active == old(self).active,
                self.launching == old(self).launching,
        {
            proof {
                assert(all.take(k + 1).drop_last() == all.take(k as int));
            }
            match back.pop() {
                Some(w) => {
                    proof {
                        assert(w == all[k as int]);
                        assert(back@ =~= all.skip(k + 1).reverse());
                    }
                    if w.node != node {
                        self.pending.push(w);
                    }
                },
                None => {
                    proof {
                        assert(false);
                    }
                },
            }
        }
        proof {
            assert(all.take(n as int) == all);
        }
    }

    /// The window built for a connecting scene.
    pub fn connected(&mut self, entry: SceneEntry)
        ensures
            final(self).entries@ == old(self).entries@.push(entry),
            final(self).foreground == old(self).foreground,
            final(self).active == old(self).active,
            final(self).launching == old(self).launching,
            final(self).pending == old(self).pending,
    {
        self.entries.push(entry);
    }

    /// Drop the window of `node`: it was closed before its scene connected, or its scene is gone.
    pub fn drop_node(&mut self, node: NodeId)
        ensures
            final(self).entries@ == without_node(old(self).entries@, node),
            final(self).foreground == old(self).foreground,
            final(self).active == old(self).active,
            final(self).launching == old(self).launching,
            final(self).pending == old(self).pending,
    {
        let mut kept: Vec<SceneEntry> = Vec::new();
        let n: usize = self.entries.len();
        for i in 0..n
            invariant
                n == self.entries@.len(),
                *self == *old(self),
                kept@ == without_node(self.entries@.take(i as int), node),
        {
            proof {
                assert(self.entries@.take(i + 1).drop_last() == self.entries@.take(i as int));
            }
            let e = self.entries[i];
            let hit = match e.node {
                Some(x) => x == node,
                None => false,
            };
            if !hit {
                kept.push(e);
            }
        }
        proof {
            assert(self.entries@.take(n as int) == self.entries@);
        }
        self.entries = kept;
    }

    /// A window root was released without its scene disconnecting.
    pub fn release_root(&mut self, root: usize)
        ensures
            final(self).entries@ == without_root(old(self).entries@, root),
            final(self).foreground == old(self).foreground,
            final(self).active == old(self).active,
            final(self).launching == old(self).launching,
            final(self).pending == old(self).pending,
    {
        let mut kept: Vec<SceneEntry> = Vec::new();
        let n: usize = self.entries.len();
        for i in 0..n
            invariant
                n == self.entries@.len(),
                *self == *old(self),
                kept@ == without_root(self.entries@.take(i as int), root),
        {
            proof {
                assert(self.entries@.take(i + 1).drop_last() == self.entries@.take(i as int));
            }
            let e = self.entries[i];
            if e.root_view != root {
                kept.push(e);
            }
        }
        proof {
            assert(self.entries@.take(n as int) == self.entries@);
        }
        self.entries = kept;
    }

    /// The window node of a scene, by its windows: only a secondary window has one.
    pub open spec fn node_of(self, windows: Seq<usize>) -> Option<NodeId> {
        match window_from(self.entries@, windows, 0) {
            Some(i) => self.entries@[i].node,
            None => None,
        }
    }

    pub fn scene_node(&self, windows: &Vec<usize>) -> (r: Option<NodeId>)
        ensures
            r == self.node_of(windows@),
    {
        match self.first_of(windows) {
            Some(e) => e.node,
            None => None,
        }
    }

    /// A scene disconnected: its window is dropped and reported closed.
    pub fn did_disconnect(&mut self, windows: &Vec<usize>) -> (r: Option<(NodeId, Event)>)
        ensures
            match old(self).node_of(windows@) {
                Some(node) => r == Some((node, Event::WindowClosed)) && final(self).entries@
                    == without_node(old(self).entries@, node),
                None => r is None && final(self).entries@ == old(self).entries@,
            },
            final(self).foreground == old(self).foreground,
            final(self).active == old(self).active,
            final(self).launching == old(self).launching,
            final(self).pending == old(self).pending,
    {
        match self.scene_node(windows) {
            Some(node) => {
                self.drop_node(node);
                Some((node, Event::WindowClosed))
            },
            None => None,
        }
    }

    /// A scene became active, or is about to stop being so: reported for a secondary window.
    pub fn focus_changed(&self, windows: &Vec<usize>, focused: bool) -> (r: Option<(NodeId, Event)>)
        ensures
            r == (match self.node_of(windows@) {
                Some(node) => Some((node, Event::WindowFocused(focused))),
                None => None,
            }),
    {
        match self.scene_node(windows) {
            Some(node) => Some((node, Event::WindowFocused(focused))),
            None => None,
        }
    }

    /// Open a window. A device that shows one scene has none to give, and preferences are modal
    /// on a mobile platform; otherwise a scene is requested, and connects later.
    pub fn open_window(
        &mut self,
        multiple: bool,
        preferences: bool,
        node: NodeId,
        title: String,
    ) -> (r: WindowOpen)
        ensures
            r == (if !multiple || preferences {
                WindowOpen::Unsupported
            } else {
                WindowOpen::Pending
            }),
            final(self).pending@ == (if r == WindowOpen::Pending {
                old(self).pending@.push(PendingWindow { node, title })
            } else {
                old(self).pending@
            }),
            final(self).entries == old(self).entries,
            final(self).foreground == old(self).foreground,
            final(self).active == old(self).active,
            final(self).launching == old(self).launching,
    {
        if !multiple || preferences {
            return WindowOpen::Unsupported;
        }
        self.pending.push(PendingWindow { node, title });
        WindowOpen::Pending
    }
}

/// The smallest size a window is asked to keep: the app's own, else the bundle's when both its
/// numbers are positive.
pub fn min_window_size(app: Option<Size>, bundle: Option<Size>) -> (r: Option<Size>)
    ensures
        r == (match app {
            Some(s) => Some(s),
            None => match bundle {
                Some(s) if Scalar(0).lt_spec(s.width) && Scalar(0).lt_spec(s.height) => Some(s),
                _ => None,
            },
        }),
{
    match app {
        Some(s) => Some(s),
        None => match bundle {
            Some(s) => {
                if s.width.is_positive() && s.height.is_positive() {
                    Some(s)
                } else {
                    None
                }
            },
            None => None,
        },
    }
}

/// Whether a scene's own bounds can be used: one not placed yet has none, and the screen stands in.
pub fn scene_placed(size: Size) -> (r: bool)
    ensures
        r == (Scalar(0).lt_spec(size.width) && Scalar(0).lt_spec(size.height)),
{
    size.width.is_positive() && size.height.is_positive()
}

/// What the keyboard's frame asks of the key window: whether its root is resized and the size
/// reported, and whether the focused field is revealed.
#[derive(Clone, Copy, PartialEq, Eq, Structural, Debug)]
pub struct KeyboardRail {
    pub resize: bool,
    pub reveal: bool,
}

/// The keyboard leaves `height` of a root that has `base` at rest and `current` now.
pub fn keyboard_rail(height: Scalar, current: Scalar, base: Scalar) -> (r: KeyboardRail)
    ensures
        r.resize == !current.same_spec(height),
        r.reveal == height.lt_spec(base),
{
    KeyboardRail { resize: !current.same(height), reveal: height.less(base) }
}

/// A deep link: reported to the navigation host when there is one and the link names a route.
pub fn open_url(host: Option<NodeId>, route: String) -> (r: Option<(NodeId, Event)>)
    ensures
        r == (match host {
            Some(node) if route@.len() > 0 => Some((node, Event::RouteRequested(route))),
            _ => None,
        }),
{
    match host {
        Some(node) => {
            if route.as_str().unicode_len() > 0 {
                Some((node, Event::RouteRequested(route)))
            } else {
                None
            }
        },
        None => None,
    }
}

/// The frame clock: one display link, and the callback waiting for the next frame.
pub struct FrameClock {
    pub linked: bool,
    pub pending: Option<u64>,
    pub paused: bool,
}

impl FrameClock {
    /// A waiting callback keeps the link running.
    pub open spec fn wf(self) -> bool {
        self.pending is Some ==> self.linked && !self.paused
    }

    pub fn new() -> (c: FrameClock)
        ensures
            c.wf(),
            !c.linked,
            c.pending is None,
            c.paused,
    {
        FrameClock { linked: false, pending: None, paused: true }
    }

    /// Ask for the next frame: the newest callback is the one delivered. Whether a link has to be
    /// made first; it runs from now on.
    pub fn request_frame(&mut self, callback: u64) -> (make: bool)
        requires
            old(self).wf(),
        ensures
            final(self).wf(),
            make == !old(self).linked,
            final(self).linked,
            !final(self).paused,
            final(self).pending == Some(callback),
    {
        let make = !self.linked;
        self.linked = true;
        self.pending = Some(callback);
        self.paused = false;
        make
    }

    /// A frame: the callback to deliver, which may ask for another.
    pub fn step(&mut self) -> (r: Option<u64>)
        requires
            old(self).wf(),
        ensures
            final(self).wf(),
            r == old(self).pending,
            final(self).pending is None,
            final(self).linked == old(self).linked,
            final(self).paused == old(self).paused,
    {
        let r = self.pending;
        self.pending = None;
        r
    }

    /// After the callback: the link pauses unless another frame was asked for.
    pub fn settle(&mut self) -> (pause: bool)
        requires
            old(self).wf(),
        ensures
            final(self).wf(),
            pause == (old(self).pending is None),
            final(self).paused == (pause || old(self).paused),
            final(self).pending == old(self).pending,
            final(self).linked == old(self).linked,
    {
        let pause = self.pending.is_none();
        if pause {
            self.paused = true;
        }
        pause
    }
}

/// Focus moving between two windows of the app is no lifecycle event: while some scene stays
/// active, nothing is reported.
pub proof fn law_focus_between_windows_is_silent(before: Seq<SceneState>, after: Seq<SceneState>)
    requires
        any_active(before),
        any_active(after),
    ensures
        transitions(
            any_foreground(before),
            any_active(before),
            any_foreground(after),
            any_active(after),
        ).len() == 0,
{
    let i = choose|i: int|
        0 <= i < before.len() && #[trigger] before[i] == SceneState::ForegroundActive;
    assert(before[i] != SceneState::Other);
    let j = choose|j: int|
        0 <= j < after.len() && #[trigger] after[j] == SceneState::ForegroundActive;
    assert(after[j] != SceneState::Other);
}

/// An app is never active in the background.
pub proof fn law_active_is_foreground(states: Seq<SceneState>)
    requires
        any_active(states),
    ensures
        any_foreground(states),
{
    let i = choose|i: int|
        0 <= i < states.len() && #[trigger] states[i] == SceneState::ForegroundActive;
    assert(states[i] != SceneState::Other);
}

/// A window dropped is found no more.
pub proof fn law_dropped_window_is_gone(entries: Seq<SceneEntry>, node: NodeId)
    ensures
        forall|i: int|
            0 <= i < without_node(entries, node).len() ==> (#[trigger] without_node(
                entries,
                node,
            )[i]).node != Some(node),
    decreases entries.len(),
{
    if entries.len() > 0 {
        law_dropped_window_is_gone(entries.drop_last(), node);
    }
}

/// An activity a scene connects with: its type, and the node number it carries, if any.
#[derive(Debug)]
pub struct Activity {
    pub kind: String,
    pub node: Option<u64>,
}

/// Whether an activity asks for a window of Day's.
pub open spec fn names_window(a: Activity) -> bool {
    a.kind@ == "dev.daybrite.day.window"@ && a.node is Some
}

/// The node, from position `from`, of the first activity that asks for a window.
pub open spec fn activity_from(activities: Seq<Activity>, from: int) -> Option<NodeId>
    decreases activities.len() - from,
{
    if from < 0 || from >= activities.len() {
        None
    } else if names_window(activities[from]) {
        Some(NodeId(activities[from].node->0))
    } else {
        activity_from(activities, from + 1)
    }
}

/// The root node a secondary scene's connection carries.
pub fn scene_activity_node(activities: &Vec<Activity>) -> (r: Option<NodeId>)
    ensures
        r == activity_from(activities@, 0),
{
    let window = "dev.daybrite.day.window".to_string();
    let mut i: usize = 0;
    while i < activities.len()
        invariant
            i <= activities@.len(),
            window@ == "dev.daybrite.day.window"@,
            activity_from(activities@, 0) == activity_from(activities@, i as int),
        decreases activities@.len() - i,
    {
        let a = &activities[i];
        if a.kind == window {
            match a.node {
                Some(n) => {
                    return Some(NodeId(n));
                },
                None => {},
            }
        }
        i = i + 1;
    }
    None
}

/// A window reports to its own root, and the primary one to the window itself.
pub proof fn law_window_reports_to_its_root(e: &SceneEntry, r: Target)
    requires
        call_ensures(scene_target, (e,), r),
    ensures
        e.node matches Some(node) ==> r == Target::Node(node),
        e.node is None ==> r == Target::Window,
{
}

proof fn lemma_window_at(entries: Seq<SceneEntry>, windows: Seq<usize>, i: int, from: int)
    requires
        0 <= from <= i < entries.len(),
        windows.contains(entries[i].window),
        forall|k: int| 0 <= k < i ==> !windows.contains((#[trigger] entries[k]).window),
    ensures
        window_from(entries, windows, from) == Some(i),
    decreases i - from,
{
    if from < i {
        lemma_window_at(entries, windows, i, from + 1);
    }
}

proof fn lemma_no_window(entries: Seq<SceneEntry>, windows: Seq<usize>, from: int)
    requires
        0 <= from,
        forall|k: int| 0 <= k < entries.len() ==> !windows.contains((#[trigger] entries[k]).window),
    ensures
        window_from(entries, windows, from) is None,
    decreases entries.len() - from,
{
    if from < entries.len() {
        lemma_no_window(entries, windows, from + 1);
    }
}

proof fn lemma_primary_at(entries: Seq<SceneEntry>, i: int, from: int)
    requires
        0 <= from <= i < entries.len(),
        entries[i].node is None,
        forall|k: int| 0 <= k < i ==> (#[trigger] entries[k]).node is Some,
    ensures
        primary_from(entries, from) == Some(i),
    decreases i - from,
{
    if from < i {
        lemma_primary_at(entries, i, from + 1);
    }
}

proof fn lemma_root_at(entries: Seq<SceneEntry>, root: usize, i: int, from: int)
    requires
        0 <= from <= i < entries.len(),
        entries[i].root_view == root,
        forall|k: int| 0 <= k < i ==> (#[trigger] entries[k]).root_view != root,
    ensures
        root_from(entries, root, from) == Some(i),
    decreases i - from,
{
    if from < i {
        lemma_root_at(entries, root, i, from + 1);
    }
}

/// The scene the user types into is the first whose window is key, and the primary one while none is.
pub proof fn law_key_scene_has_the_key_window(
    s: &Scenes,
    keys: &Vec<usize>,
    i: int,
    r: Option<SceneEntry>,
)
    requires
        call_ensures(Scenes::key_scene, (s, keys), r),
        0 <= i < s.entries@.len(),
    ensures
        keys@.contains(s.entries@[i].window) && (forall|k: int|
            0 <= k < i ==> !keys@.contains((#[trigger] s.entries@[k]).window)) ==> r == Some(
            s.entries@[i],
        ),
        (forall|k: int|
            0 <= k < s.entries@.len() ==> !keys@.contains((#[trigger] s.entries@[k]).window))
            && s.entries@[i].node is None && (forall|k: int|
            0 <= k < i ==> (#[trigger] s.entries@[k]).node is Some) ==> r == Some(s.entries@[i]),
{
    if keys@.contains(s.entries@[i].window) && (forall|k: int|
        0 <= k < i ==> !keys@.contains((#[trigger] s.entries@[k]).window)) {
        lemma_window_at(s.entries@, keys@, i, 0);
    }
    if (forall|k: int|
        0 <= k < s.entries@.len() ==> !keys@.contains((#[trigger] s.entries@[k]).window))
        && s.entries@[i].node is None && (forall|k: int|
        0 <= k < i ==> (#[trigger] s.entries@[k]).node is Some) {
        lemma_no_window(s.entries@, keys@, 0);
        lemma_primary_at(s.entries@, i, 0);
    }
}

/// A view lives in the scene of its window, and a window root in its own; a view in no window in none.
pub proof fn law_view_lives_in_its_windows_scene(
    s: &Scenes,
    i: int,
    by_window: Option<SceneEntry>,
    by_root: Option<SceneEntry>,
    nowhere: Option<SceneEntry>,
)
    requires
        0 <= i < s.entries@.len(),
        forall|k: int| 0 <= k < i ==> (#[trigger] s.entries@[k]).window != s.entries@[i].window,
        forall|k: int| 0 <= k < i ==> (#[trigger] s.entries@[k]).root_view != s.entries@[i].root_view,
        call_ensures(Scenes::scene_of, (s, Some(s.entries@[i].window)), by_window),
        call_ensures(Scenes::scene_of_root, (s, s.entries@[i].root_view), by_root),
        call_ensures(Scenes::scene_of, (s, None::<usize>), nowhere),
    ensures
        by_window == Some(s.entries@[i]),
        by_root == Some(s.entries@[i]),
        nowhere is None,
{
    let one = seq![s.entries@[i].window];
    assert(one[0] == s.entries@[i].window);
    assert forall|k: int| 0 <= k < i implies !one.contains((#[trigger] s.entries@[k]).window) by {}
    lemma_window_at(s.entries@, one, i, 0);
    lemma_root_at(s.entries@, s.entries@[i].root_view, i, 0);
}

/// A scene's base frame is the one last set for its window, and no other scene's changes.
pub proof fn law_base_is_set_for_its_window(s: &mut Scenes, i: int, base: Rect)
    requires
        0 <= i < old(s).entries@.len(),
        forall|k: int| 0 <= k < i ==> (#[trigger] old(s).entries@[k]).window != old(s).entries@[i].window,
        call_ensures(Scenes::set_base, (s, old(s).entries@[i].window, base), ()),
    ensures
        final(s).entries@[i].base == base,
        final(s).entries@[i].node == old(s).entries@[i].node && final(s).entries@[i].window
            == old(s).entries@[i].window,
        final(s).entries@ == old(s).entries@.update(i, final(s).entries@[i]),
{
    let one = seq![old(s).entries@[i].window];
    assert(one[0] == old(s).entries@[i].window);
    assert forall|k: int| 0 <= k < i implies !one.contains((#[trigger] old(s).entries@[k]).window) by {}
    lemma_window_at(old(s).entries@, one, i, 0);
    assert(final(s).entries@ =~= old(s).entries@.update(i, final(s).entries@[i]));
}

/// The app's life is its scenes': it is in the foreground while any scene is, and active while any is.
/// What changed is reported, the foreground before the activity, and nothing else is.
pub proof fn law_app_lives_as_its_scenes_do(s: &mut Scenes, states: &Vec<SceneState>, r: Vec<Lifecycle>, i: int)
    requires
        call_ensures(Scenes::note_lifecycle, (s, states), r),
    ensures
        0 <= i < states@.len() && states@[i] == SceneState::ForegroundActive ==> final(s).active
            && final(s).foreground,
        0 <= i < states@.len() && states@[i] == SceneState::ForegroundInactive ==> final(s).foreground,
        states@.len() == 0 ==> !final(s).foreground && !final(s).active,
        (forall|k: int| 0 <= k < states@.len() ==> #[trigger] states@[k] == SceneState::Other)
            ==> !final(s).foreground && !final(s).active,
        (forall|k: int|
            0 <= k < states@.len() ==> #[trigger] states@[k] != SceneState::ForegroundActive)
            ==> !final(s).active,
        ({
            let shown: int = if old(s).foreground != final(s).foreground {
                1
            } else {
                0
            };
            let moved: int = if old(s).active != final(s).active {
                1
            } else {
                0
            };
            &&& r@.len() == shown + moved
            &&& shown == 1 ==> r@[0] == if final(s).foreground {
                Lifecycle::WillEnterForeground
            } else {
                Lifecycle::DidEnterBackground
            }
            &&& moved == 1 ==> r@[shown] == if final(s).active {
                Lifecycle::DidBecomeActive
            } else {
                Lifecycle::WillResignActive
            }
        }),
        final(s).entries == old(s).entries,
{
    if 0 <= i < states@.len() {
        assert(states@[i] == states@[i]);
    }
}

/// A connecting scene that names a window is that window, and it waits no longer; the first scene of a
/// launch mounts the app, once; and any other has nothing behind it.
pub proof fn law_connecting_scene_is_what_it_names(
    named: &mut Scenes,
    first: &mut Scenes,
    launched: &mut Scenes,
    node: NodeId,
    a: Connect,
    b: Connect,
)
    requires
        call_ensures(Scenes::will_connect, (named, Some(node)), a),
        call_ensures(Scenes::will_connect, (first, None::<NodeId>), b),
        call_ensures(Scenes::launch, (launched,), ()),
    ensures
        a == Connect::Secondary(node),
        final(named).pending@ == old(named).pending@.filter(|w: PendingWindow| w.node != node),
        final(named).launching == old(named).launching,
        old(first).launching ==> b == Connect::Primary,
        !old(first).launching ==> b == Connect::Destroy,
        !final(first).launching,
        final(first).pending@ == old(first).pending@,
        final(launched).launching,
        final(launched).entries == old(launched).entries,
{
    lemma_not_pending(old(named).pending@, node);
}

proof fn lemma_not_pending(pending: Seq<PendingWindow>, node: NodeId)
    ensures
        not_pending(pending, node) == pending.filter(|w: PendingWindow| w.node != node),
    decreases pending.len(),
{
    reveal(Seq::filter);
    if pending.len() > 0 {
        lemma_not_pending(pending.drop_last(), node);
    }
}

proof fn lemma_without_node(entries: Seq<SceneEntry>, node: NodeId)
    ensures
        without_node(entries, node) == entries.filter(|e: SceneEntry| e.node != Some(node)),
    decreases entries.len(),
{
    reveal(Seq::filter);
    if entries.len() > 0 {
        lemma_without_node(entries.drop_last(), node);
    }
}

proof fn lemma_without_root(entries: Seq<SceneEntry>, root: usize)
    ensures
        without_root(entries, root) == entries.filter(|e: SceneEntry| e.root_view != root),
    decreases entries.len(),
{
    reveal(Seq::filter);
    if entries.len() > 0 {
        lemma_without_root(entries.drop_last(), root);
    }
}

/// A window joins behind the others; one dropped, or whose root is released, is gone, and every other
/// window stays in its order.
pub proof fn law_windows_come_and_go_alone(
    more: &mut Scenes,
    less: &mut Scenes,
    freed: &mut Scenes,
    entry: SceneEntry,
    node: NodeId,
    root: usize,
)
    requires
        call_ensures(Scenes::connected, (more, entry), ()),
        call_ensures(Scenes::drop_node, (less, node), ()),
        call_ensures(Scenes::release_root, (freed, root), ()),
    ensures
        final(more).entries@ == old(more).entries@ + seq![entry],
        final(less).entries@ == old(less).entries@.filter(|e: SceneEntry| e.node != Some(node)),
        final(freed).entries@ == old(freed).entries@.filter(|e: SceneEntry| e.root_view != root),
{
    lemma_without_node(old(less).entries@, node);
    lemma_without_root(old(freed).entries@, root);
}

/// A secondary window's scene reports its focus and its closing to the window's node; the primary's
/// reports neither. A closed window is gone.
pub proof fn law_windows_report_focus_and_closing(
    s: &Scenes,
    gone: &mut Scenes,
    windows: &Vec<usize>,
    i: int,
    focused: bool,
    a: Option<(NodeId, Event)>,
    b: Option<(NodeId, Event)>,
)
    requires
        *s == *old(gone),
        0 <= i < s.entries@.len(),
        windows@.contains(s.entries@[i].window),
        forall|k: int| 0 <= k < i ==> !windows@.contains((#[trigger] s.entries@[k]).window),
        call_ensures(Scenes::focus_changed, (s, windows, focused), a),
        call_ensures(Scenes::did_disconnect, (gone, windows), b),
    ensures
        s.entries@[i].node matches Some(node) ==> {
            &&& a == Some((node, Event::WindowFocused(focused)))
            &&& b == Some((node, Event::WindowClosed))
            &&& final(gone).entries@ == s.entries@.filter(|e: SceneEntry| e.node != Some(node))
        },
        s.entries@[i].node is None ==> a is None && b is None && final(gone).entries@ == s.entries@,
{
    lemma_window_at(s.entries@, windows@, i, 0);
    match s.entries@[i].node {
        Some(node) => {
            lemma_without_node(s.entries@, node);
        },
        None => {},
    }
}

/// A window is asked for where the device shows several, and waits under its node and title; nowhere
/// else, and never for preferences.
pub proof fn law_window_asked_for_waits(
    s: &mut Scenes,
    multiple: bool,
    preferences: bool,
    node: NodeId,
    title: String,
    r: WindowOpen,
)
    requires
        call_ensures(Scenes::open_window, (s, multiple, preferences, node, title), r),
    ensures
        r == WindowOpen::Pending <==> multiple && !preferences,
        r == WindowOpen::Pending ==> final(s).pending@ == old(s).pending@ + seq![
            PendingWindow { node, title },
        ],
        r == WindowOpen::Unsupported ==> final(s).pending@ == old(s).pending@,
{
}

/// A window keeps the app's own least size, else the bundle's where that has an area; a scene without
/// an area is not placed yet.
pub proof fn law_least_size_is_the_apps_own(
    app: Size,
    bundle: Size,
    own: Option<Size>,
    theirs: Option<Size>,
    none: Option<Size>,
    placed: bool,
)
    requires
        call_ensures(min_window_size, (Some(app), Some(bundle)), own),
        call_ensures(min_window_size, (None::<Size>, Some(bundle)), theirs),
        call_ensures(min_window_size, (None::<Size>, None::<Size>), none),
        call_ensures(scene_placed, (bundle,), placed),
    ensures
        own == Some(app),
        placed <==> Scalar(0).lt_spec(bundle.width) && Scalar(0).lt_spec(bundle.height),
        placed ==> theirs == Some(bundle),
        !placed ==> theirs is None,
        none is None,
{
}

/// The keyboard resizes a root that has not the height it leaves, and reveals the field exactly while it
/// takes some of the root away.
pub proof fn law_keyboard_takes_what_it_covers(
    height: Scalar,
    current: Scalar,
    base: Scalar,
    r: KeyboardRail,
)
    requires
        call_ensures(keyboard_rail, (height, current, base), r),
        height.is_number() && current.is_number() && base.is_number(),
    ensures
        r.resize <==> current.order() != height.order(),
        r.reveal <==> height.order() < base.order(),
{
}

/// A deep link is a route asked of the navigation host, if there is one and the link names a route.
pub proof fn law_deep_link_asks_for_its_route(
    host: Option<NodeId>,
    route: String,
    r: Option<(NodeId, Event)>,
)
    requires
        call_ensures(open_url, (host, route), r),
    ensures
        host is None || route@.len() == 0 ==> r is None,
        host matches Some(node) ==> route@.len() > 0 ==> r == Some((node, Event::RouteRequested(route))),
{
}

/// The frame asked for last is the one delivered, once; the link is made once, runs while a frame is
/// waited for, and pauses when none is.
pub proof fn law_frame_asked_for_is_delivered_once(
    asked: &mut FrameClock,
    stepped: &mut FrameClock,
    settled: &mut FrameClock,
    callback: u64,
    make: bool,
    r: Option<u64>,
    pause: bool,
)
    requires
        call_ensures(FrameClock::request_frame, (asked, callback), make),
        *final(asked) == *old(stepped),
        call_ensures(FrameClock::step, (stepped,), r),
        *final(stepped) == *old(settled),
        call_ensures(FrameClock::settle, (settled,), pause),
    ensures
        make <==> !old(asked).linked,
        final(asked).linked && !final(asked).paused,
        r == Some(callback),
        final(stepped).pending is None,
        pause,
        final(settled).paused && final(settled).linked,
{
}

/// A scene's connection names the node of its first window activity that carries one.
pub proof fn law_connection_names_its_window(activities: &Vec<Activity>, i: int, r: Option<NodeId>)
    requires
        call_ensures(scene_activity_node, (activities,), r),
    ensures
        0 <= i < activities@.len() && activities@[i].kind@ == "dev.daybrite.day.window"@
            && activities@[i].node is Some && (forall|k: int|
            0 <= k < i ==> (#[trigger] activities@[k]).kind@ != "dev.daybrite.day.window"@
                || activities@[k].node is None) ==> r == Some(NodeId(activities@[i].node->0)),
        (forall|k: int|
            0 <= k < activities@.len() ==> (#[trigger] activities@[k]).kind@
                != "dev.daybrite.day.window"@ || activities@[k].node is None) ==> r is None,
{
    if 0 <= i < activities@.len() && activities@[i].kind@ == "dev.daybrite.day.window"@
        && activities@[i].node is Some && (forall|k: int|
        0 <= k < i ==> (#[trigger] activities@[k]).kind@ != "dev.daybrite.day.window"@
            || activities@[k].node is None) {
        lemma_activity_at(activities@, i, 0);
    }
    if forall|k: int|
        0 <= k < activities@.len() ==> (#[trigger] activities@[k]).kind@ != "dev.daybrite.day.window"@
            || activities@[k].node is None {
        lemma_no_activity(activities@, 0);
    }
}

proof fn lemma_activity_at(activities: Seq<Activity>, i: int, from: int)
    requires
        0 <= from <= i < activities.len(),
        activities[i].kind@ == "dev.daybrite.day.window"@ && activities[i].node is Some,
        forall|k: int|
            0 <= k < i ==> (#[trigger] activities[k]).kind@ != "dev.daybrite.day.window"@
                || activities[k].node is None,
    ensures
        activity_from(activities, from) == Some(NodeId(activities[i].node->0)),
    decreases i - from,
{
    if from < i {
        lemma_activity_at(activities, i, from + 1);
    }
}

proof fn lemma_no_activity(activities: Seq<Activity>, from: int)
    requires
        0 <= from,
        forall|k: int|
            0 <= k < activities.len() ==> (#[trigger] activities[k]).kind@
                != "dev.daybrite.day.window"@ || activities[k].node is None,
    ensures
        activity_from(activities, from) is None,
    decreases activities.len() - from,
{
    if from < activities.len() {
        lemma_no_activity(activities, from + 1);
    }
}

/// A list of scenes starts empty and in the background, a clock without a link, paused, waiting for
/// nothing.
pub proof fn law_scenes_and_clock_start_still(s: Scenes, c: FrameClock)
    requires
        call_ensures(Scenes::new, (), s),
        call_ensures(FrameClock::new, (), c),
    ensures
        s.entries@.len() == 0 && s.pending@.len() == 0 && !s.foreground && !s.active && !s.launching,
        !c.linked && c.paused && c.pending is None,
{
}

/// The node of a scene's window is that of the first window known.
pub proof fn law_scene_names_its_windows_node(s: &Scenes, windows: &Vec<usize>, i: int, r: Option<NodeId>)
    requires
        call_ensures(Scenes::scene_node, (s, windows), r),
        0 <= i < s.entries@.len(),
        windows@.contains(s.entries@[i].window),
        forall|k: int| 0 <= k < i ==> !windows@.contains((#[trigger] s.entries@[k]).window),
    ensures
        r == s.entries@[i].node,
{
    lemma_window_at(s.entries@, windows@, i, 0);
}

/// A base frame set, a window that joins, one dropped, or a root released says nothing of the app's life
/// or of the windows waited for.
pub proof fn law_windows_do_not_change_the_apps_life(
    a: &mut Scenes,
    b: &mut Scenes,
    c: &mut Scenes,
    d: &mut Scenes,
    window: usize,
    base: Rect,
    entry: SceneEntry,
    node: NodeId,
    root: usize,
)
    requires
        call_ensures(Scenes::set_base, (a, window, base), ()),
        call_ensures(Scenes::connected, (b, entry), ()),
        call_ensures(Scenes::drop_node, (c, node), ()),
        call_ensures(Scenes::release_root, (d, root), ()),
    ensures
        final(a).foreground == old(a).foreground && final(a).active == old(a).active && final(a).launching == old(a).launching && final(a).pending == old(a).pending,
        final(b).foreground == old(b).foreground && final(b).active == old(b).active && final(b).launching == old(b).launching && final(b).pending == old(b).pending,
        final(c).foreground == old(c).foreground && final(c).active == old(c).active && final(c).launching == old(c).launching && final(c).pending == old(c).pending,
        final(d).foreground == old(d).foreground && final(d).active == old(d).active && final(d).launching == old(d).launching && final(d).pending == old(d).pending,
{
}

/// A change of the app's life, a scene about to connect and a window asked for leave the windows that
/// are there alone; and the life of the app changes only where it is noted.
pub proof fn law_windows_stay_while_others_come(
    a: &mut Scenes,
    b: &mut Scenes,
    c: &mut Scenes,
    d: &mut Scenes,
    states: &Vec<SceneState>,
    noted: Vec<Lifecycle>,
    named: Option<NodeId>,
    connect: Connect,
    multiple: bool,
    preferences: bool,
    node: NodeId,
    title: String,
    opened: WindowOpen,
    windows: &Vec<usize>,
    closed: Option<(NodeId, Event)>,
)
    requires
        call_ensures(Scenes::note_lifecycle, (a, states), noted),
        call_ensures(Scenes::will_connect, (b, named), connect),
        call_ensures(Scenes::open_window, (c, multiple, preferences, node, title), opened),
        call_ensures(Scenes::did_disconnect, (d, windows), closed),
    ensures
        final(a).entries == old(a).entries && final(a).launching == old(a).launching && final(a).pending
            == old(a).pending,
        final(b).entries == old(b).entries && final(b).foreground == old(b).foreground && final(b).active
            == old(b).active,
        final(c).entries == old(c).entries && final(c).foreground == old(c).foreground && final(c).active
            == old(c).active && final(c).launching == old(c).launching,
        final(d).foreground == old(d).foreground && final(d).active == old(d).active && final(d).launching
            == old(d).launching && final(d).pending == old(d).pending,
{
}

/// With no key window and no primary scene there is no scene to type into.
pub proof fn law_no_scene_is_key_without_windows(s: &Scenes, keys: &Vec<usize>, r: Option<SceneEntry>)
    requires
        call_ensures(Scenes::key_scene, (s, keys), r),
        forall|k: int| 0 <= k < s.entries@.len() ==> !keys@.contains((#[trigger] s.entries@[k]).window),
        forall|k: int| 0 <= k < s.entries@.len() ==> (#[trigger] s.entries@[k]).node is Some,
    ensures
        r is None,
{
    lemma_no_window(s.entries@, keys@, 0);
    lemma_no_primary(s.entries@, 0);
}

proof fn lemma_no_primary(entries: Seq<SceneEntry>, from: int)
    requires
        0 <= from,
        forall|k: int| 0 <= k < entries.len() ==> (#[trigger] entries[k]).node is Some,
    ensures
        primary_from(entries, from) is None,
    decreases entries.len() - from,
{
    if from < entries.len() {
        lemma_no_primary(entries, from + 1);
    }
}

} // verus!
