//! The locker's decisions: which window to lock, blank or unlock, which
//! saver gets which input, and what the user's activity is answered with.
//!
//! The locker keeps one window per screen, and at most one saver per
//! window. The program around it talks to X11 and to the saver processes;
//! it hands each request, saver report and X11 event to `LockerCore`,
//! performs the plan it gets back, and reports the outcomes.

use vstd::prelude::*;
use crate::seq_facts::lemma_push_contains;
use rand::Rng;

verus! {

/// Requests to the locker.
#[derive(Clone, Copy, Debug, PartialEq, Eq, Structural)]
pub enum Request {
    /// Undo whatever other programs did to the locker's windows.
    Sanitize,
    /// Start the savers, or lock and blank the screens.
    Start,
    /// Lock the screens.
    Lock,
    /// Turn the monitor on or off.
    Power(bool),
    /// Stop the savers.
    Stop,
}

/// What the locker tells its owner.
#[derive(Clone, Debug)]
pub enum Response {
    /// The user did something outside the locker's windows.
    Activity,
    /// The user entered a password.
    Password(String),
}

/// The abstract value of a response.
pub enum ResponseView {
    Activity,
    Password(Seq<char>),
}

impl View for Response {
    type V = ResponseView;

    open spec fn view(&self) -> ResponseView {
        match self {
            Response::Activity => ResponseView::Activity,
            Response::Password(p) => ResponseView::Password(p@),
        }
    }
}

/// A pointer event as a saver receives it.
#[derive(Clone, Copy, Debug, PartialEq, Eq, Structural)]
pub enum Pointer {
    Button { x: i32, y: i32, button: u8, press: bool },
    Move { x: i32, y: i32 },
}

/// One of the locker's windows.
#[derive(Clone, Copy, Debug, PartialEq, Eq, Structural)]
pub struct WindowInfo {
    /// The window.
    pub id: u64,
    /// The root window of its screen.
    pub root: u64,
    /// Its screen.
    pub screen: i32,
}

/// What a saver sent back when it was polled.
#[derive(Clone, Copy, Debug, PartialEq, Eq, Structural)]
pub enum SaverReport {
    /// Receiving from the saver failed.
    Failed,
    /// The saver is ready to start.
    Initialized,
    /// The saver has started.
    Started,
    /// The saver has stopped.
    Stopped,
    /// The saver sent nothing.
    Silent,
}

/// What to do after a saver's report.
#[derive(Clone, Copy, Debug, PartialEq, Eq, Structural)]
pub enum SaverReaction {
    /// The saver crashed: blank its window and retire it.
    Crashed,
    /// Tell the saver to start; if that fails, it crashed.
    Start,
    /// Lock the saver's window.
    Lock,
    /// Unlock the saver's window and retire it.
    Stopped,
    /// Nothing.
    Nothing,
}

/// What happened on the display, as far as the locker cares.
#[derive(Clone, Copy, Debug, PartialEq, Eq, Structural)]
pub enum Event {
    /// A screen changed size.
    ScreenChange { root: u64, width: u32, height: u32 },
    /// A key was pressed or released on a window.
    Key { window: u64 },
    /// The pointer was used on a window.
    Pointer { window: u64, pointer: Pointer },
    /// A window was mapped, unmapped or configured.
    Structure { window: u64 },
    /// Anything else.
    Other,
}

/// What to do for a request.
pub enum RequestPlan {
    /// Sanitize these windows.
    Sanitize(Vec<u64>),
    /// For each window, the index of the saver to try on it, or none; a
    /// window that gets no saver is locked and blanked.
    Start(Vec<(u64, Option<usize>)>),
    /// Turn the monitor on or off.
    Power(bool),
    /// For each window, whether it has a saver to stop; a window without a
    /// saver, or whose saver does not stop, is unlocked.
    Stop(Vec<(u64, bool)>),
    /// Nothing.
    Nothing,
}

/// What to do for a display event.
pub enum EventPlan {
    /// Resize these windows, and the saver of those marked with `true`, to
    /// the given size; a saver that fails to resize crashed.
    Resize { targets: Vec<(u64, bool)>, width: u32, height: u32 },
    /// Each typed character goes to each of these savers; a saver that
    /// fails to take it crashed.
    Keystroke { savers: Vec<u64> },
    /// Hand the pointer event to the saver of this window; if that fails,
    /// the saver crashed.
    Forward { saver: u64, pointer: Pointer },
    /// Tell the owner that the user is active.
    Activity,
    /// Observe this window and its children.
    Observe(u64),
    /// Nothing.
    Nothing,
}

/// The keysym `Escape`.
pub const XK_ESCAPE: u32 = 0xFF1B;

/// The first keypad keysym, `KP_Space`.
pub const XK_KP_SPACE: u64 = 0xFF80;

/// The last keypad keysym that is remapped, `KP_9`.
pub const XK_KP_9: u64 = 0xFFB9;

/// The keysym that a key press stands for: keypad keys take the keysym
/// of the text input method.
pub open spec fn effective_keysym(sym: u64, ic_sym: u64) -> u64 {
    if XK_KP_SPACE <= sym && sym <= XK_KP_9 {
        ic_sym
    } else {
        sym
    }
}

/// The answer to a key press on one of the locker's windows: `Escape`
/// submits an empty password.
pub fn key_response(sym: u64, ic_sym: u64) -> (r: Option<Response>)
    ensures
        r is Some <==> effective_keysym(sym, ic_sym) as u32 == XK_ESCAPE,
        r matches Some(resp) ==> resp@ == ResponseView::Password(Seq::empty()),
{
    let mut sym = sym;
    if XK_KP_SPACE <= sym && sym <= XK_KP_9 {
        sym = ic_sym;
    }
    if sym as u32 == XK_ESCAPE {
        Some(Response::Password(String::new()))
    } else {
        None
    }
}

/// What to do after a saver's report.
pub fn react(report: SaverReport) -> (r: SaverReaction)
    ensures
        r == match report {
            SaverReport::Failed => SaverReaction::Crashed,
            SaverReport::Initialized => SaverReaction::Start,
            SaverReport::Started => SaverReaction::Lock,
            SaverReport::Stopped => SaverReaction::Stopped,
            SaverReport::Silent => SaverReaction::Nothing,
        },
{
    match report {
        SaverReport::Failed => SaverReaction::Crashed,
        SaverReport::Initialized => SaverReaction::Start,
        SaverReport::Started => SaverReaction::Lock,
        SaverReport::Stopped => SaverReaction::Stopped,
        SaverReport::Silent => SaverReaction::Nothing,
    }
}

/// A random index below `n`, from `rand::thread_rng().gen_range(0, n)`.
///
/// Trusted: `gen_range(low, high)` returns a value in `low..high` and
/// panics when the range is empty; which value comes out is left open.
#[verifier::external_body]
fn random_below(n: usize) -> (r: usize)
    requires
        n > 0,
    ensures
        r < n,
{
    rand::thread_rng().gen_range(0, n)
}

/// A window and whether a saver runs on it.
struct Slot {
    info: WindowInfo,
    has_saver: bool,
}

/// The locker's windows and which of them have a saver.
pub struct LockerCore {
    slots: Vec<Slot>,
}

/// The abstract state of the locker.
pub struct LockerView {
    /// The windows, in the order in which they are handled.
    pub windows: Seq<WindowInfo>,
    /// The windows that have a saver.
    pub savers: Set<u64>,
}

/// The windows of a list of slots.
spec fn slot_windows(s: Seq<Slot>) -> Seq<WindowInfo> {
    s.map_values(|x: Slot| x.info)
}

/// The windows with a saver in a list of slots.
spec fn slot_savers(s: Seq<Slot>) -> Set<u64> {
    Set::new(|id: u64| exists|i: int| 0 <= i < s.len() && #[trigger] s[i].info.id == id && s[i].has_saver)
}

impl View for LockerCore {
    type V = LockerView;

    closed spec fn view(&self) -> LockerView {
        LockerView { windows: slot_windows(self.slots@), savers: slot_savers(self.slots@) }
    }
}

/// The ids of a list of windows.
pub open spec fn window_ids(ws: Seq<WindowInfo>) -> Seq<u64> {
    ws.map_values(|w: WindowInfo| w.id)
}

/// Whether `id` is one of the locker's windows.
pub open spec fn is_window(v: LockerView, id: u64) -> bool {
    window_ids(v.windows).contains(id)
}

/// No two windows share an id, and only the locker's windows have savers.
pub open spec fn consistent(v: LockerView) -> bool {
    &&& forall|i: int, j: int|
        0 <= i < j < v.windows.len() ==> #[trigger] v.windows[i].id != #[trigger] v.windows[j].id
    &&& forall|id: u64| #[trigger] v.savers.contains(id) ==> is_window(v, id)
}

/// The windows after adding `w`: it replaces the window of the same id, or
/// comes last.
pub open spec fn with_window(ws: Seq<WindowInfo>, w: WindowInfo) -> Seq<WindowInfo> {
    if window_ids(ws).contains(w.id) {
        ws.update(window_ids(ws).index_of(w.id), w)
    } else {
        ws.push(w)
    }
}

/// The ids of the windows whose flag is set.
pub open spec fn flagged(ws: Seq<WindowInfo>, flags: Seq<bool>) -> Set<u64> {
    Set::new(|id: u64| exists|i: int| 0 <= i < ws.len() && #[trigger] ws[i].id == id && flags[i])
}

/// The ids of the windows whose flag is clear, in order.
pub open spec fn unflagged(ws: Seq<WindowInfo>, flags: Seq<bool>) -> Seq<u64>
    decreases ws.len(),
{
    if ws.len() == 0 {
        Seq::empty()
    } else {
        let rest = unflagged(ws.drop_last(), flags.take(ws.len() - 1));
        if flags[ws.len() - 1] {
            rest
        } else {
            rest.push(ws.last().id)
        }
    }
}

/// The windows that have a saver, in window order.
pub open spec fn saver_order(ws: Seq<WindowInfo>, savers: Set<u64>) -> Seq<u64>
    decreases ws.len(),
{
    if ws.len() == 0 {
        Seq::empty()
    } else {
        let rest = saver_order(ws.drop_last(), savers);
        if savers.contains(ws.last().id) {
            rest.push(ws.last().id)
        } else {
            rest
        }
    }
}

/// The windows on the screen of `root`, each with whether it has a saver.
pub open spec fn on_root(ws: Seq<WindowInfo>, savers: Set<u64>, root: u64) -> Seq<(u64, bool)>
    decreases ws.len(),
{
    if ws.len() == 0 {
        Seq::empty()
    } else {
        let rest = on_root(ws.drop_last(), savers, root);
        if ws.last().root == root {
            rest.push((ws.last().id, savers.contains(ws.last().id)))
        } else {
            rest
        }
    }
}

/// The ids of the windows whose flag is clear.
pub open spec fn cleared(ws: Seq<WindowInfo>, flags: Seq<bool>) -> Set<u64> {
    Set::new(|id: u64| exists|i: int| 0 <= i < ws.len() && #[trigger] ws[i].id == id && !flags[i])
}

/// Each window with whether it has a saver to stop.
pub open spec fn stop_targets(ws: Seq<WindowInfo>, savers: Set<u64>) -> Seq<(u64, bool)> {
    ws.map_values(|w: WindowInfo| (w.id, savers.contains(w.id)))
}

/// Whether `c` is a choice of saver for the window `w`: a random one among
/// `saver_count` configured savers, or none when there are none.
pub open spec fn choice_ok(c: (u64, Option<usize>), w: WindowInfo, saver_count: usize) -> bool {
    &&& c.0 == w.id
    &&& (c.1 is None <==> saver_count == 0)
    &&& (c.1 is Some ==> c.1->0 < saver_count)
}

/// Each window with the saver to try on it.
pub open spec fn start_choices_ok(ws: Seq<WindowInfo>, saver_count: usize, c: Seq<(u64, Option<usize>)>) -> bool {
    &&& c.len() == ws.len()
    &&& forall|i: int| 0 <= i < c.len() ==> choice_ok(#[trigger] c[i], ws[i], saver_count)
}

/// The plan for a request, given the locker's state.
pub open spec fn request_plan_ok(v: LockerView, req: Request, saver_count: usize, plan: RequestPlan) -> bool {
    match req {
        Request::Sanitize => plan matches RequestPlan::Sanitize(ids) && ids@ == window_ids(v.windows),
        Request::Start => plan matches RequestPlan::Start(choices) && start_choices_ok(
            v.windows,
            saver_count,
            choices@,
        ),
        Request::Lock => plan is Nothing,
        Request::Power(on) => plan matches RequestPlan::Power(p) && p == on,
        Request::Stop => plan matches RequestPlan::Stop(targets) && targets@ == stop_targets(
            v.windows,
            v.savers,
        ),
    }
}

/// Whether pointer input on `window` goes to a saver.
pub open spec fn routes_pointer(v: LockerView, window: u64) -> bool {
    is_window(v, window) && v.savers.contains(window)
}

/// The plan for a display event, given the locker's state.
pub open spec fn event_plan_ok(v: LockerView, ev: Event, plan: EventPlan) -> bool {
    match ev {
        Event::ScreenChange { root, width, height } => plan matches EventPlan::Resize {
            targets,
            width: w,
            height: h,
        } && targets@ == on_root(v.windows, v.savers, root) && w == width && h == height,
        Event::Key { window } => if is_window(v, window) {
            plan matches EventPlan::Keystroke { savers } && savers@ == saver_order(
                v.windows,
                v.savers,
            )
        } else {
            plan is Activity
        },
        Event::Pointer { window, pointer } => if !is_window(v, window) {
            plan is Activity
        } else if v.savers.contains(window) {
            plan matches EventPlan::Forward { saver, pointer: p } && saver == window && p == pointer
        } else {
            plan is Nothing
        },
        Event::Structure { window } => plan matches EventPlan::Observe(w) && w == window,
        Event::Other => plan is Nothing,
    }
}

/// No two slots hold the same window.
spec fn distinct_slots(s: Seq<Slot>) -> bool {
    forall|i: int, j: int| 0 <= i < j < s.len() ==> #[trigger] s[i].info.id != #[trigger] s[j].info.id
}

/// In distinct slots, a window has a saver exactly when its slot says so.
proof fn lemma_slot_saver(s: Seq<Slot>, i: int)
    requires
        distinct_slots(s),
        0 <= i < s.len(),
    ensures
        slot_savers(s).contains(s[i].info.id) == s[i].has_saver,
{
    if slot_savers(s).contains(s[i].info.id) {
        let m = choose|m: int|
            0 <= m < s.len() && #[trigger] s[m].info.id == s[i].info.id && s[m].has_saver;
        if m < i {
            assert(s[m].info.id != s[i].info.id);
        } else if m > i {
            assert(s[i].info.id != s[m].info.id);
        }
    }
}

/// Marking slot `i` changes the windows with a saver in that window only.
proof fn lemma_mark_slot(s: Seq<Slot>, i: int, b: bool)
    requires
        distinct_slots(s),
        0 <= i < s.len(),
    ensures
        distinct_slots(s.update(i, Slot { info: s[i].info, has_saver: b })),
        slot_windows(s.update(i, Slot { info: s[i].info, has_saver: b })) == slot_windows(s),
        slot_savers(s.update(i, Slot { info: s[i].info, has_saver: b })) == (if b {
            slot_savers(s).insert(s[i].info.id)
        } else {
            slot_savers(s).remove(s[i].info.id)
        }),
{
    let t = s.update(i, Slot { info: s[i].info, has_saver: b });
    assert forall|a: int, c: int| 0 <= a < c < t.len() implies #[trigger] t[a].info.id
        != #[trigger] t[c].info.id by {
        assert(s[a].info.id != s[c].info.id);
    }
    assert(slot_windows(t) =~= slot_windows(s));
    let expected = if b {
        slot_savers(s).insert(s[i].info.id)
    } else {
        slot_savers(s).remove(s[i].info.id)
    };
    assert forall|id: u64| #[trigger] slot_savers(t).contains(id) == expected.contains(id) by {
        if id == s[i].info.id {
            lemma_slot_saver(t, i);
        } else {
            if slot_savers(t).contains(id) {
                let m = choose|m: int| 0 <= m < t.len() && #[trigger] t[m].info.id == id && t[m].has_saver;
                assert(s[m].info.id == id && s[m].has_saver);
            }
            if slot_savers(s).contains(id) {
                let m = choose|m: int| 0 <= m < s.len() && #[trigger] s[m].info.id == id && s[m].has_saver;
                assert(t[m].info.id == id && t[m].has_saver);
            }
        }
    }
    assert(slot_savers(t) =~= expected);
}

/// A window id is among the unflagged ones exactly when some window with
/// that id has its flag clear.
pub proof fn lemma_unflagged_contains(ws: Seq<WindowInfo>, flags: Seq<bool>, id: u64)
    requires
        flags.len() == ws.len(),
    ensures
        unflagged(ws, flags).contains(id) <==> exists|i: int|
            0 <= i < ws.len() && #[trigger] ws[i].id == id && !flags[i],
    decreases ws.len(),
{
    if ws.len() > 0 {
        let n = ws.len() - 1;
        let p = ws.drop_last();
        let f = flags.take(n as int);
        lemma_unflagged_contains(p, f, id);
        let rest = unflagged(p, f);
        if !flags[n] {
            lemma_push_contains(rest, ws[n].id, id);
        }
        if unflagged(ws, flags).contains(id) {
            if rest.contains(id) {
                let i = choose|i: int| 0 <= i < p.len() && #[trigger] p[i].id == id && !f[i];
                assert(ws[i].id == id && !flags[i]);
            } else {
                assert(ws[n].id == id && !flags[n]);
            }
        }
        if exists|i: int| 0 <= i < ws.len() && #[trigger] ws[i].id == id && !flags[i] {
            let i = choose|i: int| 0 <= i < ws.len() && #[trigger] ws[i].id == id && !flags[i];
            if i < n {
                assert(p[i].id == id && !f[i]);
            }
        }
    }
}

impl LockerCore {
    /// Well-formed: no two windows share an id.
    pub closed spec fn wf(&self) -> bool {
        distinct_slots(self.slots@)
    }

    /// A locker without windows.
    pub fn new() -> (c: LockerCore)
        ensures
            c.wf(),
            c@.windows == Seq::<WindowInfo>::empty(),
            c@.savers == Set::<u64>::empty(),
    {
        let c = LockerCore { slots: Vec::new() };
        assert(slot_windows(c.slots@) =~= Seq::<WindowInfo>::empty());
        assert(slot_savers(c.slots@) =~= Set::<u64>::empty());
        c
    }

    /// The index of the window `id`, if it is one of the locker's.
    fn find(&self, id: u64) -> (r: Option<usize>)
        requires
            self.wf(),
        ensures
            r is None <==> !window_ids(self@.windows).contains(id),
            r matches Some(i) ==> i < self.slots@.len() && self.slots@[i as int].info.id == id
                && window_ids(self@.windows).index_of(id) == i,
    {
        let mut i: usize = 0;
        while i < self.slots.len()
            invariant
                self.wf(),
                i <= self.slots@.len(),
                forall|m: int| 0 <= m < i ==> #[trigger] self.slots@[m].info.id != id,
            decreases self.slots@.len() - i,
        {
            if self.slots[i].info.id == id {
                proof {
                    let ids = window_ids(self@.windows);
                    assert(ids[i as int] == id);
                    let k = ids.index_of(id);
                    assert(ids.len() == self.slots@.len());
                    assert(0 <= k < ids.len() && ids[k] == id);
                    assert(self.slots@[k].info.id == id);
                    assert(k == i) by {
                        if k < i {
                            assert(self.slots@[k].info.id != self.slots@[i as int].info.id);
                        } else if k > i {
                            assert(self.slots@[i as int].info.id != self.slots@[k].info.id);
                        }
                    }
                }
                return Some(i);
            }
            i = i + 1;
        }
        proof {
            let ids = window_ids(self@.windows);
            if ids.contains(id) {
                let m = choose|m: int| 0 <= m < ids.len() && ids[m] == id;
                assert(self.slots@[m].info.id == id);
            }
        }
        None
    }

    /// Adds a window; one with the same id is replaced, keeping its saver.
    pub fn add_window(&mut self, w: WindowInfo)
        requires
            old(self).wf(),
        ensures
            final(self).wf(),
            final(self)@.windows == with_window(old(self)@.windows, w),
            final(self)@.savers == old(self)@.savers,
    {
        match self.find(w.id) {
            Some(i) => {
                let has_saver = self.slots[i].has_saver;
                self.slots.set(i, Slot { info: w, has_saver });
                proof {
                    assert forall|a: int, c: int| 0 <= a < c < self.slots@.len() implies
                        #[trigger] self.slots@[a].info.id != #[trigger] self.slots@[c].info.id by {
                        assert(old(self).slots@[a].info.id != old(self).slots@[c].info.id);
                    }
                    assert(slot_windows(self.slots@) =~= old(self)@.windows.update(i as int, w));
                    assert(slot_savers(self.slots@) =~= slot_savers(old(self).slots@)) by {
                        assert forall|id: u64| #[trigger] slot_savers(self.slots@).contains(id)
                            == slot_savers(old(self).slots@).contains(id) by {
                            if slot_savers(self.slots@).contains(id) {
                                let m = choose|m: int|
                                    0 <= m < self.slots@.len() && #[trigger] self.slots@[m].info.id
                                        == id && self.slots@[m].has_saver;
                                assert(old(self).slots@[m].info.id == id);
                            }
                            if slot_savers(old(self).slots@).contains(id) {
                                let m = choose|m: int|
                                    0 <= m < old(self).slots@.len()
                                        && #[trigger] old(self).slots@[m].info.id == id
                                        && old(self).slots@[m].has_saver;
                                assert(self.slots@[m].info.id == id);
                            }
                        }
                    }
                }
            },
            None => {
                self.slots.push(Slot { info: w, has_saver: false });
                proof {
                    assert(slot_windows(self.slots@) =~= old(self)@.windows.push(w));
                    assert(slot_savers(self.slots@) =~= slot_savers(old(self).slots@)) by {
                        assert forall|id: u64| #[trigger] slot_savers(self.slots@).contains(id)
                            == slot_savers(old(self).slots@).contains(id) by {
                            if slot_savers(self.slots@).contains(id) {
                                let m = choose|m: int|
                                    0 <= m < self.slots@.len() && #[trigger] self.slots@[m].info.id
                                        == id && self.slots@[m].has_saver;
                                assert(m < old(self).slots@.len());
                                assert(old(self).slots@[m].info.id == id);
                            }
                            if slot_savers(old(self).slots@).contains(id) {
                                let m = choose|m: int|
                                    0 <= m < old(self).slots@.len()
                                        && #[trigger] old(self).slots@[m].info.id == id
                                        && old(self).slots@[m].has_saver;
                                assert(self.slots@[m].info.id == id);
                            }
                        }
                    }
                    assert forall|m: int| 0 <= m < old(self).slots@.len() implies
                        #[trigger] old(self).slots@[m].info.id != w.id by {
                        assert(window_ids(old(self)@.windows)[m] == old(self).slots@[m].info.id);
                    }
                    assert forall|a: int, c: int| 0 <= a < c < self.slots@.len() implies
                        #[trigger] self.slots@[a].info.id != #[trigger] self.slots@[c].info.id by {
                        if c < old(self).slots@.len() {
                            assert(old(self).slots@[a].info.id != old(self).slots@[c].info.id);
                        } else {
                            assert(old(self).slots@[a].info.id != w.id);
                        }
                    }
                }
            },
        }
    }

    /// The ids of the windows, in order.
    pub fn window_ids(&self) -> (ids: Vec<u64>)
        ensures
            ids@ == window_ids(self@.windows),
    {
        let mut ids: Vec<u64> = Vec::new();
        for i in 0..self.slots.len()
            invariant
                ids@ == window_ids(self@.windows).take(i as int),
        {
            ids.push(self.slots[i].info.id);
            assert(ids@ =~= window_ids(self@.windows).take(i + 1));
        }
        assert(ids@ =~= window_ids(self@.windows));
        ids
    }

    /// Whether the window `id` has a saver.
    pub fn has_saver(&self, id: u64) -> (r: bool)
        requires
            self.wf(),
        ensures
            r == self@.savers.contains(id),
    {
        match self.find(id) {
            Some(i) => {
                proof {
                    if self@.savers.contains(id) {
                        let m = choose|m: int|
                            0 <= m < self.slots@.len() && #[trigger] self.slots@[m].info.id == id
                                && self.slots@[m].has_saver;
                        assert(m == i) by {
                            if m != i {
                                if m < i {
                                    assert(self.slots@[m].info.id != self.slots@[i as int].info.id);
                                } else {
                                    assert(self.slots@[i as int].info.id != self.slots@[m].info.id);
                                }
                            }
                        }
                    }
                }
                self.slots[i].has_saver
            },
            None => {
                proof {
                    if self@.savers.contains(id) {
                        let m = choose|m: int|
                            0 <= m < self.slots@.len() && #[trigger] self.slots@[m].info.id == id
                                && self.slots@[m].has_saver;
                        assert(window_ids(self@.windows)[m] == id);
                    }
                }
                false
            },
        }
    }

    /// The windows that have a saver, in window order.
    pub fn saver_ids(&self) -> (ids: Vec<u64>)
        requires
            self.wf(),
        ensures
            ids@ == saver_order(self@.windows, self@.savers),
    {
        let ghost ws = self@.windows;
        let mut ids: Vec<u64> = Vec::new();
        assert(ws.take(0) =~= Seq::<WindowInfo>::empty());
        for i in 0..self.slots.len()
            invariant
                self.wf(),
                ws == self@.windows,
                ids@ == saver_order(ws.take(i as int), self@.savers),
        {
            proof {
                lemma_slot_saver(self.slots@, i as int);
                assert(ws.take(i + 1).drop_last() =~= ws.take(i as int));
            }
            if self.slots[i].has_saver {
                ids.push(self.slots[i].info.id);
            }
        }
        assert(ws.take(ws.len() as int) =~= ws);
        ids
    }

    /// Records which windows got a saver after a `Start`: `established[i]`
    /// tells whether the `i`-th window did. The windows that did not are
    /// returned, in order, to be locked and blanked.
    pub fn finish_start(&mut self, established: &Vec<bool>) -> (lock: Vec<u64>)
        requires
            old(self).wf(),
            established@.len() == old(self)@.windows.len(),
        ensures
            final(self).wf(),
            final(self)@.windows == old(self)@.windows,
            final(self)@.savers == old(self)@.savers.union(flagged(old(self)@.windows, established@)),
            lock@ == unflagged(old(self)@.windows, established@),
    {
        let ghost ws = old(self)@.windows;
        let ghost before = old(self)@.savers;
        let ghost est = established@;
        let mut lock: Vec<u64> = Vec::new();
        let n = self.slots.len();
        assert(ws.take(0) =~= Seq::<WindowInfo>::empty());
        assert(before.union(flagged(ws.take(0), est.take(0))) =~= before);
        for i in 0..n
            invariant
                self.wf(),
                n == self.slots@.len(),
                est == established@,
                est.len() == n,
                ws == self@.windows,
                ws.len() == n,
                self@.savers == before.union(flagged(ws.take(i as int), est.take(i as int))),
                lock@ == unflagged(ws.take(i as int), est.take(i as int)),
        {
            let ghost prev = self@.savers;
            proof {
                assert(ws.take(i + 1).drop_last() =~= ws.take(i as int));
                assert(est.take(i + 1).take(i as int) =~= est.take(i as int));
                assert(ws[i as int].id == self.slots@[i as int].info.id);
            }
            if established[i] {
                let info = self.slots[i].info;
                proof {
                    lemma_mark_slot(self.slots@, i as int, true);
                }
                self.slots.set(i, Slot { info, has_saver: true });
                proof {
                    assert(flagged(ws.take(i + 1), est.take(i + 1)) =~= flagged(
                        ws.take(i as int),
                        est.take(i as int),
                    ).insert(ws[i as int].id)) by {
                        assert(ws.take(i + 1)[i as int] == ws[i as int]);
                    }
                    assert(self@.savers =~= before.union(flagged(ws.take(i + 1), est.take(i + 1))));
                }
            } else {
                lock.push(self.slots[i].info.id);
                proof {
                    assert(flagged(ws.take(i + 1), est.take(i + 1)) =~= flagged(
                        ws.take(i as int),
                        est.take(i as int),
                    ));
                }
            }
        }
        assert(ws.take(n as int) =~= ws);
        assert(est.take(n as int) =~= est);
        lock
    }

    /// Records which savers stopped after a `Stop`: `stopped[i]` tells
    /// whether the `i`-th window had a saver that stopped. The others lose
    /// their saver and are returned, in order, to be unlocked.
    pub fn finish_stop(&mut self, stopped: &Vec<bool>) -> (unlock: Vec<u64>)
        requires
            old(self).wf(),
            stopped@.len() == old(self)@.windows.len(),
        ensures
            final(self).wf(),
            final(self)@.windows == old(self)@.windows,
            final(self)@.savers == old(self)@.savers.difference(cleared(old(self)@.windows, stopped@)),
            unlock@ == unflagged(old(self)@.windows, stopped@),
            forall|id: u64| #[trigger] unlock@.contains(id) ==> !final(self)@.savers.contains(id),
    {
        let ghost ws = old(self)@.windows;
        let ghost before = old(self)@.savers;
        let ghost fl = stopped@;
        let mut unlock: Vec<u64> = Vec::new();
        let n = self.slots.len();
        assert(ws.take(0) =~= Seq::<WindowInfo>::empty());
        assert(before.difference(cleared(ws.take(0), fl.take(0))) =~= before);
        for i in 0..n
            invariant
                self.wf(),
                n == self.slots@.len(),
                fl == stopped@,
                fl.len() == n,
                ws == self@.windows,
                ws.len() == n,
                self@.savers == before.difference(cleared(ws.take(i as int), fl.take(i as int))),
                unlock@ == unflagged(ws.take(i as int), fl.take(i as int)),
        {
            proof {
                assert(ws.take(i + 1).drop_last() =~= ws.take(i as int));
                assert(fl.take(i + 1).take(i as int) =~= fl.take(i as int));
                assert(ws[i as int].id == self.slots@[i as int].info.id);
            }
            if !stopped[i] {
                let info = self.slots[i].info;
                proof {
                    lemma_mark_slot(self.slots@, i as int, false);
                }
                self.slots.set(i, Slot { info, has_saver: false });
                unlock.push(info.id);
                proof {
                    assert(cleared(ws.take(i + 1), fl.take(i + 1)) =~= cleared(
                        ws.take(i as int),
                        fl.take(i as int),
                    ).insert(ws[i as int].id)) by {
                        assert(ws.take(i + 1)[i as int] == ws[i as int]);
                    }
                    assert(self@.savers =~= before.difference(
                        cleared(ws.take(i + 1), fl.take(i + 1)),
                    ));
                }
            } else {
                proof {
                    assert(cleared(ws.take(i + 1), fl.take(i + 1)) =~= cleared(
                        ws.take(i as int),
                        fl.take(i as int),
                    ));
                }
            }
        }
        assert(ws.take(n as int) =~= ws);
        assert(fl.take(n as int) =~= fl);
        assert forall|id: u64| #[trigger] unlock@.contains(id) implies !self@.savers.contains(id) by {
            lemma_unflagged_contains(ws, fl, id);
            let i = choose|i: int| 0 <= i < ws.len() && #[trigger] ws[i].id == id && !fl[i];
            assert(cleared(ws, fl).contains(id));
        }
        unlock
    }

    /// Retires the savers of the given windows, which crashed or stopped.
    pub fn retire(&mut self, ids: &Vec<u64>)
        requires
            old(self).wf(),
            forall|k: int| 0 <= k < ids@.len() ==> is_window(old(self)@, #[trigger] ids@[k]),
        ensures
            final(self).wf(),
            final(self)@.windows == old(self)@.windows,
            final(self)@.savers == old(self)@.savers.difference(ids@.to_set()),
    {
        let ghost ws = old(self)@.windows;
        let ghost before = old(self)@.savers;
        assert(ids@.take(0).to_set() =~= Set::<u64>::empty());
        assert(before.difference(ids@.take(0).to_set()) =~= before);
        for k in 0..ids.len()
            invariant
                self.wf(),
                ws == self@.windows,
                forall|m: int| 0 <= m < ids@.len() ==> is_window(self@, #[trigger] ids@[m]),
                self@.savers == before.difference(ids@.take(k as int).to_set()),
        {
            let id = ids[k];
            assert(is_window(self@, ids@[k as int]));
            let i = self.find(id).unwrap();
            let info = self.slots[i].info;
            proof {
                lemma_mark_slot(self.slots@, i as int, false);
            }
            self.slots.set(i, Slot { info, has_saver: false });
            proof {
                assert(ids@.take(k + 1) =~= ids@.take(k as int).push(id));
                assert forall|x: u64| #[trigger] ids@.take(k + 1).to_set().contains(x) == ids@.take(
                    k as int,
                ).to_set().insert(id).contains(x) by {
                    lemma_push_contains(ids@.take(k as int), id, x);
                }
                assert(ids@.take(k + 1).to_set() =~= ids@.take(k as int).to_set().insert(id));
                assert(self@.savers =~= before.difference(ids@.take(k + 1).to_set()));
            }
        }
        assert(ids@.take(ids@.len() as int) =~= ids@);
    }

    /// What to do for a request; `saver_count` is the number of savers the
    /// configuration lists.
    pub fn on_request(&self, req: Request, saver_count: usize) -> (plan: RequestPlan)
        requires
            self.wf(),
        ensures
            request_plan_ok(self@, req, saver_count, plan),
    {
        match req {
            Request::Sanitize => {
                let ids = self.window_ids();
                RequestPlan::Sanitize(ids)
            },
            Request::Start => {
                let mut choices: Vec<(u64, Option<usize>)> = Vec::new();
                for i in 0..self.slots.len()
                    invariant
                        choices@.len() == i,
                        i <= self@.windows.len(),
                        forall|m: int|
                            0 <= m < i ==> choice_ok(#[trigger] choices@[m], self@.windows[m], saver_count),
                {
                    let choice = if saver_count > 0 {
                        Some(random_below(saver_count))
                    } else {
                        None
                    };
                    choices.push((self.slots[i].info.id, choice));
                    assert(choice_ok(choices@[i as int], self@.windows[i as int], saver_count));
                }
                RequestPlan::Start(choices)
            },
            Request::Lock => RequestPlan::Nothing,
            Request::Power(on) => RequestPlan::Power(on),
            Request::Stop => {
                let mut targets: Vec<(u64, bool)> = Vec::new();
                for i in 0..self.slots.len()
                    invariant
                        self.wf(),
                        targets@ == stop_targets(self@.windows, self@.savers).take(i as int),
                {
                    proof {
                        lemma_slot_saver(self.slots@, i as int);
                    }
                    targets.push((self.slots[i].info.id, self.slots[i].has_saver));
                    assert(targets@ =~= stop_targets(self@.windows, self@.savers).take(i + 1));
                }
                assert(targets@ =~= stop_targets(self@.windows, self@.savers));
                RequestPlan::Stop(targets)
            },
        }
    }

    /// What to do for a display event.
    pub fn on_event(&self, ev: Event) -> (plan: EventPlan)
        requires
            self.wf(),
        ensures
            event_plan_ok(self@, ev, plan),
    {
        match ev {
            Event::ScreenChange { root, width, height } => {
                let ghost ws = self@.windows;
                let mut targets: Vec<(u64, bool)> = Vec::new();
                assert(ws.take(0) =~= Seq::<WindowInfo>::empty());
                for i in 0..self.slots.len()
                    invariant
                        self.wf(),
                        ws == self@.windows,
                        targets@ == on_root(ws.take(i as int), self@.savers, root),
                {
                    proof {
                        lemma_slot_saver(self.slots@, i as int);
                        assert(ws.take(i + 1).drop_last() =~= ws.take(i as int));
                    }
                    if self.slots[i].info.root == root {
                        targets.push((self.slots[i].info.id, self.slots[i].has_saver));
                    }
                }
                assert(ws.take(ws.len() as int) =~= ws);
                EventPlan::Resize { targets, width, height }
            },
            Event::Key { window } => {
                if self.find(window).is_some() {
                    EventPlan::Keystroke { savers: self.saver_ids() }
                } else {
                    EventPlan::Activity
                }
            },
            Event::Pointer { window, pointer } => {
                if self.find(window).is_some() {
                    if self.has_saver(window) {
                        EventPlan::Forward { saver: window, pointer }
                    } else {
                        EventPlan::Nothing
                    }
                } else {
                    EventPlan::Activity
                }
            },
            Event::Structure { window } => EventPlan::Observe(window),
            Event::Other => EventPlan::Nothing,
        }
    }
}


/// A well-formed locker is consistent: no two windows share an id, and
/// only the locker's windows have savers.
pub proof fn lemma_consistent(c: &LockerCore)
    requires
        c.wf(),
    ensures
        consistent(c@),
{
    let s = c.slots@;
    assert forall|i: int, j: int| 0 <= i < j < c@.windows.len() implies #[trigger] c@.windows[i].id
        != #[trigger] c@.windows[j].id by {
        assert(s[i].info.id != s[j].info.id);
    }
    assert forall|id: u64| #[trigger] c@.savers.contains(id) implies is_window(c@, id) by {
        let m = choose|m: int| 0 <= m < s.len() && #[trigger] s[m].info.id == id && s[m].has_saver;
        assert(window_ids(c@.windows)[m] == id);
    }
}

/// After a `Start`, every window has a saver or is to be locked and blanked.
pub proof fn lemma_start_covers_every_window(ws: Seq<WindowInfo>, savers: Set<u64>, established: Seq<bool>)
    requires
        established.len() == ws.len(),
    ensures
        forall|i: int|
            0 <= i < ws.len() ==> savers.union(flagged(ws, established)).contains(#[trigger] ws[i].id)
                || unflagged(ws, established).contains(ws[i].id),
{
    assert forall|i: int| 0 <= i < ws.len() implies savers.union(flagged(ws, established)).contains(
        #[trigger] ws[i].id,
    ) || unflagged(ws, established).contains(ws[i].id) by {
        lemma_unflagged_contains(ws, established, ws[i].id);
        if established[i] {
            assert(flagged(ws, established).contains(ws[i].id));
        }
    }
}

/// With no saver configured, a `Start` plans no saver for any window, so
/// every window is locked and blanked and no window gains a saver.
pub proof fn lemma_start_without_savers_locks_all(
    ws: Seq<WindowInfo>,
    choices: Seq<(u64, Option<usize>)>,
    established: Seq<bool>,
)
    requires
        start_choices_ok(ws, 0, choices),
        established.len() == ws.len(),
        forall|i: int| 0 <= i < ws.len() && #[trigger] established[i] ==> choices[i].1 is Some,
    ensures
        unflagged(ws, established) == window_ids(ws),
        flagged(ws, established) == Set::<u64>::empty(),
    decreases ws.len(),
{
    assert forall|i: int| 0 <= i < ws.len() implies !#[trigger] established[i] by {
        assert(choice_ok(choices[i], ws[i], 0));
    }
    lemma_unflagged_all(ws, established);
    assert(flagged(ws, established) =~= Set::<u64>::empty());
}

/// When no flag is set, every window is unflagged, in order.
proof fn lemma_unflagged_all(ws: Seq<WindowInfo>, flags: Seq<bool>)
    requires
        flags.len() == ws.len(),
        forall|i: int| 0 <= i < ws.len() ==> !#[trigger] flags[i],
    ensures
        unflagged(ws, flags) == window_ids(ws),
    decreases ws.len(),
{
    if ws.len() > 0 {
        let n = ws.len() - 1;
        let f = flags.take(n as int);
        assert forall|i: int| 0 <= i < n implies !#[trigger] f[i] by {
            assert(!flags[i]);
        }
        lemma_unflagged_all(ws.drop_last(), f);
        assert(window_ids(ws) =~= window_ids(ws.drop_last()).push(ws[n].id));
        assert(!flags[n]);
    }
}

/// Once a window's saver is retired, pointer input on that window is no
/// longer handed to a saver.
pub proof fn lemma_retired_saver_gets_no_pointer(
    before: LockerView,
    after: LockerView,
    retired: Seq<u64>,
    window: u64,
    pointer: Pointer,
    plan: EventPlan,
)
    requires
        after.windows == before.windows,
        after.savers == before.savers.difference(retired.to_set()),
        retired.contains(window),
        event_plan_ok(after, Event::Pointer { window, pointer }, plan),
    ensures
        !(plan is Forward),
        !routes_pointer(after, window),
{
    assert(retired.to_set().contains(window));
}

/// Input on a window that is not the locker's is answered with activity,
/// whatever the locker's state.
pub proof fn lemma_foreign_input_is_activity(v: LockerView, ev: Event, plan: EventPlan)
    requires
        ev matches Event::Key { window } ==> !is_window(v, window),
        ev matches Event::Pointer { window, .. } ==> !is_window(v, window),
        ev is Key || ev is Pointer,
        event_plan_ok(v, ev, plan),
    ensures
        plan is Activity,
{
}

/// A window has a saver in the saver order exactly when it is one of the
/// windows and has a saver.
pub proof fn lemma_saver_order_contains(ws: Seq<WindowInfo>, savers: Set<u64>, id: u64)
    ensures
        saver_order(ws, savers).contains(id) <==> (window_ids(ws).contains(id) && savers.contains(id)),
    decreases ws.len(),
{
    if ws.len() > 0 {
        let p = ws.drop_last();
        let n = ws.len() - 1;
        lemma_saver_order_contains(p, savers, id);
        let rest = saver_order(p, savers);
        if savers.contains(ws[n].id) {
            lemma_push_contains(rest, ws[n].id, id);
        }
        assert(window_ids(ws) =~= window_ids(p).push(ws[n].id));
        lemma_push_contains(window_ids(p), ws[n].id, id);
    }
}

/// A key pressed on one of the locker's windows is input for the locker,
/// never activity, whether or not savers run: the plan is a keystroke, and
/// the characters typed go to exactly the running savers.
pub proof fn lemma_key_on_own_window_is_input(v: LockerView, window: u64, plan: EventPlan)
    requires
        consistent(v),
        is_window(v, window),
        event_plan_ok(v, Event::Key { window }, plan),
    ensures
        plan is Keystroke,
        plan matches EventPlan::Keystroke { savers } ==> forall|id: u64|
            #[trigger] savers@.contains(id) <==> v.savers.contains(id),
{
    if let EventPlan::Keystroke { savers } = plan {
        assert forall|id: u64| #[trigger] savers@.contains(id) <==> v.savers.contains(id) by {
            lemma_saver_order_contains(v.windows, v.savers, id);
        }
    }
}

/// A `Stop` always plans one entry per window, in window order, telling
/// whether that window has a saver to stop, also when no saver runs.
pub proof fn lemma_stop_plans_every_window(v: LockerView, saver_count: usize, plan: RequestPlan)
    requires
        request_plan_ok(v, Request::Stop, saver_count, plan),
    ensures
        plan is Stop,
        plan matches RequestPlan::Stop(targets) ==> {
            &&& targets@.len() == v.windows.len()
            &&& forall|i: int|
                0 <= i < v.windows.len() ==> #[trigger] targets@[i] == (
                    v.windows[i].id,
                    v.savers.contains(v.windows[i].id),
                )
        },
{
}

/// When no saver runs, a `Stop` unlocks every window, in window order: the
/// plan marks no window as having a saver, so none can report a stopped
/// saver.
pub proof fn lemma_stop_without_savers_unlocks_all(
    v: LockerView,
    saver_count: usize,
    plan: RequestPlan,
    stopped: Seq<bool>,
)
    requires
        v.savers == Set::<u64>::empty(),
        request_plan_ok(v, Request::Stop, saver_count, plan),
        stopped.len() == v.windows.len(),
        plan matches RequestPlan::Stop(targets) ==> forall|i: int|
            0 <= i < stopped.len() && #[trigger] stopped[i] ==> targets@[i].1,
    ensures
        unflagged(v.windows, stopped) == window_ids(v.windows),
{
    lemma_stop_plans_every_window(v, saver_count, plan);
    if let RequestPlan::Stop(targets) = plan {
        assert forall|i: int| 0 <= i < v.windows.len() implies !#[trigger] stopped[i] by {
            assert(targets@[i] == (v.windows[i].id, v.savers.contains(v.windows[i].id)));
        }
    }
    lemma_unflagged_all(v.windows, stopped);
}

} // verus!
