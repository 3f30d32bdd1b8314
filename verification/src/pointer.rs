//! Laser pointer interaction: which button a pointer acts as, and what a
//! pointer's hit on an overlay does to the overlays. Ray casting (floating
//! point) stays with the caller, which hands over the nearest hit.

use vstd::prelude::*;
use crate::overlay::{index_of_id, with_primary, OverlayContainer, OverlayState};

verus! {

/// Role of a tracked device.
#[derive(Clone, Copy, PartialEq, Eq, Structural, Debug)]
pub enum TrackedDeviceRole {
    Unassigned,
    Hmd,
    LeftHand,
    RightHand,
    Tracker,
}

/// Which mouse button a pointer acts as.
#[derive(Clone, Copy, PartialEq, Eq, Structural, Debug)]
pub enum PointerMode {
    Left,
    Right,
    Middle,
    Special,
}

impl PointerMode {
    pub fn default() -> (m: PointerMode)
        ensures
            m == PointerMode::Left,
    {
        PointerMode::Left
    }
}

/// Buttons of a pointer in one frame.
#[derive(Clone, Copy, PartialEq, Eq, Structural, Debug, Default)]
pub struct PointerButtons {
    pub click: bool,
    pub grab: bool,
    pub alt_click: bool,
    pub show_hide: bool,
    pub space_drag: bool,
    pub space_rotate: bool,
    pub space_reset: bool,
    pub click_modifier_right: bool,
    pub click_modifier_middle: bool,
    pub move_mouse: bool,
}

/// What a frame's buttons ask of the pointer (after its pose was read).
pub struct PointerUpdate {
    pub mode: PointerMode,
    /// The pointer clicks now; its last click time becomes the current time.
    pub clicked: bool,
    /// The alt-click command to start, when the alt-click button changed.
    pub alt_command: Option<Vec<String>>,
}

/// The button a pointer acts as: the modifier buttons pick right or middle, and
/// otherwise it is the left button (hand orientation does not pick the button).
pub open spec fn pointer_mode(now: PointerButtons) -> PointerMode {
    if now.click_modifier_right {
        PointerMode::Right
    } else if now.click_modifier_middle {
        PointerMode::Middle
    } else {
        PointerMode::Left
    }
}

/// Per-frame update of one pointer: its mode, and the alt-click command
/// (`alt_click_down` when the alt-click button went down, `alt_click_up` when it
/// went up; the first word is the program). A modifier button held skips the
/// alt-click.
pub fn post_update(now: PointerButtons, before: PointerButtons, alt_click_down: &Vec<String>, alt_click_up: &Vec<String>) -> (u: PointerUpdate)
    ensures
        u.mode == pointer_mode(now),
        u.clicked == now.click,
        match u.alt_command {
            Some(cmd) => !now.click_modifier_right && !now.click_modifier_middle
                && now.alt_click != before.alt_click
                && cmd@ == (if now.alt_click { alt_click_down@ } else { alt_click_up@ })
                && cmd@.len() > 0,
            None => now.click_modifier_right || now.click_modifier_middle || now.alt_click == before.alt_click
                || (if now.alt_click { alt_click_down@ } else { alt_click_up@ }).len() == 0,
        },
{
    if now.click_modifier_right {
        return PointerUpdate { mode: PointerMode::Right, clicked: now.click, alt_command: None };
    }
    if now.click_modifier_middle {
        return PointerUpdate { mode: PointerMode::Middle, clicked: now.click, alt_command: None };
    }
    let mut alt_command = None;
    if now.alt_click != before.alt_click {
        let args = if now.alt_click { alt_click_down } else { alt_click_up };
        if args.len() > 0 {
            alt_command = Some(args.clone());
        }
    }
    PointerUpdate { mode: PointerMode::Left, clicked: now.click, alt_command }
}

/// Which hand interacts first: the one that clicked last goes last, so that it wins.
pub fn interact_order(last_click_left: u64, last_click_right: u64) -> (order: (usize, usize))
    ensures
        order == (if last_click_right > last_click_left { (1usize, 0usize) } else { (0usize, 1usize) }),
{
    if last_click_right > last_click_left { (1, 0) } else { (0, 1) }
}

/// A grab of an overlay.
#[derive(Clone, Copy, PartialEq, Eq, Structural, Debug)]
pub struct GrabData {
    pub grabbed_id: usize,
    /// Grabbed with the right-click mode: moves the whole set.
    pub grab_all: bool,
}

/// What a pointer is doing with the overlays.
#[derive(Clone, Copy, PartialEq, Eq, Structural, Debug)]
pub struct InteractionState {
    pub mode: PointerMode,
    pub grabbed: Option<GrabData>,
    pub clicked_id: Option<usize>,
    pub hovered_id: Option<usize>,
}

impl InteractionState {
    pub fn new() -> (s: InteractionState)
        ensures
            s.mode == PointerMode::Left && s.grabbed is None && s.clicked_id is None && s.hovered_id is None,
    {
        InteractionState { mode: PointerMode::Left, grabbed: None, clicked_id: None, hovered_id: None }
    }
}

/// An overlay's reaction to pointers that does nothing.
pub struct DummyInteractionHandler;

/// The nearest overlay under a pointer (found by the caller's ray casting).
#[derive(Clone, Copy, PartialEq, Eq, Structural, Debug)]
pub struct PointerHit {
    pub pointer: usize,
    pub overlay: usize,
    pub mode: PointerMode,
    pub primary: bool,
}

/// What the caller carries out for an interaction, in order.
#[derive(Clone, Copy, PartialEq, Eq, Structural, Debug)]
pub enum HandEvent {
    /// Move the grabbed overlay with the pointer.
    HandleGrabbed(usize),
    /// The grab button was released: drop the overlay (and store its placement).
    Drop(usize),
    /// The pointer left the overlay.
    Left(usize),
    /// Press or release on the overlay, as the given hit.
    Pointer(usize, PointerHit, bool),
    /// Start grabbing the overlay (and give keyboard focus to it).
    StartGrab(usize),
    /// Hover over the overlay.
    Hover(PointerHit),
    /// Change the curvature of the overlay held by the other hand.
    Curve(usize),
    /// Scroll on the overlay.
    Scroll(PointerHit),
    /// Give keyboard focus to the overlay.
    Focus(usize),
}

/// How an interaction ended: the caller reports distance and haptics from it.
#[derive(Clone, Copy, PartialEq, Eq, Structural, Debug)]
pub enum HandOutcome {
    /// A grab is in progress.
    Grabbing,
    /// Nothing is under the pointer.
    NoHit,
    /// The pointer is over an overlay; `grab_started` when this frame started a grab.
    Hit { grab_started: bool },
}

/// The pointer's buttons and the overlays' input state that an interaction reads.
pub struct HandInput {
    pub idx: usize,
    pub now: PointerButtons,
    pub before: PointerButtons,
    /// Scrolling this frame (the scroll amount is above the dead zone).
    pub scrolling: bool,
    /// The other hand holds the hit overlay.
    pub other_hand_grabs_hit: bool,
}

/// The overlay with `id`, if any.
pub open spec fn find(s: Seq<OverlayState>, id: usize) -> Option<OverlayState> {
    if exists|i: int| 0 <= i < s.len() && s[i].id.0 == id {
        Some(s[choose|i: int| 0 <= i < s.len() && s[i].id.0 == id])
    } else {
        None
    }
}

proof fn lemma_find_by_lookup(s: Seq<OverlayState>, id: usize, o: Option<&OverlayState>)
    requires
        match index_of_id(s, id) {
            Some(i) => o is Some && *o.unwrap() == s[i],
            None => o is None,
        },
    ensures
        match o {
            Some(x) => find(s, id) == Some(*x),
            None => find(s, id) is None,
        },
{
}

/// The overlay ids a pointer's state refers to can be held by the overlay map.
pub open spec fn state_ids_ok(st: InteractionState) -> bool {
    &&& st.grabbed matches Some(g) ==> g.grabbed_id < u32::MAX
    &&& st.clicked_id matches Some(c) ==> c < u32::MAX
    &&& st.hovered_id matches Some(h) ==> h < u32::MAX
}

/// `s` with the primary pointer of the overlay `id` cleared when it is pointer `idx`.
pub open spec fn clear_primary_if(s: Seq<OverlayState>, id: usize, idx: usize) -> Seq<OverlayState> {
    match find(s, id) {
        Some(o) => if o.primary_pointer == Some(idx) { with_primary(s, id, None) } else { s },
        None => s,
    }
}

/// Events of a grab in progress.
pub open spec fn grab_step(s: Seq<OverlayState>, st: InteractionState, inp: HandInput, g: GrabData)
    -> (Seq<OverlayState>, InteractionState, Seq<HandEvent>, HandOutcome) {
    if find(s, g.grabbed_id) is Some {
        if inp.now.grab {
            let mode = if inp.now.click { PointerMode::Special } else { st.mode };
            (s, InteractionState { mode, ..st }, seq![HandEvent::HandleGrabbed(g.grabbed_id)], HandOutcome::Grabbing)
        } else {
            (s, InteractionState { grabbed: None, ..st }, seq![HandEvent::Drop(g.grabbed_id)], HandOutcome::Grabbing)
        }
    } else {
        (s, InteractionState { grabbed: None, ..st }, seq![], HandOutcome::Grabbing)
    }
}

/// Events when nothing is under the pointer.
pub open spec fn miss_step(s: Seq<OverlayState>, st: InteractionState, inp: HandInput)
    -> (Seq<OverlayState>, InteractionState, Seq<HandEvent>, HandOutcome) {
    let (st1, e1) = match st.hovered_id {
        Some(h) => (InteractionState { hovered_id: None, ..st },
            if find(s, h) is Some { seq![HandEvent::Left(h)] } else { Seq::<HandEvent>::empty() }),
        None => (st, Seq::<HandEvent>::empty()),
    };
    let (st2, e2) = if !inp.now.click && inp.before.click {
        match st1.clicked_id {
            Some(c) => (InteractionState { clicked_id: None, ..st1 },
                if find(s, c) is Some {
                    seq![HandEvent::Pointer(c, PointerHit { pointer: inp.idx, overlay: c, mode: st.mode, primary: false }, false)]
                } else {
                    Seq::<HandEvent>::empty()
                }),
            None => (st1, Seq::<HandEvent>::empty()),
        }
    } else {
        (st1, Seq::<HandEvent>::empty())
    };
    (s, st2, e1 + e2, HandOutcome::NoHit)
}

/// Events after the hit overlay became the hovered one.
pub open spec fn hover_step(s2: Seq<OverlayState>, st1: InteractionState, inp: HandInput, hit: PointerHit, grabbable: bool, mode: PointerMode)
    -> (InteractionState, Seq<HandEvent>, HandOutcome) {
    let id = hit.overlay;
    if inp.now.grab && !inp.before.grab && grabbable {
        (InteractionState { grabbed: Some(GrabData { grabbed_id: id, grab_all: mode == PointerMode::Right }), ..st1 },
            seq![HandEvent::Focus(id), HandEvent::StartGrab(id)], HandOutcome::Hit { grab_started: true })
    } else {
        let e2 = seq![HandEvent::Hover(hit)];
        let e3 = if inp.scrolling {
            if inp.other_hand_grabs_hit { seq![HandEvent::Curve(id)] } else { seq![HandEvent::Scroll(hit)] }
        } else {
            Seq::<HandEvent>::empty()
        };
        let (st2, e4) = if inp.now.click && !inp.before.click {
            (InteractionState { clicked_id: Some(id), ..st1 }, seq![HandEvent::Focus(id), HandEvent::Pointer(id, hit, true)])
        } else if !inp.now.click && inp.before.click {
            match st1.clicked_id {
                Some(c) => (InteractionState { clicked_id: None, ..st1 },
                    if find(s2, c) is Some { seq![HandEvent::Pointer(c, hit, false)] } else { Seq::<HandEvent>::empty() }),
                None => (st1, seq![HandEvent::Pointer(id, hit, false)]),
            }
        } else {
            (st1, Seq::<HandEvent>::empty())
        };
        (st2, e2 + e3 + e4, HandOutcome::Hit { grab_started: false })
    }
}

/// Events when `hit0` is the nearest overlay under the pointer.
pub open spec fn hit_step(s: Seq<OverlayState>, st: InteractionState, inp: HandInput, hit0: PointerHit)
    -> (Seq<OverlayState>, InteractionState, Seq<HandEvent>, HandOutcome) {
    let (s1, e1) = match st.hovered_id {
        Some(h) => if h != hit0.overlay && find(s, h) is Some {
            (clear_primary_if(s, h, inp.idx), seq![HandEvent::Left(h)])
        } else {
            (s, Seq::<HandEvent>::empty())
        },
        None => (s, Seq::<HandEvent>::empty()),
    };
    match find(s1, hit0.overlay) {
        None => (s1, st, e1, HandOutcome::NoHit),
        Some(hov) => {
            let st1 = InteractionState { hovered_id: Some(hit0.overlay), ..st };
            let becomes_primary = match hov.primary_pointer {
                Some(pp) => hit0.pointer <= pp,
                None => true,
            };
            let s2 = if becomes_primary { with_primary(s1, hit0.overlay, Some(hit0.pointer)) } else { s1 };
            let hit = PointerHit { primary: if becomes_primary { true } else { hit0.primary }, ..hit0 };
            let (st2, e2, out) = hover_step(s2, st1, inp, hit, hov.grabbable, st.mode);
            (s2, st2, e1 + e2, out)
        },
    }
}

/// Whether the events release the pointer's button on the overlay `c`.
pub open spec fn releases_on(ev: Seq<HandEvent>, c: usize) -> bool {
    exists|i: int| 0 <= i < ev.len() && (#[trigger] ev[i] matches HandEvent::Pointer(o, _, false) && o == c)
}

/// Changing which pointer is primary on an overlay keeps every overlay findable.
proof fn lemma_with_primary_keeps_overlays(s: Seq<OverlayState>, id: usize, p: Option<usize>, c: usize)
    ensures
        (find(with_primary(s, id, p), c) is Some) == (find(s, c) is Some),
{
    let w = with_primary(s, id, p);
    if find(s, c) is Some {
        let k = choose|k: int| 0 <= k < s.len() && s[k].id.0 == c;
        assert(w[k].id.0 == c);
    }
    if find(w, c) is Some {
        let k = choose|k: int| 0 <= k < w.len() && w[k].id.0 == c;
        assert(s[k].id.0 == c);
    }
}

/// The overlay a press was delivered to gets the release: when the click
/// button goes up and the overlay that got the press still exists, the frame's
/// events release the button on it and the pointer forgets it, whether the
/// pointer now hits an overlay or nothing (unless a grab holds the pointer or
/// starts this frame).
pub proof fn law_release_reaches_pressed_overlay(s: Seq<OverlayState>, st: InteractionState, inp: HandInput, hit: Option<PointerHit>, c: usize)
    requires
        st.grabbed is None,
        st.clicked_id == Some(c),
        find(s, c) is Some,
        !inp.now.click && inp.before.click,
        !inp.now.grab,
        hit matches Some(h) ==> find(s, h.overlay) is Some,
    ensures
        releases_on(interact_spec(s, st, inp, hit).2, c),
        interact_spec(s, st, inp, hit).1.clicked_id is None,
{
    match hit {
        None => {
            let (s2, st2, ev, out) = miss_step(s, st, inp);
            let (st1, e1) = match st.hovered_id {
                Some(h) => (InteractionState { hovered_id: None, ..st },
                    if find(s, h) is Some { seq![HandEvent::Left(h)] } else { Seq::<HandEvent>::empty() }),
                None => (st, Seq::<HandEvent>::empty()),
            };
            assert(ev[e1.len() as int] == HandEvent::Pointer(c, PointerHit { pointer: inp.idx, overlay: c, mode: st.mode, primary: false }, false));
        },
        Some(hit0) => {
            let (s1, e1) = match st.hovered_id {
                Some(h) => if h != hit0.overlay && find(s, h) is Some {
                    (clear_primary_if(s, h, inp.idx), seq![HandEvent::Left(h)])
                } else {
                    (s, Seq::<HandEvent>::empty())
                },
                None => (s, Seq::<HandEvent>::empty()),
            };
            match st.hovered_id {
                Some(h) => {
                    lemma_with_primary_keeps_overlays(s, h, None, c);
                    lemma_with_primary_keeps_overlays(s, h, None, hit0.overlay);
                },
                None => {},
            }
            assert(find(s1, c) is Some);
            assert(find(s1, hit0.overlay) is Some);
            let hov = find(s1, hit0.overlay)->0;
            let becomes_primary = match hov.primary_pointer {
                Some(pp) => hit0.pointer <= pp,
                None => true,
            };
            let s2 = if becomes_primary { with_primary(s1, hit0.overlay, Some(hit0.pointer)) } else { s1 };
            lemma_with_primary_keeps_overlays(s1, hit0.overlay, Some(hit0.pointer), c);
            assert(find(s2, c) is Some);
            let hit = PointerHit { primary: if becomes_primary { true } else { hit0.primary }, ..hit0 };
            let st1 = InteractionState { hovered_id: Some(hit0.overlay), ..st };
            let (st2, e2, out) = hover_step(s2, st1, inp, hit, hov.grabbable, st.mode);
            let ev = e1 + e2;
            let e3 = if inp.scrolling {
                if inp.other_hand_grabs_hit { seq![HandEvent::Curve(hit0.overlay)] } else { seq![HandEvent::Scroll(hit)] }
            } else {
                Seq::<HandEvent>::empty()
            };
            let k: int = (e1.len() + 1 + e3.len()) as int;
            assert(e2 == seq![HandEvent::Hover(hit)] + e3 + seq![HandEvent::Pointer(c, hit, false)]);
            assert(ev[k] == HandEvent::Pointer(c, hit, false));
        },
    }
}

/// One frame of a pointer's interaction with the overlays.
pub open spec fn interact_spec(s: Seq<OverlayState>, st: InteractionState, inp: HandInput, hit: Option<PointerHit>)
    -> (Seq<OverlayState>, InteractionState, Seq<HandEvent>, HandOutcome) {
    match st.grabbed {
        Some(g) => grab_step(s, st, inp, g),
        None => match hit {
            None => miss_step(s, st, inp),
            Some(h) => hit_step(s, st, inp, h),
        },
    }
}

/// A frame of a grab in progress.
fn grab_frame(overlays: &OverlayContainer, st: &mut InteractionState, inp: &HandInput, g: GrabData) -> (ev: Vec<HandEvent>)
    requires
        overlays.wf(),
        g.grabbed_id < u32::MAX,
    ensures
        ({
            let r = grab_step(overlays.view(), *old(st), *inp, g);
            &&& *final(st) == r.1
            &&& ev@ == r.2
        }),
{
    let mut ev: Vec<HandEvent> = Vec::new();
    let found = overlays.get_by_id(g.grabbed_id);
    proof { lemma_find_by_lookup(overlays.view(), g.grabbed_id, found); }
    if found.is_some() {
        if inp.now.grab {
            if inp.now.click {
                st.mode = PointerMode::Special;
            }
            ev.push(HandEvent::HandleGrabbed(g.grabbed_id));
        } else {
            st.grabbed = None;
            ev.push(HandEvent::Drop(g.grabbed_id));
        }
    } else {
        st.grabbed = None;
    }
    proof { assert(ev@ =~= grab_step(overlays.view(), *old(st), *inp, g).2); }
    ev
}

/// A frame with nothing under the pointer.
fn miss_frame(overlays: &OverlayContainer, st: &mut InteractionState, inp: &HandInput) -> (ev: Vec<HandEvent>)
    requires
        overlays.wf(),
        state_ids_ok(*old(st)),
    ensures
        ({
            let r = miss_step(overlays.view(), *old(st), *inp);
            &&& *final(st) == r.1
            &&& ev@ == r.2
        }),
{
    let mut ev: Vec<HandEvent> = Vec::new();
    let mode0 = st.mode;
    match st.hovered_id {
        Some(h) => {
            st.hovered_id = None;
            let found = overlays.get_by_id(h);
            proof { lemma_find_by_lookup(overlays.view(), h, found); }
            if found.is_some() {
                ev.push(HandEvent::Left(h));
            }
        },
        None => {},
    }
    let ghost e1 = ev@;
    let mut e2: Vec<HandEvent> = Vec::new();
    if !inp.now.click && inp.before.click {
        match st.clicked_id {
            Some(c) => {
                st.clicked_id = None;
                let found = overlays.get_by_id(c);
                proof { lemma_find_by_lookup(overlays.view(), c, found); }
                if found.is_some() {
                    e2.push(HandEvent::Pointer(c, PointerHit { pointer: inp.idx, overlay: c, mode: mode0, primary: false }, false));
                }
            },
            None => {},
        }
    }
    let ghost e2v = e2@;
    ev.append(&mut e2);
    proof {
        let r = miss_step(overlays.view(), *old(st), *inp);
        assert(e1 + e2v == r.2);
    }
    ev
}

/// The events of a frame once the hit overlay is the hovered one.
fn hover_frame(overlays: &OverlayContainer, st: &mut InteractionState, inp: &HandInput, hit: PointerHit, grabbable: bool, mode: PointerMode)
    -> (r: (Vec<HandEvent>, HandOutcome))
    requires
        overlays.wf(),
        state_ids_ok(*old(st)),
        hit.overlay < u32::MAX,
    ensures
        ({
            let h = hover_step(overlays.view(), *old(st), *inp, hit, grabbable, mode);
            &&& *final(st) == h.0
            &&& r.0@ == h.1
            &&& r.1 == h.2
        }),
{
    let id = hit.overlay;
    let mut ev: Vec<HandEvent> = Vec::new();
    if inp.now.grab && !inp.before.grab && grabbable {
        ev.push(HandEvent::Focus(id));
        ev.push(HandEvent::StartGrab(id));
        st.grabbed = Some(GrabData { grabbed_id: id, grab_all: mode == PointerMode::Right });
        proof { assert(ev@ =~= seq![HandEvent::Focus(id), HandEvent::StartGrab(id)]); }
        return (ev, HandOutcome::Hit { grab_started: true });
    }
    ev.push(HandEvent::Hover(hit));
    if inp.scrolling {
        if inp.other_hand_grabs_hit {
            ev.push(HandEvent::Curve(id));
        } else {
            ev.push(HandEvent::Scroll(hit));
        }
    }
    let ghost e23 = ev@;
    let mut e4: Vec<HandEvent> = Vec::new();
    if inp.now.click && !inp.before.click {
        st.clicked_id = Some(id);
        e4.push(HandEvent::Focus(id));
        e4.push(HandEvent::Pointer(id, hit, true));
    } else if !inp.now.click && inp.before.click {
        match st.clicked_id {
            Some(c) => {
                st.clicked_id = None;
                let f2 = overlays.get_by_id(c);
                proof { lemma_find_by_lookup(overlays.view(), c, f2); }
                if f2.is_some() {
                    e4.push(HandEvent::Pointer(c, hit, false));
                }
            },
            None => {
                e4.push(HandEvent::Pointer(id, hit, false));
            },
        }
    }
    let ghost e4v = e4@;
    ev.append(&mut e4);
    proof {
        let h = hover_step(overlays.view(), *old(st), *inp, hit, grabbable, mode);
        assert(e23 + e4v =~= h.1);
    }
    (ev, HandOutcome::Hit { grab_started: false })
}

/// A frame with `hit0` the nearest overlay under the pointer.
fn hit_frame(overlays: &mut OverlayContainer, st: &mut InteractionState, inp: &HandInput, hit0: PointerHit)
    -> (r: (Vec<HandEvent>, HandOutcome))
    requires
        old(overlays).wf(),
        state_ids_ok(*old(st)),
        hit0.overlay < u32::MAX,
    ensures
        final(overlays).wf(),
        ({
            let h = hit_step(old(overlays).view(), *old(st), *inp, hit0);
            &&& final(overlays).view() == h.0
            &&& *final(st) == h.1
            &&& r.0@ == h.2
            &&& r.1 == h.3
        }),
{
    let mut ev: Vec<HandEvent> = Vec::new();
    let mode0 = st.mode;
    match st.hovered_id {
        Some(h) => {
            if h != hit0.overlay {
                let found = overlays.get_by_id(h);
                proof { lemma_find_by_lookup(overlays.view(), h, found); }
                match found {
                    Some(o) => {
                        if o.primary_pointer == Some(inp.idx) {
                            overlays.set_primary_pointer(h, None);
                        }
                        ev.push(HandEvent::Left(h));
                    },
                    None => {},
                }
            }
        },
        None => {},
    }
    let ghost e1 = ev@;
    let found = overlays.get_by_id(hit0.overlay);
    proof { lemma_find_by_lookup(overlays.view(), hit0.overlay, found); }
    let (pp, grabbable) = match found {
        None => {
            return (ev, HandOutcome::NoHit);
        },
        Some(hov) => (hov.primary_pointer, hov.grabbable),
    };
    st.hovered_id = Some(hit0.overlay);
    let becomes_primary = match pp {
        Some(p) => hit0.pointer <= p,
        None => true,
    };
    if becomes_primary {
        overlays.set_primary_pointer(hit0.overlay, Some(hit0.pointer));
    }
    let hit = PointerHit { primary: if becomes_primary { true } else { hit0.primary }, ..hit0 };
    let (mut e2, out) = hover_frame(overlays, st, inp, hit, grabbable, mode0);
    let ghost e2v = e2@;
    ev.append(&mut e2);
    proof { assert(ev@ == e1 + e2v); }
    (ev, out)
}

/// One frame of a pointer's interaction: updates the pointer's state and the
/// overlays' primary pointers, and gives the events for the caller to carry out
/// in order.
pub fn interact_hand(overlays: &mut OverlayContainer, st: &mut InteractionState, inp: &HandInput, hit: Option<PointerHit>)
    -> (r: (Vec<HandEvent>, HandOutcome))
    requires
        old(overlays).wf(),
        state_ids_ok(*old(st)),
        hit matches Some(h) ==> h.overlay < u32::MAX,
    ensures
        final(overlays).wf(),
        state_ids_ok(*final(st)),
        ({
            let (s2, st2, ev, out) = interact_spec(old(overlays).view(), *old(st), *inp, hit);
            &&& final(overlays).view() == s2
            &&& *final(st) == st2
            &&& r.0@ == ev
            &&& r.1 == out
        }),
{
    match st.grabbed {
        Some(g) => {
            let ev = grab_frame(overlays, st, inp, g);
            return (ev, HandOutcome::Grabbing);
        },
        None => {},
    }
    match hit {
        None => {
            let ev = miss_frame(overlays, st, inp);
            (ev, HandOutcome::NoHit)
        },
        Some(hit0) => hit_frame(overlays, st, inp, hit0),
    }
}

} // verus!
