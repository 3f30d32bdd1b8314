//! Decisions of the VR backends' frame loops: what a runtime event asks of
//! the session, when tracked devices are read again, when a show/hide press
//! happened, which queued overlay changes apply, and when a removed overlay's
//! resources may go. The runtime calls stay with the caller.

use vstd::prelude::*;
use crate::pointer::PointerButtons;

verus! {

/// OpenXR session states, as far as the loop tells them apart.
#[derive(Clone, Copy, PartialEq, Eq, Structural, Debug)]
pub enum XrSessionState {
    Ready,
    Stopping,
    Exiting,
    LossPending,
    Other,
}

/// OpenXR events, as far as the loop tells them apart.
#[derive(Clone, Copy, PartialEq, Eq, Structural, Debug)]
pub enum XrEvent {
    SessionStateChanged(XrSessionState),
    InstanceLossPending,
    /// This many events were lost.
    EventsLost(u32),
    /// The main (scene) session became visible or hidden.
    MainSessionVisibilityChanged(bool),
    Other,
}

/// What the loop knows of its OpenXR session.
#[derive(Clone, Copy, PartialEq, Eq, Structural, Debug)]
pub struct XrSessionFlags {
    pub session_running: bool,
    pub main_session_visible: bool,
}

/// What the loop does for an event.
#[derive(Clone, Copy, PartialEq, Eq, Structural, Debug)]
pub enum XrSessionAction {
    Nothing,
    BeginSession,
    EndSession,
    ExitLoop,
    /// Report how many events were lost.
    ReportLost(u32),
    /// The scene is visible: drop the skybox.
    DestroySkybox,
    /// The scene is hidden and the view is opaque: show a skybox.
    AllocateSkybox,
}

/// The flags and action after `ev`; `opaque` says whether the view blends opaquely.
pub open spec fn xr_event_step(f: XrSessionFlags, ev: XrEvent, opaque: bool) -> (XrSessionFlags, XrSessionAction) {
    match ev {
        XrEvent::SessionStateChanged(XrSessionState::Ready) =>
            (XrSessionFlags { session_running: true, ..f }, XrSessionAction::BeginSession),
        XrEvent::SessionStateChanged(XrSessionState::Stopping) =>
            (XrSessionFlags { session_running: false, ..f }, XrSessionAction::EndSession),
        XrEvent::SessionStateChanged(XrSessionState::Exiting)
        | XrEvent::SessionStateChanged(XrSessionState::LossPending)
        | XrEvent::InstanceLossPending => (f, XrSessionAction::ExitLoop),
        XrEvent::EventsLost(n) => (f, XrSessionAction::ReportLost(n)),
        XrEvent::MainSessionVisibilityChanged(v) => if v == f.main_session_visible {
            (f, XrSessionAction::Nothing)
        } else if v {
            (XrSessionFlags { main_session_visible: true, ..f }, XrSessionAction::DestroySkybox)
        } else if opaque {
            (XrSessionFlags { main_session_visible: false, ..f }, XrSessionAction::AllocateSkybox)
        } else {
            (XrSessionFlags { main_session_visible: false, ..f }, XrSessionAction::Nothing)
        },
        _ => (f, XrSessionAction::Nothing),
    }
}

impl XrSessionFlags {
    pub fn new() -> (f: Self)
        ensures
            !f.session_running && !f.main_session_visible,
    {
        XrSessionFlags { session_running: false, main_session_visible: false }
    }

    /// Handles one OpenXR event.
    pub fn on_event(&mut self, ev: XrEvent, opaque: bool) -> (a: XrSessionAction)
        ensures
            (*final(self), a) == xr_event_step(*old(self), ev, opaque),
    {
        match ev {
            XrEvent::SessionStateChanged(XrSessionState::Ready) => {
                self.session_running = true;
                XrSessionAction::BeginSession
            },
            XrEvent::SessionStateChanged(XrSessionState::Stopping) => {
                self.session_running = false;
                XrSessionAction::EndSession
            },
            XrEvent::SessionStateChanged(XrSessionState::Exiting)
            | XrEvent::SessionStateChanged(XrSessionState::LossPending)
            | XrEvent::InstanceLossPending => XrSessionAction::ExitLoop,
            XrEvent::EventsLost(n) => XrSessionAction::ReportLost(n),
            XrEvent::MainSessionVisibilityChanged(v) => {
                if v == self.main_session_visible {
                    XrSessionAction::Nothing
                } else {
                    self.main_session_visible = v;
                    if v {
                        XrSessionAction::DestroySkybox
                    } else if opaque {
                        XrSessionAction::AllocateSkybox
                    } else {
                        XrSessionAction::Nothing
                    }
                }
            },
            _ => XrSessionAction::Nothing,
        }
    }
}

/// How an OpenXR exit request went.
#[derive(Clone, Copy, PartialEq, Eq, Structural, Debug)]
pub enum ExitRequest {
    /// The runtime will stop the session.
    Requested,
    /// No session was running.
    NotRunning,
    /// The request failed otherwise.
    Failed,
}

/// After a shutdown signal the loop asks the runtime to end the session, and
/// leaves at once when there is no session or the request failed.
pub fn leave_after_exit_request(r: ExitRequest) -> (leave: bool)
    ensures
        leave == (r != ExitRequest::Requested),
{
    match r {
        ExitRequest::Requested => false,
        _ => true,
    }
}

/// OpenVR events, as far as the loop tells them apart.
#[derive(Clone, Copy, PartialEq, Eq, Structural, Debug)]
pub enum VrEvent {
    Quit,
    TrackedDeviceActivated,
    TrackedDeviceDeactivated,
    TrackedDeviceUpdated,
    SeatedZeroPoseReset,
    StandingZeroPoseReset,
    ChaperoneUniverseHasChanged,
    SceneApplicationChanged,
    IpdChanged,
    Other,
}

/// What the loop does for an OpenVR event.
#[derive(Clone, Copy, PartialEq, Eq, Structural, Debug)]
pub enum VrEventAction {
    Nothing,
    ExitLoop,
    /// Read the tracked devices again now.
    UpdateDevices,
    /// The playspace changed: take it over again.
    PlayspaceChanged,
    /// Read the new interpupillary distance.
    ReadIpd,
}

pub fn vr_event_action(ev: VrEvent) -> (a: VrEventAction)
    ensures
        a == match ev {
            VrEvent::Quit => VrEventAction::ExitLoop,
            VrEvent::TrackedDeviceActivated | VrEvent::TrackedDeviceDeactivated
                | VrEvent::TrackedDeviceUpdated => VrEventAction::UpdateDevices,
            VrEvent::SeatedZeroPoseReset | VrEvent::StandingZeroPoseReset
                | VrEvent::ChaperoneUniverseHasChanged | VrEvent::SceneApplicationChanged => VrEventAction::PlayspaceChanged,
            VrEvent::IpdChanged => VrEventAction::ReadIpd,
            VrEvent::Other => VrEventAction::Nothing,
        },
{
    match ev {
        VrEvent::Quit => VrEventAction::ExitLoop,
        VrEvent::TrackedDeviceActivated | VrEvent::TrackedDeviceDeactivated
            | VrEvent::TrackedDeviceUpdated => VrEventAction::UpdateDevices,
        VrEvent::SeatedZeroPoseReset | VrEvent::StandingZeroPoseReset
            | VrEvent::ChaperoneUniverseHasChanged | VrEvent::SceneApplicationChanged => VrEventAction::PlayspaceChanged,
        VrEvent::IpdChanged => VrEventAction::ReadIpd,
        VrEvent::Other => VrEventAction::Nothing,
    }
}

/// Tracked devices are read again every 30 seconds (times in milliseconds).
pub const DEVICE_UPDATE_PERIOD_MS: u64 = 30000;

/// When the tracked devices are read next.
#[derive(Clone, Copy, PartialEq, Eq, Structural, Debug)]
pub struct DeviceUpdateSchedule {
    pub next: u64,
}

impl DeviceUpdateSchedule {
    /// The first read is due at once.
    pub fn new(now: u64) -> (s: Self)
        ensures
            s.next == now,
    {
        DeviceUpdateSchedule { next: now }
    }

    /// A device came or went: read them at the next chance.
    pub fn update_now(&mut self, now: u64)
        ensures
            final(self).next == now,
    {
        self.next = now;
    }

    /// Whether the devices are to be read at `now`; if so the next read is
    /// planned 30 seconds on.
    pub fn due(&mut self, now: u64) -> (r: bool)
        requires
            now + DEVICE_UPDATE_PERIOD_MS <= u64::MAX,
        ensures
            r == (old(self).next <= now),
            final(self).next == (if r { (now + DEVICE_UPDATE_PERIOD_MS) as u64 } else { old(self).next }),
    {
        if self.next <= now {
            self.next = now + DEVICE_UPDATE_PERIOD_MS;
            true
        } else {
            false
        }
    }
}

/// Some pointer pressed its show/hide button this frame.
pub open spec fn show_hide_pressed_spec(hands: Seq<(PointerButtons, PointerButtons)>) -> bool {
    exists|i: int| 0 <= i < hands.len() && (#[trigger] hands[i]).0.show_hide && !hands[i].1.show_hide
}

/// Whether the show/hide toggle runs this frame; each hand gives its buttons
/// now and in the previous frame.
pub fn show_hide_pressed(hands: &[(PointerButtons, PointerButtons)]) -> (r: bool)
    ensures
        r == show_hide_pressed_spec(hands@),
{
    let mut i: usize = 0;
    while i < hands.len()
        invariant
            i <= hands@.len(),
            forall|j: int| 0 <= j < i ==> !((#[trigger] hands@[j]).0.show_hide && !hands@[j].1.show_hide),
        decreases hands@.len() - i,
    {
        if hands[i].0.show_hide && !hands[i].1.show_hide {
            assert(hands@[i as int].0.show_hide && !hands@[i as int].1.show_hide);
            return true;
        }
        i = i + 1;
    }
    false
}

/// A queued overlay creation applies only when no overlay has that name or id yet.
pub fn create_applies(exists: bool) -> (r: bool)
    ensures
        r == !exists,
{
    !exists
}

/// A queued overlay removal applies only to an overlay made before this frame.
pub fn drop_applies(birthframe: u64, cur_frame: u64) -> (r: bool)
    ensures
        r == (birthframe < cur_frame),
{
    birthframe < cur_frame
}

/// Frames a removed overlay is kept before its resources go (the runtime may
/// still show its last images).
pub const DELETE_DELAY_FRAMES: u64 = 5;

/// Removed overlays waiting for their resources to be freed, each with the
/// frame it may go after.
pub struct DeleteQueue<T> {
    items: Vec<(T, u64)>,
}

impl<T> DeleteQueue<T> {
    pub closed spec fn view(&self) -> Seq<(T, u64)> {
        self.items@
    }

    pub fn new() -> (q: Self)
        ensures
            q.view().len() == 0,
    {
        DeleteQueue { items: Vec::new() }
    }

    /// Queues an overlay removed in frame `cur_frame`.
    pub fn push(&mut self, item: T, cur_frame: u64)
        requires
            cur_frame + DELETE_DELAY_FRAMES <= u64::MAX,
        ensures
            final(self).view() == old(self).view().push((item, (cur_frame + DELETE_DELAY_FRAMES) as u64)),
    {
        self.items.push((item, cur_frame + DELETE_DELAY_FRAMES));
    }

    /// Frees what may go at `cur_frame`: keeps, in order, the items whose frame
    /// is still ahead, and hands out the rest in order.
    pub fn retain_pending(&mut self, cur_frame: u64) -> (freed: Vec<T>)
        ensures
            final(self).view() == old(self).view().filter(|p: (T, u64)| p.1 > cur_frame),
            freed@ == old(self).view().filter(|p: (T, u64)| p.1 <= cur_frame).map_values(|p: (T, u64)| p.0),
    {
        let ghost s = self.items@;
        let mut rest = Vec::new();
        std::mem::swap(&mut rest, &mut self.items);
        let mut kept: Vec<(T, u64)> = Vec::new();
        let mut freed: Vec<T> = Vec::new();
        let ghost mut k: int = 0;
        while rest.len() > 0
            invariant
                0 <= k <= s.len(),
                rest@ == s.skip(k),
                kept@ == s.take(k).filter(|p: (T, u64)| p.1 > cur_frame),
                freed@ == s.take(k).filter(|p: (T, u64)| p.1 <= cur_frame).map_values(|p: (T, u64)| p.0),
            decreases rest@.len(),
        {
            let (item, frame) = rest.remove(0);
            proof {
                assert(s[k] == (item, frame));
                assert(rest@ == s.skip(k + 1));
            }
            if frame > cur_frame {
                kept.push((item, frame));
            } else {
                freed.push(item);
            }
            proof {
                let t = s.take(k + 1);
                assert(t.last() == s[k]);
                assert(t.drop_last() == s.take(k));
                assert(t.filter(|p: (T, u64)| p.1 > cur_frame) == t.drop_last().filter(|p: (T, u64)| p.1 > cur_frame)
                    + (if s[k].1 > cur_frame { seq![s[k]] } else { Seq::empty() })) by {
                    reveal(Seq::filter);
                }
                assert(t.filter(|p: (T, u64)| p.1 <= cur_frame) == t.drop_last().filter(|p: (T, u64)| p.1 <= cur_frame)
                    + (if s[k].1 <= cur_frame { seq![s[k]] } else { Seq::empty() })) by {
                    reveal(Seq::filter);
                }
                k = k + 1;
            }
        }
        assert(s.take(s.len() as int) == s);
        self.items = kept;
        freed
    }
}

/// Whether an overlay's renderer has a new frame.
#[derive(Clone, Copy, PartialEq, Eq, Structural, Debug)]
pub enum ShouldRender {
    /// Something changed: render.
    Should,
    /// Nothing changed, but rendering is possible.
    Can,
    /// Nothing can be rendered now; the previous image may be shown.
    Unable,
}

/// What the frame loop does with one overlay this frame.
#[derive(Clone, Copy, PartialEq, Eq, Structural, Debug)]
pub enum FramePlan {
    /// Not wanted visible: not submitted.
    Hidden,
    /// Render a new image and submit it.
    Render,
    /// Submit the image rendered before.
    ShowPrevious,
    /// Nothing to show yet: not submitted.
    Nothing,
}

/// The frame loop's decision for one overlay: a wanted overlay is rendered
/// when its renderer asks for it, or when it could and its opacity changed;
/// otherwise the previous image is shown if there is one.
pub fn frame_plan(want_visible: bool, should: ShouldRender, alpha_changed: bool, has_image: bool) -> (p: FramePlan)
    ensures
        p == (if !want_visible {
            FramePlan::Hidden
        } else if should == ShouldRender::Should || (should == ShouldRender::Can && alpha_changed) {
            FramePlan::Render
        } else if has_image {
            FramePlan::ShowPrevious
        } else {
            FramePlan::Nothing
        }),
{
    if !want_visible {
        return FramePlan::Hidden;
    }
    let render = match should {
        ShouldRender::Should => true,
        ShouldRender::Can => alpha_changed,
        ShouldRender::Unable => false,
    };
    if render {
        FramePlan::Render
    } else if has_image {
        FramePlan::ShowPrevious
    } else {
        FramePlan::Nothing
    }
}

} // verus!
