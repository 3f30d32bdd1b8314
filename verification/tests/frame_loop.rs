use wlx_overlay_s::pointer::PointerButtons;
use wlx_overlay_s::session::{
    create_applies, drop_applies, frame_plan, FramePlan, ShouldRender, leave_after_exit_request, show_hide_pressed, vr_event_action, DeleteQueue,
    DeviceUpdateSchedule, ExitRequest, VrEvent, VrEventAction, XrEvent, XrSessionAction, XrSessionFlags,
    XrSessionState,
};

#[test]
fn xr_session_begins_ends_and_exits() {
    let mut f = XrSessionFlags::new();
    assert_eq!(f.on_event(XrEvent::SessionStateChanged(XrSessionState::Ready), true), XrSessionAction::BeginSession);
    assert!(f.session_running);
    assert_eq!(f.on_event(XrEvent::SessionStateChanged(XrSessionState::Stopping), true), XrSessionAction::EndSession);
    assert!(!f.session_running);
    assert_eq!(f.on_event(XrEvent::SessionStateChanged(XrSessionState::Exiting), true), XrSessionAction::ExitLoop);
    assert_eq!(f.on_event(XrEvent::InstanceLossPending, true), XrSessionAction::ExitLoop);
    assert_eq!(f.on_event(XrEvent::EventsLost(3), true), XrSessionAction::ReportLost(3));
    assert_eq!(f.on_event(XrEvent::Other, true), XrSessionAction::Nothing);
}

#[test]
fn skybox_follows_scene_visibility() {
    let mut f = XrSessionFlags::new();
    assert_eq!(f.on_event(XrEvent::MainSessionVisibilityChanged(false), true), XrSessionAction::Nothing);
    assert_eq!(f.on_event(XrEvent::MainSessionVisibilityChanged(true), true), XrSessionAction::DestroySkybox);
    assert!(f.main_session_visible);
    assert_eq!(f.on_event(XrEvent::MainSessionVisibilityChanged(false), true), XrSessionAction::AllocateSkybox);
    f.on_event(XrEvent::MainSessionVisibilityChanged(true), false);
    assert_eq!(f.on_event(XrEvent::MainSessionVisibilityChanged(false), false), XrSessionAction::Nothing);
    assert!(!f.main_session_visible);
}

#[test]
fn shutdown_requests() {
    assert!(!leave_after_exit_request(ExitRequest::Requested));
    assert!(leave_after_exit_request(ExitRequest::NotRunning));
    assert!(leave_after_exit_request(ExitRequest::Failed));
}

#[test]
fn openvr_events() {
    assert_eq!(vr_event_action(VrEvent::Quit), VrEventAction::ExitLoop);
    assert_eq!(vr_event_action(VrEvent::TrackedDeviceUpdated), VrEventAction::UpdateDevices);
    assert_eq!(vr_event_action(VrEvent::ChaperoneUniverseHasChanged), VrEventAction::PlayspaceChanged);
    assert_eq!(vr_event_action(VrEvent::IpdChanged), VrEventAction::ReadIpd);
    assert_eq!(vr_event_action(VrEvent::Other), VrEventAction::Nothing);
}

#[test]
fn devices_are_read_every_thirty_seconds() {
    let mut s = DeviceUpdateSchedule::new(1000);
    assert!(s.due(1000));
    assert_eq!(s.next, 31_000);
    assert!(!s.due(20_000));
    s.update_now(20_000);
    assert!(s.due(20_000));
    assert!(!s.due(49_999));
    assert!(s.due(50_000));
}

#[test]
fn show_hide_runs_on_a_press_edge() {
    let up = PointerButtons::default();
    let mut down = PointerButtons::default();
    down.show_hide = true;
    assert!(!show_hide_pressed(&[(up, up), (down, down)]));
    assert!(show_hide_pressed(&[(up, up), (down, up)]));
    assert!(!show_hide_pressed(&[]));
}

#[test]
fn queued_overlay_changes() {
    assert!(create_applies(false));
    assert!(!create_applies(true));
    assert!(drop_applies(3, 4));
    assert!(!drop_applies(4, 4));
}

#[test]
fn removed_overlays_wait_five_frames() {
    let mut q = DeleteQueue::new();
    q.push("a", 10);
    q.push("b", 12);
    assert!(q.retain_pending(14).is_empty());
    assert_eq!(q.retain_pending(15), vec!["a"]);
    assert_eq!(q.retain_pending(17), vec!["b"]);
    assert!(q.retain_pending(100).is_empty());
}

#[test]
fn frame_plan_renders_only_when_needed() {
    assert_eq!(frame_plan(false, ShouldRender::Should, true, true), FramePlan::Hidden);
    assert_eq!(frame_plan(true, ShouldRender::Should, false, false), FramePlan::Render);
    assert_eq!(frame_plan(true, ShouldRender::Can, true, false), FramePlan::Render);
    assert_eq!(frame_plan(true, ShouldRender::Can, false, true), FramePlan::ShowPrevious);
    assert_eq!(frame_plan(true, ShouldRender::Unable, true, true), FramePlan::ShowPrevious);
    assert_eq!(frame_plan(true, ShouldRender::Unable, false, false), FramePlan::Nothing);
}
