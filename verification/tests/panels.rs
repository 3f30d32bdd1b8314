use std::collections::VecDeque;

use wlx_overlay_s::gui::{
    axis_index, clock_timezone, color_parse, down_slot, pretty_timezone_name, replace_all, run_system, run_window,
    scroll_slot, timer_text, timer_text_of_lowered, timezone_label, up_slot, Axis, ButtonData, ButtonSlot, ButtonTask,
    ColorError, NotificationSettings, Rgba8, SystemAction, SystemOutcome, TimezoneDef, ToastMessage, WindowAction,
};
use wlx_overlay_s::gui::{apply_overlay_action, overlay_toast_text, switched_hand, OverlayActionOutcome, OverlayToast, OverlayToggle};
use wlx_overlay_s::overlay::{OverlayID, OverlayState, RelativeTo};
use wlx_overlay_s::pointer::PointerMode;
use wlx_overlay_s::tasks::TaskContainer;

#[test]
fn press_release_and_scroll_pick_action_lists() {
    assert_eq!(down_slot(PointerMode::Left), Some(ButtonSlot::ClickDown));
    assert_eq!(down_slot(PointerMode::Right), Some(ButtonSlot::RightDown));
    assert_eq!(down_slot(PointerMode::Middle), Some(ButtonSlot::MiddleDown));
    assert_eq!(down_slot(PointerMode::Special), None);
    assert_eq!(up_slot(PointerMode::Left, true), Some(ButtonSlot::LongClickUp));
    assert_eq!(up_slot(PointerMode::Right, false), Some(ButtonSlot::RightUp));
    assert_eq!(up_slot(PointerMode::Middle, true), Some(ButtonSlot::LongMiddleUp));
    assert_eq!(scroll_slot(true), ButtonSlot::ScrollDown);
    assert_eq!(scroll_slot(false), ButtonSlot::ScrollUp);
}

#[test]
fn button_remembers_press_mode_for_release() {
    let mut b: ButtonData<u32> = ButtonData::new(0);
    b.right_up = Some(vec![1]);
    b.long_right_up = Some(vec![2]);
    assert_eq!(b.on_press(PointerMode::Right, 1000), Some(ButtonSlot::RightDown));
    assert_eq!(b.slot(ButtonSlot::RightDown), None);
    let short = b.on_release(1200, 500).unwrap();
    assert_eq!(b.slot(short), Some(&vec![1]));
    let long = b.on_release(1600, 500).unwrap();
    assert_eq!(b.slot(long), Some(&vec![2]));
    assert_eq!(b.on_scroll(true), ButtonSlot::ScrollDown);
}

#[test]
fn axis_indices() {
    assert_eq!(axis_index(Axis::X), 0);
    assert_eq!(axis_index(Axis::Y), 1);
    assert_eq!(axis_index(Axis::Z), 2);
}

#[test]
fn toast_texts() {
    assert_eq!(ToastMessage::FixingFloorIn(3).title(), "Fixing floor in 3");
    assert_eq!(ToastMessage::FixingFloorIn(3).body(), "Place either controller on the floor.");
    assert_eq!(ToastMessage::Notifications(true).title(), "Notifications are enabled.");
    assert_eq!(ToastMessage::NotificationSounds(false).title(), "Notification sounds are disabled.");
    assert_eq!(ToastMessage::Notifications(false).body(), "");
}

fn drain(tasks: &mut TaskContainer<ButtonTask>, now: u64) -> Vec<ButtonTask> {
    let mut out = VecDeque::new();
    tasks.retrieve_due(now, &mut out);
    out.into_iter().collect()
}

#[test]
fn fix_floor_counts_down_then_fixes() {
    let mut settings = NotificationSettings { notifications_enabled: true, notifications_sound_enabled: true };
    let mut tasks = TaskContainer::new();
    let r = run_system(&SystemAction::PlayspaceFixFloor, &mut settings, &mut tasks, 1000);
    assert_eq!(r, SystemOutcome::Done);
    let first = drain(&mut tasks, 1000);
    assert_eq!(first.len(), 1);
    assert!(matches!(first[0], ButtonTask::Toast { message: ToastMessage::FixingFloorIn(5), timeout_ms: Some(1000) }));
    let mid = drain(&mut tasks, 4999);
    assert_eq!(mid.len(), 3);
    assert!(matches!(mid[2], ButtonTask::Toast { message: ToastMessage::FixingFloorIn(2), .. }));
    let last = drain(&mut tasks, 6000);
    assert_eq!(last.len(), 2);
    assert!(matches!(last[0], ButtonTask::Toast { message: ToastMessage::FixingFloorIn(1), .. }));
    assert!(matches!(last[1], ButtonTask::FixFloor));
}

#[test]
fn toggles_flip_settings_and_announce_them() {
    let mut settings = NotificationSettings { notifications_enabled: true, notifications_sound_enabled: false };
    let mut tasks = TaskContainer::new();
    run_system(&SystemAction::ToggleNotifications, &mut settings, &mut tasks, 0);
    assert!(!settings.notifications_enabled);
    run_system(&SystemAction::ToggleNotificationSounds, &mut settings, &mut tasks, 0);
    assert!(settings.notifications_sound_enabled);
    let out = drain(&mut tasks, 0);
    assert!(matches!(out[0], ButtonTask::Toast { message: ToastMessage::Notifications(false), timeout_ms: None }));
    assert!(matches!(out[1], ButtonTask::Toast { message: ToastMessage::NotificationSounds(true), timeout_ms: None }));
    run_system(&SystemAction::ToggleNotifications, &mut settings, &mut tasks, 0);
    assert!(settings.notifications_enabled);
}

#[test]
fn reset_and_persist() {
    let mut settings = NotificationSettings { notifications_enabled: true, notifications_sound_enabled: true };
    let mut tasks = TaskContainer::new();
    assert_eq!(run_system(&SystemAction::PersistConfig, &mut settings, &mut tasks, 0), SystemOutcome::PersistConfig);
    assert_eq!(run_system(&SystemAction::PlayspaceResetOffset, &mut settings, &mut tasks, 0), SystemOutcome::Done);
    let out = drain(&mut tasks, 0);
    assert_eq!(out.len(), 1);
    assert!(matches!(out[0], ButtonTask::ResetPlayspace));
}

#[test]
fn window_actions_queue_window_tasks() {
    let mut tasks = TaskContainer::new();
    run_window("mirror-1", &WindowAction::ShowMirror, &mut tasks, 5);
    run_window("panel", &WindowAction::ShowUi, &mut tasks, 5);
    run_window("panel", &WindowAction::Destroy, &mut tasks, 5);
    let out = drain(&mut tasks, 5);
    assert!(matches!(&out[0], ButtonTask::CreateMirror(n) if n == "mirror-1"));
    assert!(matches!(&out[1], ButtonTask::CreateUi(n) if n == "panel"));
    assert!(matches!(&out[2], ButtonTask::DropOverlay(n) if n == "panel"));
}

#[test]
fn colors_parse_from_html_hex() {
    assert_eq!(color_parse("#FF00FF"), Ok(Rgba8 { r: 255, g: 0, b: 255, a: 255 }));
    assert_eq!(color_parse("#ff00ff80"), Ok(Rgba8 { r: 255, g: 0, b: 255, a: 128 }));
    assert_eq!(color_parse("#123abc"), Ok(Rgba8 { r: 0x12, g: 0x3a, b: 0xbc, a: 255 }));
    assert_eq!(color_parse("x+f0a0b"), Ok(Rgba8 { r: 15, g: 10, b: 11, a: 255 }));
    assert_eq!(color_parse("#FF00F"), Err(ColorError::Invalid));
    assert_eq!(color_parse("#GG0000"), Err(ColorError::Invalid));
    assert_eq!(color_parse("#-10000"), Err(ColorError::Invalid));
    assert_eq!(color_parse(""), Err(ColorError::Invalid));
}

#[test]
fn timer_labels() {
    assert_eq!(timer_text("%h:%m:%s", 3725), "01:02:05");
    assert_eq!(timer_text("%H:%M:%S", 59), "00:00:59");
    assert_eq!(timer_text("Up %s", 360_000), "up 00");
    assert_eq!(timer_text("%h", 360_000), "100");
    assert_eq!(timer_text_of_lowered("%%ss", 7), "%07s");
}

#[test]
fn replacement_is_left_to_right_without_overlap() {
    let s: Vec<char> = "aaaa".chars().collect();
    let pat: Vec<char> = "aa".chars().collect();
    let rep: Vec<char> = "b".chars().collect();
    assert_eq!(replace_all(&s, &pat, &rep), vec!['b', 'b']);
    let s: Vec<char> = "aaa".chars().collect();
    assert_eq!(replace_all(&s, &pat, &rep), vec!['b', 'a']);
}

#[test]
fn time_zone_names() {
    assert_eq!(pretty_timezone_name("America/New_York"), "New York");
    assert_eq!(pretty_timezone_name("UTC"), "UTC");
    let zones = vec!["Europe/Oslo".to_string(), "Asia/Ho_Chi_Minh".to_string()];
    assert_eq!(timezone_label(1, &zones), ("Ho Chi Minh".to_string(), false));
    assert_eq!(timezone_label(2, &zones), ("Error".to_string(), true));
    assert_eq!(clock_timezone(&Some(TimezoneDef::Idx(0)), &zones), (Some("Europe/Oslo".to_string()), false));
    assert_eq!(clock_timezone(&Some(TimezoneDef::Idx(5)), &zones), (None, true));
    assert_eq!(clock_timezone(&Some(TimezoneDef::Str("UTC".to_string())), &zones), (Some("UTC".to_string()), false));
    assert_eq!(clock_timezone(&None, &zones), (None, false));
}

fn overlay_named(name: &str) -> OverlayState {
    OverlayState {
        id: OverlayID(1),
        name: name.to_string(),
        want_visible: true,
        show_hide: false,
        grabbable: true,
        interactable: true,
        recenter: true,
        anchored: false,
        dirty: false,
        z_order: 0,
        relative_to: RelativeTo::Hand(0),
        primary_pointer: None,
    }
}

#[test]
fn overlay_actions_toggle_flags() {
    let mut o = overlay_named("Screen");
    let r = apply_overlay_action(&mut o, OverlayToggle::ToggleVisible);
    assert!(!o.want_visible && !o.show_hide);
    assert_eq!(r.reset, Some(false));
    let r = apply_overlay_action(&mut o, OverlayToggle::ToggleImmovable);
    assert!(!o.recenter && !o.grabbable && !o.show_hide);
    assert_eq!(r.toast, Some(OverlayToast::LockedInPlace));
    let r = apply_overlay_action(&mut o, OverlayToggle::ToggleVisible);
    assert!(o.want_visible && !o.show_hide);
    assert_eq!(r.reset, None);
    let r = apply_overlay_action(&mut o, OverlayToggle::ToggleInteraction);
    assert!(!o.interactable);
    assert_eq!(r.toast, Some(OverlayToast::NonInteractable));
    let r = apply_overlay_action(&mut o, OverlayToggle::Reset);
    assert_eq!(r, OverlayActionOutcome { reset: Some(true), toast: Some(OverlayToast::HasBeenReset) });
    assert_eq!(overlay_toast_text(OverlayToast::LockedInPlace, "Screen"), "Screen is now locked in place!");
    assert_eq!(overlay_toast_text(OverlayToast::HasBeenReset, "DP-1"), "DP-1 has been reset!");
}

#[test]
fn watch_switches_hands() {
    assert_eq!(switched_hand(RelativeTo::Hand(0)), RelativeTo::Hand(1));
    assert_eq!(switched_hand(RelativeTo::Hand(1)), RelativeTo::Hand(0));
    assert_eq!(switched_hand(RelativeTo::Head), RelativeTo::Hand(0));
}
