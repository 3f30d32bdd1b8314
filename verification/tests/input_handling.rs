use wlx_overlay_s::bindings::is_bool;
use wlx_overlay_s::input::{
    evdev_code, keys_to_mods, modifier_key_events, mods_to_keys, UInputState, VirtualKey, ALT, CTRL, META, SHIFT,
};
use wlx_overlay_s::multiclick::{click_time_ms, CustomClickAction, MultiClickHandler};
use wlx_overlay_s::overlay::VisibilityChange;
use wlx_overlay_s::overlay::{OverlayContainer, OverlayID, OverlayState, RelativeTo};
use wlx_overlay_s::pointer::{
    interact_hand, interact_order, post_update, HandEvent, HandInput, HandOutcome, InteractionState, PointerButtons,
    PointerHit, PointerMode,
};

#[test]
fn modifier_tables() {
    assert_eq!(keys_to_mods(VirtualKey::LShift), Some(SHIFT));
    assert_eq!(keys_to_mods(VirtualKey::RCtrl), Some(CTRL));
    assert_eq!(keys_to_mods(VirtualKey::Return), None);
    assert_eq!(mods_to_keys(ALT), Some(vec![VirtualKey::LAlt]));
    assert_eq!(mods_to_keys(0x20), None);
    assert_eq!(VirtualKey::LShift.code(), 50);
    assert_eq!(VirtualKey::Escape.code(), 9);
}

#[test]
fn modifier_changes_become_key_events() {
    assert_eq!(modifier_key_events(0, SHIFT | CTRL, 8), vec![(50, true), (37, true)]);
    assert_eq!(modifier_key_events(SHIFT | CTRL, CTRL, 8), vec![(50, false)]);
    assert_eq!(modifier_key_events(0, META, 7), vec![]);
    assert_eq!(modifier_key_events(ALT, ALT, 8), vec![]);
}

#[test]
fn uinput_sends_evdev_codes_and_one_move_per_frame() {
    assert_eq!(evdev_code(50), 42);
    let mut u = UInputState::new();
    assert_eq!(u.set_modifiers(SHIFT), vec![(42, true)]);
    assert_eq!(u.set_modifiers(SHIFT), vec![]);
    assert_eq!(u.set_modifiers(0), vec![(42, false)]);
    assert!(u.mouse_move());
    assert!(!u.mouse_move());
    u.on_new_frame();
    assert!(u.mouse_move());
}

#[test]
fn click_windows() {
    assert_eq!(click_time_ms(0), 0);
    assert_eq!(click_time_ms(1), 500);
    assert_eq!(click_time_ms(2), 750);
}

#[test]
fn double_click_fires_once_per_hold() {
    let mut h: MultiClickHandler<1> = MultiClickHandler::new(10_000);
    assert!(!h.check(true, 20_000));
    assert!(!h.check(false, 20_100));
    assert!(h.check(true, 20_300));
    assert!(h.check(true, 20_400));
    assert!(!h.check(false, 20_500));
    assert!(!h.check(true, 20_600));
}

#[test]
fn slow_second_press_is_no_double_click() {
    let mut h: MultiClickHandler<1> = MultiClickHandler::new(10_000);
    assert!(!h.check(true, 20_000));
    assert!(!h.check(false, 20_100));
    assert!(!h.check(true, 20_600));
}

#[test]
fn single_click_handler_wins_first() {
    let mut c = CustomClickAction::new(10_000);
    assert!(c.state(true, false, false, 20_000));
    assert!(!c.state(false, false, false, 20_100));
    assert!(!c.state(false, true, false, 20_200));
}

#[test]
fn pointer_mode_follows_modifier_buttons() {
    let none: Vec<String> = Vec::new();
    let down = vec!["notify-send".to_string(), "down".to_string()];
    let before = PointerButtons::default();
    let mut now = PointerButtons::default();
    now.click_modifier_right = true;
    assert_eq!(post_update(now, before, &down, &none).mode, PointerMode::Right);
    let mut now = PointerButtons::default();
    now.click_modifier_middle = true;
    assert_eq!(post_update(now, before, &down, &none).mode, PointerMode::Middle);
    let mut now = PointerButtons::default();
    now.alt_click = true;
    now.click = true;
    let u = post_update(now, before, &down, &none);
    assert_eq!(u.mode, PointerMode::Left);
    assert!(u.clicked);
    assert_eq!(u.alt_command, Some(down.clone()));
    let u = post_update(before, now, &down, &none);
    assert_eq!(u.alt_command, None);
    assert_eq!(PointerMode::default(), PointerMode::Left);
}

#[test]
fn last_clicking_hand_interacts_last() {
    assert_eq!(interact_order(10, 20), (1, 0));
    assert_eq!(interact_order(20, 10), (0, 1));
    assert_eq!(interact_order(10, 10), (0, 1));
}

fn overlay(id: usize, name: &str) -> OverlayState {
    OverlayState {
        id: OverlayID(id),
        name: name.to_string(),
        want_visible: true,
        show_hide: false,
        grabbable: true,
        interactable: true,
        recenter: false,
        anchored: false,
        dirty: false,
        z_order: 0,
        relative_to: RelativeTo::Unanchored,
        primary_pointer: None,
    }
}

fn input(now: PointerButtons, before: PointerButtons) -> HandInput {
    HandInput { idx: 0, now, before, scrolling: false, other_hand_grabs_hit: false }
}

#[test]
fn click_on_overlay_presses_and_releases_it() {
    let mut overlays = OverlayContainer::new();
    overlays.add(overlay(3, "screen"));
    let mut st = InteractionState::new();
    let hit = PointerHit { pointer: 0, overlay: 3, mode: PointerMode::Left, primary: false };
    let idle = PointerButtons::default();
    let mut clicking = PointerButtons::default();
    clicking.click = true;
    let (ev, out) = interact_hand(&mut overlays, &mut st, &input(clicking, idle), Some(hit));
    let primary_hit = PointerHit { primary: true, ..hit };
    assert_eq!(
        ev,
        vec![HandEvent::Hover(primary_hit), HandEvent::Focus(3), HandEvent::Pointer(3, primary_hit, true)]
    );
    assert_eq!(out, HandOutcome::Hit { grab_started: false });
    assert_eq!(st.clicked_id, Some(3));
    assert_eq!(st.hovered_id, Some(3));
    assert_eq!(overlays.get_by_id(3).unwrap().primary_pointer, Some(0));
    let (ev, _) = interact_hand(&mut overlays, &mut st, &input(idle, clicking), None);
    assert_eq!(
        ev,
        vec![
            HandEvent::Left(3),
            HandEvent::Pointer(3, PointerHit { pointer: 0, overlay: 3, mode: PointerMode::Left, primary: false }, false)
        ]
    );
    assert_eq!(st.clicked_id, None);
    assert_eq!(st.hovered_id, None);
}

#[test]
fn grab_starts_moves_and_drops() {
    let mut overlays = OverlayContainer::new();
    overlays.add(overlay(1, "a"));
    let mut st = InteractionState::new();
    let hit = PointerHit { pointer: 0, overlay: 1, mode: PointerMode::Left, primary: false };
    let idle = PointerButtons::default();
    let mut grab = PointerButtons::default();
    grab.grab = true;
    let (ev, out) = interact_hand(&mut overlays, &mut st, &input(grab, idle), Some(hit));
    assert_eq!(ev, vec![HandEvent::Focus(1), HandEvent::StartGrab(1)]);
    assert_eq!(out, HandOutcome::Hit { grab_started: true });
    let (ev, out) = interact_hand(&mut overlays, &mut st, &input(grab, grab), None);
    assert_eq!(ev, vec![HandEvent::HandleGrabbed(1)]);
    assert_eq!(out, HandOutcome::Grabbing);
    let (ev, _) = interact_hand(&mut overlays, &mut st, &input(idle, grab), None);
    assert_eq!(ev, vec![HandEvent::Drop(1)]);
    assert!(st.grabbed.is_none());
}

#[test]
fn hit_on_missing_overlay_is_no_hit() {
    let mut overlays = OverlayContainer::new();
    let mut st = InteractionState::new();
    let hit = PointerHit { pointer: 0, overlay: 9, mode: PointerMode::Left, primary: false };
    let idle = PointerButtons::default();
    let (ev, out) = interact_hand(&mut overlays, &mut st, &input(idle, idle), Some(hit));
    assert!(ev.is_empty());
    assert_eq!(out, HandOutcome::NoHit);
}

#[test]
fn boolean_binding_paths() {
    assert!(is_bool("/user/hand/left/input/trigger/click"));
    assert!(is_bool("/user/hand/right/input/thumbstick/touch"));
    assert!(is_bool("/user/hand/left/input/trackpad/dpad_up"));
    assert!(!is_bool("/user/hand/left/input/trigger/value"));
    assert!(!is_bool("/user/hand/left/input/click/value"));
    assert!(is_bool("click"));
    assert!(!is_bool(""));
}

#[test]
fn a_fresh_action_counts_its_creation_as_earlier_presses() {
    let mut c = CustomClickAction::new(20_000);
    assert!(c.state(false, true, false, 20_300));
    let mut c = CustomClickAction::new(20_000);
    assert!(!c.state(false, true, false, 20_600));
    let mut c = CustomClickAction::new(20_000);
    assert!(c.state(false, false, true, 20_700));
}

#[test]
fn double_click_needs_a_quick_second_tap() {
    let mut h: MultiClickHandler<1> = MultiClickHandler::new(10_000);
    assert!(!h.check(true, 20_000));
    assert!(!h.check(true, 20_100));
    assert!(!h.check(false, 20_150));
    assert!(h.check(true, 20_300));
    assert!(h.check(true, 20_900));
    assert!(!h.check(false, 21_000));
    assert!(!h.check(true, 22_000));
    assert!(!h.check(false, 22_050));
    assert!(!h.check(true, 22_600));
}

#[test]
fn renderer_is_told_only_of_visibility_changes() {
    let mut o = OverlayState {
        id: OverlayID(1),
        name: "o".to_string(),
        want_visible: false,
        show_hide: false,
        grabbable: true,
        interactable: true,
        recenter: false,
        anchored: false,
        dirty: false,
        z_order: 0,
        relative_to: RelativeTo::Unanchored,
        primary_pointer: None,
    };
    assert_eq!(o.set_visible(true), Some(VisibilityChange::Resume));
    assert!(o.want_visible);
    assert_eq!(o.set_visible(true), None);
    assert_eq!(o.set_visible(false), Some(VisibilityChange::Pause));
    assert!(!o.want_visible);
}

#[test]
fn checks_that_do_not_fire_need_no_clock_offset() {
    let mut h: MultiClickHandler<1> = MultiClickHandler::new(0);
    assert!(!h.check(false, 100));
    assert!(!h.check(true, 900));
    assert!(!h.check(true, 950));
}
