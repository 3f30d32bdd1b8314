use wlx_overlay_s::screens::{OutputChange, OutputStep, OutputUpdate};
use wlx_overlay_s::overlay::{OverlayContainer, OverlayID, OverlaySelector, OverlayState, RelativeTo, ResetRequest};

fn overlay(id: usize, name: &str) -> OverlayState {
    OverlayState {
        id: OverlayID(id),
        name: name.to_string(),
        want_visible: false,
        show_hide: false,
        grabbable: true,
        interactable: true,
        recenter: false,
        anchored: false,
        dirty: false,
        z_order: 0,
        relative_to: RelativeTo::Unanchored,
        primary_pointer: None,
    }
}

fn names(c: &OverlayContainer) -> Vec<String> {
    c.ids().into_iter().map(|id| c.get_by_id(id).unwrap().name.clone()).collect()
}

#[test]
fn overlays_keep_insertion_order_and_replace_in_place() {
    let mut c = OverlayContainer::new();
    c.add(overlay(5, "a"));
    c.add(overlay(1, "b"));
    c.add(overlay(9, "c"));
    assert_eq!(c.ids(), vec![5, 1, 9]);
    c.add(overlay(1, "b2"));
    assert_eq!(names(&c), vec!["a", "b2", "c"]);
    assert_eq!(c.get_by_id(9).unwrap().name, "c");
    assert!(c.get_by_id(2).is_none());
}

#[test]
fn removal_moves_last_overlay_into_the_gap() {
    let mut c = OverlayContainer::new();
    c.add(overlay(1, "a"));
    c.add(overlay(2, "b"));
    c.add(overlay(3, "c"));
    c.add(overlay(4, "d"));
    let removed = c.remove_by_selector(&OverlaySelector::Id(2)).unwrap();
    assert_eq!(removed.name, "b");
    assert_eq!(c.ids(), vec![1, 4, 3]);
    let removed = c.remove_by_selector(&OverlaySelector::Name("c".to_string())).unwrap();
    assert_eq!(removed.id, OverlayID(3));
    assert_eq!(c.ids(), vec![1, 4]);
    assert!(c.remove_by_selector(&OverlaySelector::Name("zz".to_string())).is_none());
    assert!(c.remove_by_selector(&OverlaySelector::Id(77)).is_none());
}

#[test]
fn names_resolve_to_the_first_in_map_order() {
    let mut c = OverlayContainer::new();
    c.add(overlay(8, "same"));
    c.add(overlay(3, "same"));
    assert_eq!(c.get_by_name("same").unwrap().id, OverlayID(8));
    assert_eq!(c.find_id(&OverlaySelector::Name("same".to_string())), Some(8));
    assert_eq!(c.find_id(&OverlaySelector::Id(3)), Some(3));
    assert!(c.get_by_name("other").is_none());
    if let Some(o) = c.mut_by_selector(&OverlaySelector::Name("same".to_string())) {
        o.z_order = 4;
    }
    assert_eq!(c.get_by_id(8).unwrap().z_order, 4);
    assert_eq!(c.get_by_id(3).unwrap().z_order, 0);
}

#[test]
fn primary_pointer_is_set_on_one_overlay() {
    let mut c = OverlayContainer::new();
    c.add(overlay(1, "a"));
    c.add(overlay(2, "b"));
    c.set_primary_pointer(2, Some(1));
    assert_eq!(c.get_by_id(2).unwrap().primary_pointer, Some(1));
    assert_eq!(c.get_by_id(1).unwrap().primary_pointer, None);
}

#[test]
fn show_hide_toggles_the_set_and_back() {
    let mut c = OverlayContainer::new();
    let mut screen = overlay(1, "screen");
    screen.show_hide = true;
    screen.recenter = true;
    c.add(screen);
    c.add(overlay(2, "watch"));
    c.add(overlay(3, "other"));
    let (was_shown, resets) = c.show_hide(true, "watch");
    assert!(!was_shown);
    assert!(c.get_by_id(1).unwrap().want_visible);
    assert!(!c.get_by_id(3).unwrap().want_visible);
    assert_eq!(
        resets,
        vec![ResetRequest { id: OverlayID(1), hard: false }, ResetRequest { id: OverlayID(2), hard: true }]
    );
    let (was_shown, resets) = c.show_hide(true, "watch");
    assert!(was_shown);
    assert!(!c.get_by_id(1).unwrap().want_visible);
    assert!(resets.is_empty());
}

#[test]
fn overlays_change_in_place_by_id_and_by_name() {
    let mut c = OverlayContainer::new();
    c.add(overlay(4, "panel"));
    c.add(overlay(6, "panel"));
    c.mut_by_id(6).unwrap().z_order = 7;
    assert_eq!(c.get_by_id(6).unwrap().z_order, 7);
    assert_eq!(c.get_by_id(4).unwrap().z_order, 0);
    assert!(c.mut_by_id(5).is_none());
    c.mut_by_name("panel").unwrap().want_visible = true;
    assert!(c.get_by_id(4).unwrap().want_visible);
    assert!(!c.get_by_id(6).unwrap().want_visible);
    assert!(c.mut_by_name("nothing").is_none());
    assert_eq!(c.ids(), vec![4, 6]);
}

fn screen(id: usize, name: &str, handle: u32) -> (wlx_overlay_s::overlay::ScreenMeta, OverlayState) {
    (
        wlx_overlay_s::overlay::ScreenMeta { name: name.to_string(), id: OverlayID(id), native_handle: handle },
        overlay(id, name),
    )
}

#[test]
fn start_marks_the_first_screen_when_none_is_configured() {
    let screens = vec![screen(1, "DP-1", 10), screen(2, "DP-2", 11)];
    let (c, metas) = OverlayContainer::from_created(screens, &vec![], overlay(3, "anchor"), overlay(4, "watch"), overlay(5, "kbd"));
    assert_eq!(c.ids(), vec![1, 2, 3, 4, 5]);
    assert!(c.get_by_id(1).unwrap().show_hide);
    assert!(!c.get_by_id(2).unwrap().show_hide);
    assert!(c.get_by_id(4).unwrap().want_visible);
    assert!(c.get_by_id(5).unwrap().show_hide);
    assert!(!c.get_by_id(5).unwrap().want_visible);
    assert!(!c.get_by_id(3).unwrap().show_hide);
    let names: Vec<String> = metas.iter().map(|m| m.name.clone()).collect();
    assert_eq!(names, vec!["DP-1", "DP-2"]);
}

#[test]
fn start_marks_the_configured_screens() {
    let screens = vec![screen(1, "DP-1", 10), screen(2, "DP-2", 11), screen(3, "HDMI-A-1", 12)];
    let show = vec!["HDMI-A-1".to_string(), "DP-2".to_string()];
    let (c, _) = OverlayContainer::from_created(screens, &show, overlay(4, "anchor"), overlay(5, "watch"), overlay(6, "kbd"));
    assert!(!c.get_by_id(1).unwrap().show_hide);
    assert!(c.get_by_id(2).unwrap().show_hide);
    assert!(c.get_by_id(3).unwrap().show_hide);
}

#[test]
fn output_changes_follow_the_desktop() {
    let (mut c, mut metas) = OverlayContainer::from_created(
        vec![screen(1, "DP-1", 10), screen(2, "DP-2", 11)],
        &vec![],
        overlay(3, "anchor"),
        overlay(4, "watch"),
        overlay(5, "kbd"),
    );
    let mut u = OutputUpdate::new();
    assert!(matches!(c.on_output_change(&mut metas, &mut u, OutputChange::Logical(11)), OutputStep::Reconfigure(OverlayID(2))));
    assert_eq!(u.finish(), (true, false));
    assert!(matches!(c.on_output_change(&mut metas, &mut u, OutputChange::Physical(99)), OutputStep::Skip));
    match c.on_output_change(&mut metas, &mut u, OutputChange::Destroy(10)) {
        OutputStep::Removed(o) => assert_eq!(o.id, OverlayID(1)),
        _ => panic!("screen overlay not removed"),
    }
    assert_eq!(c.ids(), vec![5, 2, 3, 4]);
    assert_eq!(metas.len(), 1);
    assert_eq!(metas[0].native_handle, 11);
    assert!(matches!(c.on_output_change(&mut metas, &mut u, OutputChange::Create), OutputStep::CreateScreens));
    assert!(matches!(c.on_output_change(&mut metas, &mut u, OutputChange::Create), OutputStep::Skip));
    c.add_screens(&mut metas, &mut u, vec![screen(6, "DP-3", 12)]);
    assert_eq!(c.ids(), vec![5, 2, 3, 4, 6]);
    assert_eq!(metas.len(), 2);
    assert_eq!(u.finish(), (false, true));
}
