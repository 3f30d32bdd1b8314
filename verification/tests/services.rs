use wlx_overlay_s::backend::{
    args_get_openvr, args_get_openxr, auto_run, parse_pid, single_instance_action, Args, AutoRunStep, BackendError,
    BackendKind, InstanceAction,
};
use wlx_overlay_s::graphics::{select_dmabuf_modifiers, ModifierError, SwapchainOpts, DMABUF_FOURCC};
use wlx_overlay_s::notifications::{notification_title, toasts_to_submit, xso_toast_text};
use wlx_overlay_s::osc::{battery_addresses, overlay_params, OscSchedule};
use wlx_overlay_s::overlay::{add_dummy_screens, OverlayContainer, OverlayID, OverlayState, RelativeTo, ScreenMeta};
use wlx_overlay_s::pointer::TrackedDeviceRole;
use wlx_overlay_s::server_ipc::{
    decode_packet_size, encode_packet, gen_args_vec, gen_env_vec, process_handshake, read_check, split_once_eq,
    AuthInfo, ClientHandshake, HandshakeError, KillReason, PacketReader, ReaderAction, ReaderEvent,
};
use wlx_overlay_s::ipc::{CONNECTION_MAGIC, PROTOCOL_VERSION};

fn args(openvr: bool, openxr: bool) -> Args {
    Args { openvr, openxr, show: false, uninstall: false, replace: false, multi: false, log_to: None, uidev: None }
}

#[test]
fn backends_are_tried_in_order() {
    let a = args(false, false);
    assert!(!args_get_openvr(&a) && !args_get_openxr(&a));
    assert_eq!(auto_run(&a, None), AutoRunStep::Run(BackendKind::OpenXr));
    let not_supported = Err(BackendError::NotSupported);
    assert_eq!(auto_run(&a, Some((BackendKind::OpenXr, &not_supported))), AutoRunStep::Run(BackendKind::OpenVr));
    assert_eq!(auto_run(&a, Some((BackendKind::OpenVr, &not_supported))), AutoRunStep::Exhausted);
    assert_eq!(auto_run(&a, Some((BackendKind::OpenXr, &Ok(())))), AutoRunStep::Finished);
    let fatal = Err(BackendError::Fatal("boom".to_string()));
    assert_eq!(auto_run(&a, Some((BackendKind::OpenXr, &fatal))), AutoRunStep::Failed);
}

#[test]
fn forced_backends() {
    assert_eq!(auto_run(&args(true, false), None), AutoRunStep::Run(BackendKind::OpenVr));
    let xr_only = args(false, true);
    assert_eq!(auto_run(&xr_only, None), AutoRunStep::Run(BackendKind::OpenXr));
    let not_supported = Err(BackendError::NotSupported);
    assert_eq!(auto_run(&xr_only, Some((BackendKind::OpenXr, &not_supported))), AutoRunStep::Exhausted);
    assert_eq!(auto_run(&args(true, true), None), AutoRunStep::Exhausted);
}

#[test]
fn pid_files() {
    assert_eq!(parse_pid("1234\n"), Some(1234));
    assert_eq!(parse_pid("  +42  "), Some(42));
    assert_eq!(parse_pid("4294967295"), Some(u32::MAX));
    assert_eq!(parse_pid("4294967296"), None);
    assert_eq!(parse_pid(""), None);
    assert_eq!(parse_pid("+"), None);
    assert_eq!(parse_pid("12 34"), None);
    assert_eq!(parse_pid("-1"), None);
    assert_eq!(single_instance_action(None, false), InstanceAction::Proceed);
    assert_eq!(single_instance_action(Some(7), false), InstanceAction::AlreadyRunning);
    assert_eq!(single_instance_action(Some(7), true), InstanceAction::Replace(7));
}

#[test]
fn swapchain_options() {
    assert!(!SwapchainOpts::new().immutable);
    assert!(SwapchainOpts::new().immutable().immutable);
}

#[test]
fn dmabuf_modifier_choice() {
    assert_eq!(select_dmabuf_modifiers(vec![]).err(), Some(ModifierError::NoModifiers));
    assert_eq!(select_dmabuf_modifiers(vec![u64::MAX, 1]).err(), Some(ModifierError::InvalidModifier));
    let all = select_dmabuf_modifiers(vec![1, 2]).unwrap();
    assert_eq!(all.modifiers, vec![1, 2]);
    assert_eq!(all.fourcc, DMABUF_FOURCC);
    assert_eq!(all.fourcc, 0x34324258);
    let navi = select_dmabuf_modifiers(vec![1, 0x20000001866bf04, 0x20000002086bf04]).unwrap();
    assert_eq!(navi.modifiers, vec![0x20000002086bf04, 0]);
    let navi33 = select_dmabuf_modifiers(vec![0x20000001866bf04]).unwrap();
    assert_eq!(navi33.modifiers, vec![0x20000001866bf04, 0]);
}

#[test]
fn notification_texts() {
    assert_eq!(notification_title("App".to_string(), "".to_string()), "App");
    assert_eq!(notification_title("App".to_string(), "Hello".to_string()), "Hello");
    assert_eq!(xso_toast_text(2, "t".to_string(), None), None);
    assert_eq!(xso_toast_text(1, "t".to_string(), None), Some(("t".to_string(), "".to_string())));
    assert_eq!(xso_toast_text(1, "t".to_string(), Some("c".to_string())), Some(("t".to_string(), "c".to_string())));
    assert_eq!(toasts_to_submit(true, vec![1, 2]), vec![1, 2]);
    assert!(toasts_to_submit(false, vec![1, 2]).is_empty());
}

fn overlay(id: usize, name: &str, visible: bool, interactable: bool) -> OverlayState {
    OverlayState {
        id: OverlayID(id),
        name: name.to_string(),
        want_visible: visible,
        show_hide: false,
        grabbable: true,
        interactable,
        recenter: false,
        anchored: false,
        dirty: false,
        z_order: 0,
        relative_to: RelativeTo::Unanchored,
        primary_pointer: None,
    }
}

#[test]
fn osc_overlay_parameters() {
    let mut overlays = OverlayContainer::new();
    overlays.add(overlay(0, "watch", true, true));
    overlays.add(overlay(1, "kbd", false, true));
    overlays.add(overlay(2, "DP-1", true, true));
    overlays.add(overlay(3, "DP-2", true, false));
    overlays.add(overlay(4, "DP-3", false, true));
    let p = overlay_params(&overlays, "watch", "kbd");
    assert_eq!(p.open_overlay_count, 1);
    assert!(!p.keyboard_open);
    assert!(p.wrist_visible);
    let mut only_keyboard = OverlayContainer::new();
    only_keyboard.add(overlay(7, "kbd", true, true));
    let p = overlay_params(&only_keyboard, "watch", "kbd");
    assert!(p.keyboard_open);
    assert_eq!(p.open_overlay_count, 0);
}

#[test]
fn osc_schedule() {
    let mut s = OscSchedule::new(1000);
    assert_eq!(s.due(1050), (false, false));
    assert_eq!(s.due(1100), (true, false));
    assert_eq!(s.due(1150), (false, false));
    assert_eq!(s.due(11_000), (true, true));
    assert_eq!(s.last_sent_battery, 11_000);
    assert_eq!(s.due(500), (false, false));
}

#[test]
fn osc_battery_addresses() {
    let roles = vec![
        TrackedDeviceRole::Hmd,
        TrackedDeviceRole::Unassigned,
        TrackedDeviceRole::Tracker,
        TrackedDeviceRole::LeftHand,
        TrackedDeviceRole::Tracker,
    ];
    let a = battery_addresses(&roles);
    assert_eq!(a.len(), 5);
    assert_eq!(a[0].as_ref().unwrap().battery, "/avatar/parameters/headsetBattery");
    assert!(a[1].is_none());
    assert_eq!(a[2].as_ref().unwrap().battery, "/avatar/parameters/tracker1Battery");
    assert_eq!(a[3].as_ref().unwrap().charging, "/avatar/parameters/leftControllerCharging");
    assert_eq!(a[4].as_ref().unwrap().charging, "/avatar/parameters/tracker2Charging");
}

#[test]
fn dummy_screens_are_added() {
    let mut screens: Vec<ScreenMeta> = Vec::new();
    add_dummy_screens(&mut screens);
    let names: Vec<&str> = screens.iter().map(|s| s.name.as_str()).collect();
    assert_eq!(names, vec!["HDMI-A-1", "DP-2", "DP-3"]);
    assert!(screens.iter().all(|s| s.id == OverlayID(0) && s.native_handle == 0));
}

#[test]
fn packets_are_framed_with_big_endian_size() {
    assert_eq!(encode_packet(&[7, 8, 9]), vec![0, 0, 0, 3, 7, 8, 9]);
    assert_eq!(encode_packet(&[]), vec![0, 0, 0, 0]);
    assert_eq!(decode_packet_size(&[0, 0, 1, 2]), 258);
    let framed = encode_packet(&vec![1u8; 300]);
    assert_eq!(decode_packet_size(&[framed[0], framed[1], framed[2], framed[3]]), 300);
    assert!(read_check(4, Some(4)));
    assert!(!read_check(4, Some(3)));
    assert!(!read_check(0, Some(0)));
    assert!(!read_check(4, None));
}

#[test]
fn handshakes() {
    let good = ClientHandshake { protocol_version: PROTOCOL_VERSION, magic: CONNECTION_MAGIC, client_name: "dash".to_string() };
    let info = process_handshake(&None, &good).ok().unwrap();
    assert_eq!(info.client_name, "dash");
    let authed = Some(AuthInfo { client_name: "x".to_string(), protocol_version: 1 });
    assert_eq!(process_handshake(&authed, &good).err(), Some(HandshakeError::AlreadyAuthenticated));
    let old = ClientHandshake { protocol_version: 9, magic: CONNECTION_MAGIC, client_name: "a".to_string() };
    assert_eq!(process_handshake(&None, &old).err(), Some(HandshakeError::UnsupportedProtocolVersion(9)));
    let bad_magic = ClientHandshake { protocol_version: PROTOCOL_VERSION, magic: 1, client_name: "a".to_string() };
    assert_eq!(process_handshake(&None, &bad_magic).err(), Some(HandshakeError::InvalidMagic));
    let empty = ClientHandshake { protocol_version: PROTOCOL_VERSION, magic: CONNECTION_MAGIC, client_name: String::new() };
    assert_eq!(process_handshake(&None, &empty).err(), Some(HandshakeError::ClientNameEmpty));
    let long = ClientHandshake { protocol_version: PROTOCOL_VERSION, magic: CONNECTION_MAGIC, client_name: "n".repeat(32) };
    assert_eq!(process_handshake(&None, &long).err(), Some(HandshakeError::ClientNameTooLong));
    let just_fits = ClientHandshake { protocol_version: PROTOCOL_VERSION, magic: CONNECTION_MAGIC, client_name: "n".repeat(31) };
    assert!(process_handshake(&None, &just_fits).is_ok());
}

#[test]
fn reader_reads_header_then_payload() {
    let mut r = PacketReader::new();
    assert_eq!(r.step(ReaderEvent::Start), ReaderAction::ReadHeader);
    assert_eq!(r.step(ReaderEvent::HeaderRead(Some([0, 0, 0, 5]))), ReaderAction::ReadPayload(5));
    assert_eq!(r.step(ReaderEvent::PayloadRead(true)), ReaderAction::ProcessPayload);
    assert_eq!(r.step(ReaderEvent::Processed(true)), ReaderAction::Finish(true));
    assert!(r.alive);
}

#[test]
fn reader_retries_unfinished_payload() {
    let mut r = PacketReader::new();
    r.step(ReaderEvent::Start);
    r.step(ReaderEvent::HeaderRead(Some([0, 0, 0, 9])));
    assert_eq!(r.step(ReaderEvent::PayloadRead(false)), ReaderAction::Finish(false));
    assert_eq!(r.step(ReaderEvent::Start), ReaderAction::ReadPayload(9));
    assert_eq!(r.step(ReaderEvent::PayloadRead(true)), ReaderAction::ProcessPayload);
    assert_eq!(r.step(ReaderEvent::Processed(true)), ReaderAction::ReadHeader);
}

#[test]
fn reader_kills_oversized_and_invalid_packets() {
    let mut r = PacketReader::new();
    r.step(ReaderEvent::Start);
    assert_eq!(r.step(ReaderEvent::HeaderRead(Some([0, 2, 0, 1]))), ReaderAction::Kill(KillReason::PacketTooBig));
    assert!(!r.alive);
    let mut r = PacketReader::new();
    r.step(ReaderEvent::Start);
    assert_eq!(r.step(ReaderEvent::HeaderRead(Some([0, 2, 0, 0]))), ReaderAction::ReadPayload(131072));
    r.step(ReaderEvent::PayloadRead(true));
    assert_eq!(r.step(ReaderEvent::Processed(false)), ReaderAction::Kill(KillReason::InvalidPayload));
    let mut r = PacketReader::new();
    r.step(ReaderEvent::Start);
    assert_eq!(r.step(ReaderEvent::HeaderRead(None)), ReaderAction::Finish(false));
}

#[test]
fn launch_arguments_and_environment() {
    assert_eq!(gen_args_vec("  -e  htop\t--x "), vec!["-e", "htop", "--x"]);
    assert!(gen_args_vec("   ").is_empty());
    assert_eq!(split_once_eq("A=b=c"), Some(("A".to_string(), "b=c".to_string())));
    assert_eq!(split_once_eq("AB"), None);
    let env = vec!["A=1".to_string(), "junk".to_string(), "B=".to_string()];
    assert_eq!(gen_env_vec(&env), vec![("A".to_string(), "1".to_string()), ("B".to_string(), "".to_string())]);
}
