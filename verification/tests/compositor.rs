use wlx_overlay_s::ipc::{DisplayHandle as PacketHandle, PacketClient, PacketServer};
use wlx_overlay_s::wayvr::{launch_env, respond};
use wlx_overlay_s::gen_vec::GenVec;
use wlx_overlay_s::wayvr::{
    display_get, display_list, find_by_pid, find_display_auth, get_display_by_name, get_mouse_index_number,
    get_primary_display, next_display_num, process_query, AttachError, DestroyDisplayError, Display, ExternalProcess,
    ManagedProcess, MouseIndex, Process, StateChange, TermSignal, TickAction, WaylandEnv, WayVRSignal, WayVRState, WayVRTask,
};

fn display(name: &str, primary: bool) -> Display {
    Display {
        width: 1280,
        height: 720,
        name: name.to_string(),
        primary,
        visible: true,
        wants_redraw: false,
        overlay_id: None,
        displayed_windows: Vec::new(),
        pending_cleanup: Vec::new(),
    }
}

fn managed(auth: &str, pid: u32, d: wlx_overlay_s::gen_vec::Handle, exec: &str, args: &[&str]) -> ManagedProcess {
    ManagedProcess {
        auth_key: auth.to_string(),
        pid,
        display_handle: d,
        exec_path: exec.to_string(),
        args: args.iter().map(|s| s.to_string()).collect(),
        env: Vec::new(),
    }
}

#[test]
fn wayland_socket_names() {
    assert_eq!(WaylandEnv { display_num: 20 }.display_num_string(), "wayland-20");
    assert_eq!(WaylandEnv { display_num: 7 }.display_num_string(), "wayland-7");
    assert_eq!(next_display_num(20), Some(21));
    assert_eq!(next_display_num(39), Some(40));
    assert_eq!(next_display_num(40), None);
}

#[test]
fn mouse_buttons_map_to_evdev_codes() {
    assert_eq!(get_mouse_index_number(MouseIndex::Left), 0x110);
    assert_eq!(get_mouse_index_number(MouseIndex::Center), 0x112);
    assert_eq!(get_mouse_index_number(MouseIndex::Right), 0x111);
}

#[test]
fn display_auth_is_read_from_environment() {
    let env = "HOME=/home/u\0WAYVR_DISPLAY_AUTH=abc123\0WAYVR_DISPLAY_AUTH=other\0";
    assert_eq!(find_display_auth(env), Some("abc123".to_string()));
    assert_eq!(find_display_auth("HOME=/home/u\0PATH=/bin\0"), None);
    assert_eq!(find_display_auth(""), None);
}

#[test]
fn displays_found_by_name_and_primary() {
    let mut displays: GenVec<Display> = GenVec::new();
    let a = displays.add(display("Left", false));
    let b = displays.add(display("Main", true));
    assert_eq!(get_display_by_name(&displays, "Main"), Some(b));
    assert_eq!(get_display_by_name(&displays, "Left"), Some(a));
    assert_eq!(get_display_by_name(&displays, "Nope"), None);
    assert_eq!(get_primary_display(&displays), Some(b));
    displays.remove(&b);
    assert_eq!(get_primary_display(&displays), None);
}

#[test]
fn display_list_describes_every_display() {
    let mut displays: GenVec<Display> = GenVec::new();
    let a = displays.add(display("One", false));
    let b = displays.add(display("Two", false));
    displays.remove(&a);
    let list = display_list(&displays);
    assert_eq!(list.len(), 1);
    assert_eq!(list[0].name, "Two");
    assert_eq!(list[0].width, 1280);
    assert_eq!(list[0].handle.idx, b.idx);
    assert_eq!(list[0].handle.generation, b.generation);
    assert!(display_get(&displays, a).is_none());
    assert_eq!(display_get(&displays, b).map(|d| d.height), Some(720));
}

#[test]
fn processes_found_by_pid_and_launch() {
    let mut displays: GenVec<Display> = GenVec::new();
    let d = displays.add(display("D", false));
    let mut processes: GenVec<Process> = GenVec::new();
    let p1 = processes.add(Process::Managed(managed("k1", 100, d, "/usr/bin/foot", &["-e", "htop"])));
    let p2 = processes.add(Process::External(ExternalProcess { pid: 200, display_handle: d }));
    assert_eq!(find_by_pid(&processes, 100), Some(p1));
    assert_eq!(find_by_pid(&processes, 200), Some(p2));
    assert_eq!(find_by_pid(&processes, 300), None);
    let args = vec!["-e".to_string(), "htop".to_string()];
    assert_eq!(process_query(&processes, d, "/usr/bin/foot", &args), Some(p1));
    let other_args = vec!["-e".to_string()];
    assert_eq!(process_query(&processes, d, "/usr/bin/foot", &other_args), None);
}

#[test]
fn added_display_is_announced() {
    let mut st = WayVRState::new();
    let d = st.add_display(display("D", false));
    assert!(st.displays.get(&d).is_some());
    assert_eq!(st.signals.read(), Some(WayVRSignal::BroadcastStateChanged(StateChange::DisplayCreated)));
    assert_eq!(st.signals.read(), None);
}

#[test]
fn destroy_display_refuses_busy_displays() {
    let mut st = WayVRState::new();
    let mut d0 = display("D", false);
    d0.overlay_id = Some(5);
    let d = st.add_display(d0);
    let _ = st.signals.read();
    let p = st.add_external_process(d, 42);
    match st.destroy_display(d, &[]) {
        Err(DestroyDisplayError::NotEmpty(ps)) => assert_eq!(ps, vec![p]),
        _ => panic!("a display with a process must not be destroyed"),
    }
    assert_eq!(st.tasks.read(), Some(WayVRTask::DropOverlay(5)));
    assert!(st.displays.get(&d).is_some());
}

#[test]
fn destroy_display_removes_empty_display() {
    let mut st = WayVRState::new();
    let d = st.add_display(display("D", false));
    let _ = st.signals.read();
    assert!(matches!(st.destroy_display(d, &[d]), Err(DestroyDisplayError::ClientStillExists)));
    assert!(st.destroy_display(d, &[]).is_ok());
    assert!(st.displays.get(&d).is_none());
    assert_eq!(st.signals.read(), Some(WayVRSignal::BroadcastStateChanged(StateChange::DisplayRemoved)));
    assert!(matches!(st.destroy_display(d, &[]), Err(DestroyDisplayError::NotFound)));
}

#[test]
fn toplevel_attaches_to_its_process_display() {
    let mut st = WayVRState::new();
    let d = st.add_display(display("D", false));
    let p = st.add_external_process(d, 77);
    assert_eq!(st.attach_toplevel(d, 78).err(), Some(AttachError::UnknownProcess));
    let w = st.attach_toplevel(d, 77).unwrap();
    let shown = &st.displays.get(&d).unwrap().displayed_windows;
    assert_eq!(shown.len(), 1);
    assert_eq!(shown[0].window_handle, w);
    assert_eq!(shown[0].process_handle, p);
    let list = st.display_window_list(d).unwrap();
    assert_eq!(list.len(), 1);
    assert_eq!(list[0].handle, w);
    assert!(list[0].visible);
    assert_eq!(st.set_window_visible(w, false), Some(d));
    assert!(!st.wm.windows.get(&w).unwrap().visible);
    assert!(st.displays.get(&d).unwrap().wants_redraw);
}

#[test]
fn reaped_process_leaves_its_display() {
    let mut st = WayVRState::new();
    let d = st.add_display(display("D", false));
    let p = st.add_external_process(d, 77);
    let _w = st.attach_toplevel(d, 77).unwrap();
    while st.signals.read().is_some() {}
    st.reap_processes(&[(p, d)]);
    assert!(st.processes.get(&p).is_none());
    let shown = st.displays.get(&d).unwrap();
    assert_eq!(shown.pending_cleanup, vec![p]);
    assert!(shown.wants_redraw);
    assert_eq!(st.signals.read(), Some(WayVRSignal::BroadcastStateChanged(StateChange::ProcessRemoved)));
}

#[test]
fn termination_signals_by_process_kind() {
    let mut st = WayVRState::new();
    let d = st.add_display(display("D", false));
    let m = st.add_managed_process(managed("k", 10, d, "app", &[]));
    let e = st.add_external_process(d, 20);
    assert_eq!(st.terminate_request(m), Some((10, TermSignal::Term)));
    assert_eq!(st.terminate_request(e), Some((20, TermSignal::Interrupt)));
    assert_eq!(st.terminate_request(e), None);
    st.terminate_process(m);
    assert_eq!(st.tasks.read(), Some(WayVRTask::ProcessTerminationRequest(m)));
}

#[test]
fn cleanup_runs_every_200_ticks() {
    let mut st = WayVRState::new();
    assert!(st.tick());
    for _ in 1..200 {
        assert!(!st.tick());
    }
    assert!(st.tick());
}

#[test]
fn compositor_modifiers_send_key_codes() {
    let mut st = WayVRState::new();
    assert_eq!(st.set_modifiers(0x01), vec![(50, true)]);
    assert_eq!(st.set_modifiers(0x01), vec![]);
    assert_eq!(st.set_modifiers(0x80), vec![(50, false), (108, true)]);
}

#[test]
fn dashboard_display_must_exist() {
    let mut st = WayVRState::new();
    let d = st.add_display(display("Dash", false));
    st.dashboard_display = Some(d);
    assert_eq!(st.live_dashboard_display(), Some(d));
    assert!(st.destroy_display(d, &[]).is_ok());
    assert_eq!(st.live_dashboard_display(), None);
}

#[test]
fn visibility_requests_are_signalled() {
    let mut st = WayVRState::new();
    let d = st.add_display(display("D", false));
    let _ = st.signals.read();
    st.request_display_visibility(d, false);
    assert_eq!(st.signals.read(), Some(WayVRSignal::DisplayVisibility(d, false)));
}

#[test]
fn ipc_requests_are_answered_from_the_displays() {
    let mut displays: GenVec<Display> = GenVec::new();
    let a = displays.add(display("One", false));
    match respond(&displays, &PacketClient::ListDisplays(7)) {
        PacketServer::ListDisplaysResponse(serial, list) => {
            assert_eq!(serial, 7);
            assert_eq!(list.list.len(), 1);
            assert_eq!(list.list[0].name, "One");
        }
        _ => panic!("wrong answer"),
    }
    let h = PacketHandle { idx: a.idx, generation: a.generation };
    match respond(&displays, &PacketClient::GetDisplay(8, h)) {
        PacketServer::GetDisplayResponse(serial, Some(d)) => {
            assert_eq!(serial, 8);
            assert_eq!(d.name, "One");
        }
        _ => panic!("wrong answer"),
    }
    let gone = PacketHandle { idx: a.idx, generation: a.generation + 1 };
    assert!(matches!(respond(&displays, &PacketClient::GetDisplay(9, gone)), PacketServer::GetDisplayResponse(9, None)));
}

#[test]
fn launches_get_socket_and_auth_key() {
    let env = vec![("FOO".to_string(), "bar".to_string())];
    let plan = launch_env(&WaylandEnv { display_num: 21 }, &env);
    assert_eq!(plan.auth_key.len(), 36);
    assert_eq!(&plan.auth_key[14..15], "4");
    assert_eq!(plan.vars[0], ("WAYLAND_DISPLAY".to_string(), "wayland-21".to_string()));
    assert_eq!(plan.vars[1], ("WAYVR_DISPLAY_AUTH".to_string(), plan.auth_key.clone()));
    assert_eq!(plan.vars[2], ("FOO".to_string(), "bar".to_string()));
    let other = launch_env(&WaylandEnv { display_num: 21 }, &env);
    assert_ne!(plan.auth_key, other.auth_key);
}

#[test]
fn queued_tasks_are_carried_out_in_order() {
    let mut st = WayVRState::new();
    let d = st.add_display(display("D", false));
    let m = st.add_managed_process(managed("k", 10, d, "app", &[]));
    let e = st.add_external_process(d, 20);
    st.tasks.send(WayVRTask::DropOverlay(7));
    st.terminate_process(e);
    st.terminate_process(m);
    st.terminate_process(e);
    let actions = st.take_tasks();
    assert_eq!(
        actions,
        vec![TickAction::DropOverlay(7), TickAction::Signal(20, TermSignal::Interrupt), TickAction::Signal(10, TermSignal::Term)]
    );
    assert_eq!(st.tasks.read(), None);
    assert!(st.take_tasks().is_empty());
}

#[test]
fn one_tick_reaps_runs_tasks_and_counts() {
    let mut st = WayVRState::new();
    let d = st.add_display(display("D", false));
    let ended = st.add_external_process(d, 77);
    let other = st.add_external_process(d, 78);
    while st.signals.read().is_some() {}
    st.tasks.send(WayVRTask::DropOverlay(3));
    st.terminate_process(ended);
    st.terminate_process(other);
    let (actions, cleanup) = st.tick_events(&[(ended, d)]);
    assert!(cleanup);
    assert_eq!(actions, vec![TickAction::DropOverlay(3), TickAction::Signal(78, TermSignal::Interrupt)]);
    assert!(st.processes.get(&ended).is_none());
    assert_eq!(st.displays.get(&d).unwrap().pending_cleanup, vec![ended]);
    assert_eq!(st.signals.read(), Some(WayVRSignal::BroadcastStateChanged(StateChange::ProcessRemoved)));
    let (actions, cleanup) = st.tick_events(&[]);
    assert!(actions.is_empty());
    assert!(!cleanup);
    assert_eq!(st.signals.read(), None);
}
