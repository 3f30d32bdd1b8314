use std::collections::VecDeque;

use wlx_overlay_s::config::{
    config_file_name, def_auto, def_autohide_delay, def_blit_method, def_click_freeze_time_ms, def_false,
    def_keyboard_repeat_delay, def_keyboard_repeat_rate, def_left, def_osc_port, def_pw_tokens, def_screens, def_true,
    AppClick, AttachTo, ConfigError, ConfigRoot, ConfigType, LeftRight, Positioning, WayVRAppEntry, WayVRCatalog,
    WayVRConfig, WayVRDisplay,
};
use wlx_overlay_s::config_io::{
    config_file_path_under, config_root_from, ConfigPaths, config_sources, get_config_file_path, get_config_root, join_path,
    sort_names,
};
use wlx_overlay_s::tasks::TaskContainer;

#[test]
fn defaults() {
    assert_eq!(def_left(), LeftRight::Left);
    assert!(def_pw_tokens().is_empty());
    assert_eq!(def_click_freeze_time_ms(), 300);
    assert!(def_true());
    assert!(!def_false());
    assert_eq!(def_osc_port(), 9000);
    assert!(def_screens().is_empty());
    assert_eq!(def_auto(), "auto");
    assert_eq!(def_autohide_delay(), 750);
    assert_eq!(def_keyboard_repeat_delay(), 200);
    assert_eq!(def_keyboard_repeat_rate(), 50);
    assert_eq!(def_blit_method(), "dmabuf");
}

#[test]
fn config_file_names() {
    assert_eq!(config_file_name(ConfigType::Keyboard), "keyboard.yaml");
    assert_eq!(config_file_name(ConfigType::Watch), "watch.yaml");
    assert_eq!(config_file_name(ConfigType::Settings), "settings.yaml");
    assert_eq!(ConfigRoot::Generic.conf_d_name(), "conf.d");
    assert_eq!(ConfigRoot::WayVR.conf_d_name(), "wayvr.conf.d");
}

#[test]
fn attachments_map_to_positioning() {
    assert_eq!(AttachTo::Unattached.get_positioning(), Positioning::Floating);
    assert_eq!(AttachTo::HandLeft.get_positioning(), Positioning::FollowHand { hand: 0 });
    assert_eq!(AttachTo::HandRight.get_positioning(), Positioning::FollowHand { hand: 1 });
    assert_eq!(AttachTo::Stage.get_positioning(), Positioning::Static);
    assert_eq!(AttachTo::Head.get_positioning(), Positioning::FollowHead);
}

#[test]
fn paths_join_like_pathbuf_push() {
    assert_eq!(join_path("/home/u/.config", "wlxoverlay"), "/home/u/.config/wlxoverlay");
    assert_eq!(join_path("/home/u/.config/", "wlxoverlay"), "/home/u/.config/wlxoverlay");
    assert_eq!(join_path("/home/u", "/etc/x"), "/etc/x");
    assert_eq!(join_path("", "a"), "a");
    assert_eq!(config_root_from(Some("/home/u/.config".to_string())), "/home/u/.config/wlxoverlay");
    assert_eq!(config_root_from(None), "/tmp/wlxoverlay");
    assert_eq!(config_file_path_under("/r", "watch.yaml"), "/r/watch.yaml");
    assert_eq!(ConfigRoot::WayVR.conf_d_path_under("/r"), "/r/wayvr.conf.d");
}

#[test]
fn config_root_ends_in_wlxoverlay() {
    let paths = ConfigPaths::new();
    let root = get_config_root(&paths);
    assert!(root.ends_with("wlxoverlay"));
    assert_eq!(get_config_root(&paths), root);
    assert_eq!(get_config_file_path(&paths, "x.yaml"), format!("{root}/x.yaml"));
    assert_eq!(ConfigRoot::Generic.get_conf_d_path(&paths), format!("{root}/conf.d"));
}

#[test]
fn paths_follow_the_root_they_were_given() {
    let paths = ConfigPaths::with_root("/etc/wlx/");
    assert_eq!(get_config_root(&paths), "/etc/wlx/");
    assert_eq!(get_config_file_path(&paths, "wayvr.yaml"), "/etc/wlx/wayvr.yaml");
    assert_eq!(ConfigRoot::WayVR.get_conf_d_path(&paths), "/etc/wlx/wayvr.conf.d");
}

#[test]
fn drop_in_files_are_merged_alphabetically() {
    let names = vec!["b.yaml".to_string(), "a.yaml".to_string(), "Z.yaml".to_string(), "config.yaml".to_string()];
    assert_eq!(sort_names(names.clone()), vec!["Z.yaml", "a.yaml", "b.yaml", "config.yaml"]);
    let sources = config_sources("/r", "/r/conf.d", true, false, names);
    assert_eq!(
        sources,
        vec!["/r/config.yaml", "/r/conf.d/Z.yaml", "/r/conf.d/a.yaml", "/r/conf.d/b.yaml", "/r/conf.d/config.yaml"]
    );
    assert_eq!(config_sources("/r", "/r/conf.d", false, true, vec![]), vec!["/r/conf.d/config.yaml"]);
}

fn app(name: &str, shown: Option<bool>) -> WayVRAppEntry {
    WayVRAppEntry {
        name: name.to_string(),
        target_display: "Main".to_string(),
        exec_path: "/usr/bin/true".to_string(),
        args: None,
        env: None,
        shown_at_start: shown,
    }
}

fn wayvr_config(primaries: &[bool]) -> WayVRConfig {
    WayVRConfig {
        run_compositor_at_start: true,
        catalogs: vec![(
            "default".to_string(),
            WayVRCatalog { apps: vec![app("term", Some(true)), app("edit", None), app("web", Some(true))] },
        )],
        displays: primaries
            .iter()
            .enumerate()
            .map(|(i, p)| {
                (format!("d{i}"), WayVRDisplay { width: 640, height: 480, attach_to: None, primary: Some(*p) })
            })
            .collect(),
        dashboard: None,
        auto_hide: true,
        auto_hide_delay: 750,
        keyboard_repeat_delay: 200,
        keyboard_repeat_rate: 50,
        blit_method: "dmabuf".to_string(),
    }
}

#[test]
fn catalog_and_display_lookup() {
    let c = wayvr_config(&[false, true, true]);
    assert_eq!(c.get_catalog("default").and_then(|cat| cat.get_app("edit")).map(|a| a.name.clone()), Some("edit".to_string()));
    assert!(c.get_catalog("other").is_none());
    assert_eq!(c.get_display("d0").map(|d| d.width), Some(640));
    assert!(c.get_display("d9").is_none());
    assert_eq!(c.get_default_display().map(|(n, _)| n), Some("d1".to_string()));
    assert!(wayvr_config(&[false]).get_default_display().is_none());
}

#[test]
fn compositor_settings() {
    let c = wayvr_config(&[]);
    let s = WayVRConfig::get_wayvr_config(300, &c);
    assert_eq!(s.click_freeze_time_ms, 300);
    assert_eq!(s.auto_hide_delay, Some(750));
    assert_eq!(s.keyboard_repeat_delay_ms, 200);
    assert_eq!(s.keyboard_repeat_rate, 50);
    let mut c2 = wayvr_config(&[]);
    c2.auto_hide = false;
    assert_eq!(WayVRConfig::get_wayvr_config(1, &c2).auto_hide_delay, None);
}

#[test]
fn post_load_queues_start_apps() {
    let c = wayvr_config(&[true]);
    let mut tasks: TaskContainer<AppClick> = TaskContainer::new();
    assert!(matches!(c.post_load(&mut tasks, 500), Ok(true)));
    let mut out = VecDeque::new();
    tasks.retrieve_due(500, &mut out);
    let launched: Vec<(String, String)> = out.into_iter().map(|a| (a.catalog_name, a.app_name)).collect();
    assert_eq!(launched, vec![("default".to_string(), "term".to_string()), ("default".to_string(), "web".to_string())]);
}

#[test]
fn post_load_refuses_two_primary_displays() {
    let c = wayvr_config(&[true, false, true]);
    let mut tasks: TaskContainer<AppClick> = TaskContainer::new();
    assert!(matches!(c.post_load(&mut tasks, 0), Err(ConfigError::TooManyPrimaryDisplays)));
    let mut out = VecDeque::new();
    tasks.retrieve_due(0, &mut out);
    assert!(out.is_empty());
}
