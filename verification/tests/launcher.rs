use std::path::{Path, PathBuf};

use aoostar::device::{
    find_instance_in_list, is_our_instance, restart_step, RestartFailure, RestartMethod, RestartNext,
    RestartStage, StageResult, AOOSTAR_UART_PID, AOOSTAR_UART_VID,
};
use aoostar::display::{
    display_state_is_on, display_state_notification, effective_state_on, heartbeat_state_on,
    is_display_state_guid, state_file_text, DisplayController, Guid, PBT_POWERSETTINGCHANGE,
};
use aoostar::launcher_config::{
    is_allowed_refresh, startup_display_mode, rewrite_refresh_time, rewrite_theme, rewrite_toml_value, theme_name,
    DisplayMode, LauncherConfig, RefreshKey, RejectedRefresh, DEFAULT_REFRESH_SECS, DISPLAY_MODES,
    THEME_OPTIONS,
};
use aoostar::logging::{log_line, TIMESTAMP_FORMAT};
use aoostar::paths::{LauncherPaths, PathEnv};
use aoostar::power::{
    action_steps, classify_power_event, stuck_escalation_steps, stuck_watcher_should_act,
    PowerAction, PowerEvent, PowerMonitor, PowerStep,
};
use aoostar::process::{
    child_specs, THEME_CHILDREN, retry_delay, watch_step, watcher_start, WatchAction, WatchEvent, WatcherState,
    REFRESH_CHILDREN,
};
use aoostar::tray::{status_label, ChildStatus};

fn config(
    refresh_time: Option<u16>,
    sysinfo_refresh: Option<u16>,
    hwbridge_refresh: Option<u16>,
) -> LauncherConfig {
    LauncherConfig {
        monitor_config: "Monitor3.json".to_string(),
        refresh_time,
        sysinfo_refresh,
        hwbridge_refresh,
        restart_uart_on_resume: true,
        theme: None,
        display_mode: None,
    }
}

// ---------------------------------------------------------------------
// device
// ---------------------------------------------------------------------

#[test]
fn matches_own_instance_id_case_insensitively() {
    assert!(is_our_instance(
        "USB\\VID_0416&PID_90A1\\6&2a1b3c&0&1",
        AOOSTAR_UART_VID,
        AOOSTAR_UART_PID
    ));
    assert!(is_our_instance(
        "usb\\vid_0416&pid_90a1\\6&2a1b3c&0&1",
        AOOSTAR_UART_VID,
        AOOSTAR_UART_PID
    ));
}

#[test]
fn rejects_other_devices() {
    assert!(!is_our_instance(
        "USB\\VID_1234&PID_5678\\123",
        AOOSTAR_UART_VID,
        AOOSTAR_UART_PID
    ));
    assert!(!is_our_instance(
        "USB\\VID_0416&PID_90A2\\123",
        AOOSTAR_UART_VID,
        AOOSTAR_UART_PID
    ));
    assert!(!is_our_instance(
        "HID\\VID_0416&PID_90A1\\123",
        AOOSTAR_UART_VID,
        AOOSTAR_UART_PID
    ));
    assert!(!is_our_instance(
        "USB\\VID_0416&PID_90A1&MI_00\\6&1",
        AOOSTAR_UART_VID,
        AOOSTAR_UART_PID
    ));
}

fn id_list(ids: &[&str]) -> Vec<u16> {
    let mut buf: Vec<u16> = Vec::new();
    for id in ids {
        buf.extend(id.encode_utf16());
        buf.push(0);
    }
    buf.push(0);
    buf
}

#[test]
fn finds_uart_instance_in_device_id_list() {
    let buf = id_list(&[
        "USB\\VID_1234&PID_5678\\1",
        "USB\\VID_0416&PID_90A1&MI_00\\6&1",
        "USB\\VID_0416&PID_90A1\\6&2a1b3c&0&1",
        "USB\\VID_0416&PID_90A1\\second",
    ]);
    assert_eq!(
        find_instance_in_list(&buf, AOOSTAR_UART_VID, AOOSTAR_UART_PID),
        Some("USB\\VID_0416&PID_90A1\\6&2a1b3c&0&1".to_string())
    );
}

#[test]
fn device_id_list_without_uart_gives_none() {
    let buf = id_list(&["USB\\VID_1234&PID_5678\\1", "HID\\VID_0416&PID_90A1\\2"]);
    assert_eq!(find_instance_in_list(&buf, AOOSTAR_UART_VID, AOOSTAR_UART_PID), None);
    assert_eq!(find_instance_in_list(&[0, 0], AOOSTAR_UART_VID, AOOSTAR_UART_PID), None);
    assert_eq!(find_instance_in_list(&[], AOOSTAR_UART_VID, AOOSTAR_UART_PID), None);
}

// ---------------------------------------------------------------------
// display
// ---------------------------------------------------------------------

#[test]
fn display_state_is_on_treats_only_zero_as_off() {
    assert!(!display_state_is_on(0));
    assert!(display_state_is_on(1));
    assert!(display_state_is_on(2));
}

#[test]
fn state_file_text_is_on_or_off_line() {
    assert_eq!(state_file_text(false), "off\n");
    assert_eq!(state_file_text(true), "on\n");
}

#[test]
fn effective_state_on_follows_mode_and_display_state() {
    assert!(effective_state_on(DisplayMode::On, 0));
    assert!(!effective_state_on(DisplayMode::Off, 1));
    assert!(!effective_state_on(DisplayMode::Follow, 0));
    assert!(effective_state_on(DisplayMode::Follow, 1));
    assert!(effective_state_on(DisplayMode::Follow, 2));
}

#[test]
fn heartbeat_state_on_force_off_while_suspended() {
    assert!(!heartbeat_state_on(DisplayMode::On, 1, true));
    assert!(!heartbeat_state_on(DisplayMode::Follow, 0, true));
    assert!(!heartbeat_state_on(DisplayMode::Follow, 1, true));
    assert!(heartbeat_state_on(DisplayMode::On, 0, false));
    assert!(!heartbeat_state_on(DisplayMode::Off, 1, false));
    assert!(heartbeat_state_on(DisplayMode::Follow, 2, false));
}

#[test]
fn display_mode_from_index_roundtrips_and_defaults() {
    for mode in DISPLAY_MODES {
        assert_eq!(DisplayMode::from_index(mode.index()), mode);
    }
    assert_eq!(DisplayMode::from_index(99), DisplayMode::On);
}

#[test]
fn display_mode_labels_and_indices() {
    assert_eq!(DisplayMode::On.label(), "On");
    assert_eq!(DisplayMode::Off.label(), "Off");
    assert_eq!(DisplayMode::Follow.label(), "Follow screen state");
    assert_eq!(DisplayMode::Follow.index(), 2);
}

#[test]
fn controller_follows_display_power_only_in_follow_mode() {
    let (mut ctl, on) = DisplayController::new(DisplayMode::Follow);
    assert!(on);
    assert_eq!(ctl.mode_index(), 2);
    assert_eq!(ctl.display_power_changed(0), Some(false));
    assert!(!ctl.heartbeat());
    assert_eq!(ctl.display_power_changed(2), Some(true));
    assert!(ctl.heartbeat());
    assert!(!ctl.write_for_mode(DisplayMode::Off));
    assert_eq!(ctl.display_power_changed(1), None);
    assert!(ctl.write_for_mode(DisplayMode::On));
    assert!(!ctl.force_off());
}

#[test]
fn controller_sleep_keeps_display_off_until_wake() {
    let (mut ctl, on) = DisplayController::new(DisplayMode::On);
    assert!(on);
    assert!(!ctl.suspend());
    assert!(!ctl.heartbeat());
    assert!(ctl.resume());
    assert!(ctl.heartbeat());
}

// ---------------------------------------------------------------------
// power
// ---------------------------------------------------------------------

#[test]
fn classifies_suspend_and_resume_wparams() {
    assert_eq!(classify_power_event(4), PowerEvent::Suspend);
    assert_eq!(classify_power_event(5), PowerEvent::Suspend);
    assert_eq!(classify_power_event(6), PowerEvent::Resume);
    assert_eq!(classify_power_event(7), PowerEvent::Resume);
    assert_eq!(classify_power_event(8), PowerEvent::Resume);
    assert_eq!(classify_power_event(18), PowerEvent::Resume);
}

#[test]
fn classifies_unrelated_messages_as_other() {
    assert_eq!(classify_power_event(0), PowerEvent::Other);
    assert_eq!(classify_power_event(12345), PowerEvent::Other);
}

#[test]
fn stuck_watcher_acts_only_when_armed_awake_marked_and_off_cooldown() {
    assert!(stuck_watcher_should_act(true, false, true, true));
    assert!(!stuck_watcher_should_act(false, false, true, true));
    assert!(!stuck_watcher_should_act(true, true, true, true));
    assert!(!stuck_watcher_should_act(true, false, false, true));
    assert!(!stuck_watcher_should_act(true, false, true, false));
}

#[test]
fn one_wake_flow_per_sleep() {
    let mut m = PowerMonitor::new(true);
    // A resume without a preceding suspend is ignored.
    assert_eq!(m.on_event(18), PowerAction::IgnoreResume);
    assert_eq!(m.on_event(4), PowerAction::SuspendChildren);
    assert_eq!(m.on_event(7), PowerAction::ResumeChildren { restart_uart: true });
    // Windows sends several resume notifications for one wake.
    assert_eq!(m.on_event(18), PowerAction::IgnoreResume);
    assert_eq!(m.on_event(10), PowerAction::Nothing);
    assert_eq!(m.on_event(5), PowerAction::SuspendChildren);
    assert_eq!(m.on_event(18), PowerAction::ResumeChildren { restart_uart: true });
    let mut soft = PowerMonitor::new(false);
    assert_eq!(soft.on_event(4), PowerAction::SuspendChildren);
    assert_eq!(soft.on_event(7), PowerAction::ResumeChildren { restart_uart: false });
}

#[test]
fn power_flows_run_their_steps_in_order() {
    assert_eq!(
        action_steps(PowerAction::SuspendChildren),
        vec![PowerStep::BlankDisplay, PowerStep::Wait(2), PowerStep::SetSuspended, PowerStep::KillChildren]
    );
    assert_eq!(
        action_steps(PowerAction::ResumeChildren { restart_uart: true }),
        vec![
            PowerStep::Wait(4),
            PowerStep::RestartUart,
            PowerStep::ResumeDisplay,
            PowerStep::RemoveStuckMarker,
            PowerStep::ClearSuspended
        ]
    );
    assert_eq!(
        action_steps(PowerAction::ResumeChildren { restart_uart: false }),
        vec![PowerStep::Wait(4), PowerStep::ResumeDisplay, PowerStep::RemoveStuckMarker, PowerStep::ClearSuspended]
    );
    assert!(action_steps(PowerAction::IgnoreResume).is_empty());
    assert!(action_steps(PowerAction::Nothing).is_empty());
    assert_eq!(
        stuck_escalation_steps(),
        vec![
            PowerStep::SetSuspended,
            PowerStep::KillChildren,
            PowerStep::RemoveStuckMarker,
            PowerStep::RestartUart,
            PowerStep::Wait(2),
            PowerStep::ClearSuspended
        ]
    );
}

// ---------------------------------------------------------------------
// process
// ---------------------------------------------------------------------

#[test]
fn builds_specs_relative_to_base_dir_using_config_values() {
    let base_dir = Path::new("C:\\dist");
    let cfg = LauncherConfig {
        monitor_config: "Custom.json".to_string(),
        refresh_time: None,
        sysinfo_refresh: Some(7),
        hwbridge_refresh: Some(11),
        restart_uart_on_resume: true,
        theme: None,
        display_mode: None,
    };

    let specs = child_specs("C:\\dist", &cfg);

    assert_eq!(specs[0].name, "aster-sysinfo");
    assert_eq!(
        PathBuf::from(&specs[0].exe_path),
        base_dir.join("bin").join("aster-sysinfo.exe")
    );
    assert_eq!(specs[0].args.last().unwrap(), "7");
    assert_eq!(
        PathBuf::from(&specs[0].log_path),
        base_dir.join("logs").join("aster-sysinfo.log")
    );

    assert_eq!(specs[1].name, "asterctl");
    assert_eq!(
        PathBuf::from(&specs[1].exe_path),
        base_dir.join("bin").join("asterctl.exe")
    );
    assert_eq!(
        specs[1].args,
        vec!["--config".to_string(), "Custom.json".to_string()]
    );

    assert_eq!(specs[2].name, "hwbridge");
    assert_eq!(
        PathBuf::from(&specs[2].exe_path),
        base_dir.join("hwbridge").join("HwBridge.exe")
    );
    assert_eq!(
        specs[2].args,
        vec!["cfg\\sensors\\hwbridge.txt".to_string(), "11".to_string()]
    );

    for spec in &specs {
        assert_eq!(PathBuf::from(&spec.base_dir), base_dir);
    }
}

#[test]
fn sysinfo_spec_carries_shared_refresh_time() {
    let specs = child_specs("/opt/aoostar", &config(Some(30), Some(2), Some(10)));
    assert_eq!(
        specs[0].args,
        vec![
            "--out".to_string(),
            "cfg\\sensors\\sysinfo.txt".to_string(),
            "--temp-dir".to_string(),
            "cfg\\sensors".to_string(),
            "--refresh".to_string(),
            "30".to_string()
        ]
    );
    assert_eq!(specs[2].args[1], "30");
    assert_eq!(specs[1].log_path, "/opt/aoostar/logs/asterctl.log");
}

#[test]
fn retry_delay_widens_after_repeated_failures() {
    assert_eq!(retry_delay(0), 2);
    assert_eq!(retry_delay(3), 2);
    assert_eq!(retry_delay(4), 4);
    assert_eq!(retry_delay(5), 8);
    assert_eq!(retry_delay(6), 16);
    assert_eq!(retry_delay(7), 32);
    assert_eq!(retry_delay(8), 60);
    assert_eq!(retry_delay(u32::MAX), 60);
}

#[test]
fn watcher_steps_follow_quit_sleep_and_backoff() {
    let s = watcher_start();
    assert_eq!(s, WatcherState { failures: 0, healthy: false });
    assert_eq!(watch_step(s, false, false, WatchEvent::Tick), (s, WatchAction::Spawn));
    assert_eq!(watch_step(s, false, true, WatchEvent::Tick), (s, WatchAction::WaitSuspended));
    assert_eq!(watch_step(s, true, true, WatchEvent::Tick), (s, WatchAction::Stop));

    let failed3 = WatcherState { failures: 3, healthy: false };
    let (f4, a) = watch_step(failed3, false, false, WatchEvent::SpawnFailed);
    assert_eq!(f4, WatcherState { failures: 4, healthy: false });
    assert_eq!(a, WatchAction::Pause(4));
    let max = WatcherState { failures: u32::MAX, healthy: false };
    assert_eq!(watch_step(max, false, false, WatchEvent::SpawnFailed).1, WatchAction::Pause(60));

    let running = WatcherState { failures: 0, healthy: true };
    assert_eq!(watch_step(f4, false, false, WatchEvent::Spawned), (running, WatchAction::WaitForExit));
    assert_eq!(watch_step(f4, false, true, WatchEvent::Spawned), (running, WatchAction::KillFresh));
    assert_eq!(watch_step(f4, true, false, WatchEvent::Spawned), (running, WatchAction::KillFreshAndStop));

    let exited = WatcherState { failures: 0, healthy: false };
    assert_eq!(watch_step(running, false, false, WatchEvent::Exited), (exited, WatchAction::Pause(2)));
    assert_eq!(watch_step(running, true, false, WatchEvent::Exited), (exited, WatchAction::Stop));
    assert_eq!(REFRESH_CHILDREN, ["aster-sysinfo", "hwbridge"]);
}

// ---------------------------------------------------------------------
// tray
// ---------------------------------------------------------------------

#[test]
fn status_label_lists_unhealthy_children() {
    let all_up = [
        ChildStatus { name: "aster-sysinfo", healthy: true },
        ChildStatus { name: "asterctl", healthy: true },
    ];
    assert_eq!(status_label(&all_up), "Aster Launcher: all running");
    assert_eq!(status_label(&[]), "Aster Launcher: all running");
    let some_down = [
        ChildStatus { name: "aster-sysinfo", healthy: false },
        ChildStatus { name: "asterctl", healthy: true },
        ChildStatus { name: "hwbridge", healthy: false },
    ];
    assert_eq!(
        status_label(&some_down),
        "Aster Launcher: degraded (aster-sysinfo, hwbridge)"
    );
    let one_down = [ChildStatus { name: "asterctl", healthy: false }];
    assert_eq!(status_label(&one_down), "Aster Launcher: degraded (asterctl)");
}

// ---------------------------------------------------------------------
// config
// ---------------------------------------------------------------------

#[test]
fn default_config_values() {
    let cfg = LauncherConfig::default();
    assert_eq!(cfg.monitor_config, "Monitor3.json");
    assert_eq!(cfg.refresh_time, None);
    assert!(cfg.restart_uart_on_resume);
    assert_eq!(cfg.sysinfo_refresh_effective(), DEFAULT_REFRESH_SECS);
    assert_eq!(cfg.hwbridge_refresh_effective(), 5);
}

#[test]
fn shared_refresh_time_wins_over_legacy_keys() {
    let cfg = config(Some(10), Some(2), Some(30));
    assert_eq!(cfg.sysinfo_refresh_effective(), 10);
    assert_eq!(cfg.hwbridge_refresh_effective(), 10);
    let legacy = config(None, Some(2), Some(30));
    assert_eq!(legacy.sysinfo_refresh_effective(), 2);
    assert_eq!(legacy.hwbridge_refresh_effective(), 30);
}

#[test]
fn sanitize_drops_values_outside_the_options() {
    let mut cfg = config(Some(7), Some(2), None);
    let rejected = cfg.sanitize_refresh_values();
    assert_eq!(
        rejected,
        vec![RejectedRefresh { key: RefreshKey::RefreshTime, value: 7 }]
    );
    assert_eq!(cfg.refresh_time, None);
    assert_eq!(cfg.sysinfo_refresh_effective(), 2);
    assert_eq!(cfg.hwbridge_refresh_effective(), 5);

    let mut legacy = config(None, Some(0), Some(3));
    let rejected = legacy.sanitize_refresh_values();
    assert_eq!(rejected.len(), 2);
    assert_eq!(rejected[0].key.name(), "sysinfo_refresh");
    assert_eq!(rejected[1].key.name(), "hwbridge_refresh");
    assert_eq!(legacy.sysinfo_refresh_effective(), 5);
    assert_eq!(legacy.hwbridge_refresh_effective(), 5);
    assert_eq!(RefreshKey::RefreshTime.name(), "refresh_time");
}

#[test]
fn allowed_refresh_intervals() {
    for v in [2u16, 5, 10, 30] {
        assert!(is_allowed_refresh(v));
    }
    for v in [0u16, 1, 3, 7, 11, 60] {
        assert!(!is_allowed_refresh(v));
    }
}

#[test]
fn rewrite_updates_value_and_keeps_comments_and_other_keys() {
    let text = "# my config\nrefresh_time = 5\n\n# legacy\nsysinfo_refresh = 2\n";
    let out = rewrite_refresh_time(text, 30);
    assert!(out.contains("# my config"));
    assert!(out.contains("refresh_time = 30"));
    assert!(!out.contains("refresh_time = 5"));
    assert!(out.contains("# legacy"));
    assert!(out.contains("sysinfo_refresh = 2"));
    assert_eq!(
        out,
        "# my config\nrefresh_time = 30\n\n# legacy\nsysinfo_refresh = 2\n"
    );
}

#[test]
fn rewrite_appends_when_key_absent() {
    let out = rewrite_refresh_time("monitor_config = \"Monitor3.json\"\n", 10);
    assert!(out.contains("monitor_config = \"Monitor3.json\""));
    assert!(out.contains("refresh_time = 10"));
    assert_eq!(out, "monitor_config = \"Monitor3.json\"\nrefresh_time = 10\n");
    assert_eq!(rewrite_refresh_time("", 2), "refresh_time = 2\n");
    assert_eq!(
        rewrite_refresh_time("a = 1", 5),
        "a = 1\nrefresh_time = 5\n"
    );
}

#[test]
fn rewrite_keeps_indent_and_drops_trailing_comment() {
    let out = rewrite_toml_value("  refresh_time = 5 # old\nx = 1", "refresh_time", 30);
    assert_eq!(out, "  refresh_time = 30\nx = 1");
    // A key that only starts the same is another key.
    let out = rewrite_toml_value("refresh_time_old = 5\n", "refresh_time", 2);
    assert_eq!(out, "refresh_time_old = 5\nrefresh_time = 2\n");
}

// ---------------------------------------------------------------------
// paths
// ---------------------------------------------------------------------

fn empty_env() -> PathEnv {
    PathEnv {
        home: None,
        current_dir: None,
        asset_dir: None,
        bin_dir: None,
        config_dir: None,
        xdg_config_home: None,
        state_dir: None,
        xdg_state_home: None,
        runtime_dir: None,
        xdg_runtime_dir: None,
    }
}

#[test]
fn paths_are_user_writable_and_absolute_by_default() {
    let p = LauncherPaths::from_env(&PathEnv { current_dir: Some("/work".to_string()), ..empty_env() });
    assert!(Path::new(&p.config).ends_with("aoostar-rs"));
    assert!(Path::new(&p.runtime).ends_with("aoostar-rs") || Path::new(&p.runtime).ends_with("runtime"));
    assert!(Path::new(&p.sensors).starts_with(&p.runtime));
    assert!(Path::new(&p.config).is_absolute());
    assert!(Path::new(&p.runtime).is_absolute());
    assert_eq!(p.config, "/work/.config/aoostar-rs");
    assert_eq!(p.runtime, "/work/.local/state/aoostar-rs/runtime");
}

#[test]
fn missing_home_and_cwd_fall_back_to_tmp() {
    let p = LauncherPaths::from_env(&empty_env());
    assert_eq!(p.config, "/tmp/.config/aoostar-rs");
    assert_eq!(p.assets, "/usr/share/aoostar-rs");
    assert_eq!(p.binaries, "/usr/lib/aoostar-rs");
    assert_eq!(p.launcher_config(), "/tmp/.config/aoostar-rs/launcher.toml");
    assert_eq!(p.launcher_log(), "/tmp/.local/state/aoostar-rs/logs/launcher.log");
    assert_eq!(p.assets_cfg(), "/usr/share/aoostar-rs/cfg");
    assert_eq!(p.fonts(), "/usr/share/aoostar-rs/fonts");
    assert_eq!(p.lock, "/tmp/.local/state/aoostar-rs/runtime/launcher.lock");
    assert_eq!(p.display_state, "/tmp/.local/state/aoostar-rs/runtime/display.state");
    assert_eq!(p.stuck_file, "/tmp/.local/state/aoostar-rs/runtime/uart.stuck");
}

#[test]
fn xdg_and_aoostar_overrides_have_expected_precedence() {
    let env = PathEnv {
        home: Some("/home/tester".to_string()),
        xdg_config_home: Some("/tmp/config".to_string()),
        xdg_state_home: Some("/tmp/state".to_string()),
        xdg_runtime_dir: Some("/run/user/42".to_string()),
        config_dir: Some("/tmp/custom-config".to_string()),
        ..empty_env()
    };
    let p = LauncherPaths::from_env(&env);
    assert_eq!(PathBuf::from(&p.config), PathBuf::from("/tmp/custom-config"));
    assert_eq!(PathBuf::from(&p.logs), PathBuf::from("/tmp/state/aoostar-rs/logs"));
    assert_eq!(PathBuf::from(&p.runtime), PathBuf::from("/run/user/42/aoostar-rs"));
}

#[test]
fn monitor_absolute_path_is_preserved() {
    let p = LauncherPaths::from_env(&PathEnv { home: Some("/home/tester".to_string()), ..empty_env() });
    let absolute = "/tmp/monitor.json";
    assert_eq!(p.monitor_config(absolute), absolute);
    assert_eq!(p.monitor_config("Monitor3.json"), "/usr/share/aoostar-rs/cfg/Monitor3.json");
}

#[test]
fn log_lines_carry_a_bracketed_timestamp() {
    assert_eq!(log_line("2025-01-02 03:04:05", "first"), "[2025-01-02 03:04:05] first\n");
    assert_eq!(log_line("", ""), "[] \n");
    assert_eq!(TIMESTAMP_FORMAT, "%Y-%m-%d %H:%M:%S");
}

const CONSOLE_DISPLAY_STATE: Guid = Guid {
    data1: 0x6fe69556,
    data2: 0x704a,
    data3: 0x47a0,
    data4: [0x8f, 0x24, 0xc2, 0x8d, 0x93, 0x6f, 0xda, 0x47],
};

#[test]
fn recognises_console_display_state_notifications() {
    assert!(is_display_state_guid(&CONSOLE_DISPLAY_STATE));
    let mut other = CONSOLE_DISPLAY_STATE;
    other.data4[7] = 0x48;
    assert!(!is_display_state_guid(&other));
    assert_eq!(
        display_state_notification(PBT_POWERSETTINGCHANGE, &CONSOLE_DISPLAY_STATE, 2),
        Some(2)
    );
    assert_eq!(display_state_notification(PBT_POWERSETTINGCHANGE, &other, 0), None);
    assert_eq!(display_state_notification(0x8012, &CONSOLE_DISPLAY_STATE, 0), None);
}

#[test]
fn theme_is_passed_to_asterctl_only() {
    let mut cfg = config(None, None, None);
    cfg.theme = Some(2);
    let specs = child_specs("/opt/aoostar", &cfg);
    assert_eq!(
        specs[1].args,
        vec!["--config".to_string(), "Monitor3.json".to_string(), "--theme".to_string(), "2".to_string()]
    );
    let plain = child_specs("/opt/aoostar", &config(None, None, None));
    assert_eq!(specs[0].args, plain[0].args);
    assert_eq!(specs[2].args, plain[2].args);
    assert!(!plain[1].args.contains(&"--theme".to_string()));
}

#[test]
fn theme_values_are_sanitized_and_named() {
    let mut cfg = config(Some(5), None, None);
    cfg.theme = Some(7);
    assert_eq!(cfg.sanitize_theme(), Some(7));
    assert_eq!(cfg.theme, None);
    assert_eq!(cfg.refresh_time, Some(5));
    cfg.theme = Some(3);
    assert_eq!(cfg.sanitize_theme(), None);
    assert_eq!(cfg.theme, Some(3));
    for (idx, name) in THEME_OPTIONS {
        assert_eq!(theme_name(idx), Some(name));
    }
    assert_eq!(theme_name(4), None);
    assert_eq!(rewrite_theme("# t\ntheme = 1\n", 3), "# t\ntheme = 3\n");
    assert_eq!(rewrite_theme("refresh_time = 5\n", 0), "refresh_time = 5\ntheme = 0\n");
}

#[test]
fn child_paths_lie_under_the_base_dir() {
    let specs = child_specs("/opt/aoostar", &config(None, None, None));
    for spec in &specs {
        assert!(spec.exe_path.starts_with("/opt/aoostar/"));
        assert!(spec.log_path.starts_with("/opt/aoostar/logs/"));
    }
}

#[test]
fn restart_ladder_prefers_reset_and_falls_back_only_without_it() {
    assert_eq!(restart_step(RestartStage::Locate, StageResult::Success), RestartNext::Call(RestartStage::Reset));
    assert_eq!(restart_step(RestartStage::Locate, StageResult::Failed(13)), RestartNext::Done(Err(RestartFailure::NotPresent)));
    assert_eq!(restart_step(RestartStage::Reset, StageResult::Success), RestartNext::Done(Ok(RestartMethod::Reset)));
    assert_eq!(restart_step(RestartStage::Reset, StageResult::Failed(23)), RestartNext::Done(Err(RestartFailure::ResetFailed(23))));
    assert_eq!(restart_step(RestartStage::Reset, StageResult::Unavailable), RestartNext::Call(RestartStage::RemoveSubtree));
    assert_eq!(restart_step(RestartStage::RemoveSubtree, StageResult::Success), RestartNext::WaitThenCall(1500, RestartStage::FindParent));
    assert_eq!(restart_step(RestartStage::RemoveSubtree, StageResult::Failed(5)), RestartNext::Done(Err(RestartFailure::RemoveFailed(5))));
    assert_eq!(restart_step(RestartStage::FindParent, StageResult::Success), RestartNext::Call(RestartStage::RescanParent));
    assert_eq!(restart_step(RestartStage::FindParent, StageResult::Failed(6)), RestartNext::Done(Err(RestartFailure::ParentLookupFailed(6))));
    assert_eq!(restart_step(RestartStage::RescanParent, StageResult::Success), RestartNext::WaitThenRescanned(1500));
    assert_eq!(restart_step(RestartStage::RescanParent, StageResult::Failed(7)), RestartNext::Done(Err(RestartFailure::ReenumerateFailed(7))));
}

#[test]
fn display_mode_names_and_startup_mode() {
    for mode in DISPLAY_MODES {
        assert_eq!(DisplayMode::from_config_name(mode.config_name()), Some(mode));
    }
    assert_eq!(DisplayMode::from_config_name("follow"), Some(DisplayMode::Follow));
    assert_eq!(DisplayMode::from_config_name("On"), None);
    assert_eq!(DisplayMode::from_config_name(""), None);
    assert_eq!(startup_display_mode(None, true), DisplayMode::On);
    assert_eq!(startup_display_mode(Some(DisplayMode::Off), false), DisplayMode::Off);
    assert_eq!(startup_display_mode(Some(DisplayMode::Follow), false), DisplayMode::On);
    assert_eq!(startup_display_mode(Some(DisplayMode::Follow), true), DisplayMode::Follow);
}

#[test]
fn tray_choices_rebuild_the_specs() {
    let cfg = config(None, Some(2), Some(30)).with_refresh_time(10);
    assert_eq!(cfg.refresh_time, Some(10));
    assert_eq!(cfg.sysinfo_refresh, Some(2));
    let specs = child_specs("/d", &cfg);
    assert_eq!(specs[0].args.last().unwrap(), "10");
    assert_eq!(specs[2].args[1], "10");
    let themed = cfg.with_theme(1);
    assert_eq!(themed.refresh_time, Some(10));
    assert_eq!(child_specs("/d", &themed)[1].args[3], "1");
    assert_eq!(THEME_CHILDREN, ["asterctl"]);
}
