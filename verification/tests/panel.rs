use aoostar::display::state_file_text;
use aoostar::panel::{
    active_panels_for_theme, after_switch, config_dir_file, decide_poll, effective_theme, shutdown_step, ShutdownStep, display_state_text_is_on, heartbeat_lost, init_backoff_secs,
    init_retry_delay, PollDecision, INIT_RETRY_ATTEMPTS, LAUNCHER_HEARTBEAT_TIMEOUT_SECS,
    STUCK_MARKER_TEXT,
};
use aoostar::sensor_values::SensorValues;
use aoostar::shm::{
    producer_index, producer_name, ShmTracker, StaleChange, PRODUCERS, STALE_AFTER_MS,
};
use aoostar::stats::{Producer, SlotSnapshot};

#[test]
fn init_backoff_grows_and_caps() {
    assert_eq!(init_backoff_secs(0), 1);
    assert_eq!(init_backoff_secs(1), 2);
    assert_eq!(init_backoff_secs(2), 4);
    assert_eq!(init_backoff_secs(3), 8);
    assert_eq!(init_backoff_secs(4), 16);
    assert_eq!(init_backoff_secs(5), 32);
    assert_eq!(init_backoff_secs(6), 32);
    assert_eq!(init_backoff_secs(100), 32);
}

#[test]
fn init_retry_budget_is_six_attempts_with_31s_of_backoff() {
    let mut attempt = 0u32;
    let mut slept = 0u64;
    while let Some(delay) = init_retry_delay(attempt) {
        slept += delay;
        attempt += 1;
    }
    assert_eq!(attempt + 1, INIT_RETRY_ATTEMPTS);
    assert_eq!(slept, 1 + 2 + 4 + 8 + 16);
}

#[test]
fn display_state_text_off_turns_display_off() {
    assert!(!display_state_text_is_on("off\n"));
    assert!(!display_state_text_is_on("off"));
    assert!(!display_state_text_is_on("  off  \n"));
}

#[test]
fn display_state_text_on_or_garbage_keeps_display_on() {
    assert!(display_state_text_is_on("on\n"));
    assert!(display_state_text_is_on("on"));
    assert!(display_state_text_is_on(""));
    assert!(display_state_text_is_on("garbage"));
    assert!(display_state_text_is_on("OFF"));
}

#[test]
fn launcher_state_file_reads_back_as_written() {
    assert!(display_state_text_is_on(state_file_text(true)));
    assert!(!display_state_text_is_on(state_file_text(false)));
    assert_eq!(STUCK_MARKER_TEXT, "stuck\n");
}

#[test]
fn heartbeat_age_decides_launcher_death() {
    let timeout = LAUNCHER_HEARTBEAT_TIMEOUT_SECS as u128 * 1_000_000_000;
    // unknown age (missing file) counts as alive
    assert!(!heartbeat_lost(None, timeout));
    assert!(!heartbeat_lost(Some(2_000_000_000), timeout));
    assert!(!heartbeat_lost(Some(timeout), timeout));
    assert!(heartbeat_lost(Some(timeout + 1), timeout));
    assert!(heartbeat_lost(Some(20_000_000), 5_000_000));
}

#[test]
fn poll_follows_state_file_while_launcher_lives() {
    assert_eq!(decide_poll(true, false, true), PollDecision::Keep);
    assert_eq!(decide_poll(true, false, false), PollDecision::Switch(false));
    assert_eq!(decide_poll(false, false, true), PollDecision::Switch(true));
    assert_eq!(decide_poll(false, false, false), PollDecision::Keep);
    assert!(!after_switch(true, false, true));
    assert!(after_switch(true, false, false));
}

#[test]
fn poll_switches_off_and_exits_without_launcher() {
    assert_eq!(decide_poll(true, true, true), PollDecision::SwitchOffAndExit);
    assert_eq!(decide_poll(false, true, true), PollDecision::Exit);
}

#[test]
fn producers_have_fixed_indices_and_names() {
    assert_eq!(PRODUCERS, [Producer::HwBridge, Producer::SysInfo]);
    assert_eq!(producer_index(Producer::HwBridge), 0);
    assert_eq!(producer_index(Producer::SysInfo), 1);
    assert_eq!(producer_name(Producer::HwBridge), "HwBridge");
    assert_eq!(producer_name(Producer::SysInfo), "aster-sysinfo");
}

fn snapshot(sequence: u64, timestamp_ms: u64, payload: &[u8]) -> SlotSnapshot {
    SlotSnapshot { sequence, timestamp_ms, payload: payload.to_vec() }
}

#[test]
fn new_sequence_merges_values_once() {
    let mut t = ShmTracker::new();
    let mut values = SensorValues::new();
    let now = 1_700_000_000_000;
    let s = snapshot(2, now, b"cpu: 40\ngpu: 30\n");
    let o = t.observe(Producer::HwBridge, &s, now, &mut values);
    assert!(o.merged);
    assert_eq!(values.len(), 2);
    assert_eq!(values.get("cpu").unwrap(), "40");

    // The same sequence again changes nothing, even if the map was edited.
    values.insert("cpu".to_string(), "41".to_string());
    let o = t.observe(Producer::HwBridge, &s, now + 1000, &mut values);
    assert!(!o.merged);
    assert_eq!(values.get("cpu").unwrap(), "41");

    // A new sequence merges again; shared-memory values win.
    let s2 = snapshot(4, now + 2000, b"cpu: 42\n");
    let o = t.observe(Producer::HwBridge, &s2, now + 2000, &mut values);
    assert!(o.merged);
    assert_eq!(values.get("cpu").unwrap(), "42");
    assert_eq!(values.get("gpu").unwrap(), "30");

    // The other producer's slot is tracked separately.
    let s3 = snapshot(4, now, b"mem: 1\n");
    assert!(t.observe(Producer::SysInfo, &s3, now, &mut values).merged);
    assert_eq!(values.len(), 3);
}

#[test]
fn stale_producer_is_warned_once_per_episode() {
    let mut t = ShmTracker::new();
    let mut values = SensorValues::new();
    let ts = 1_000_000;
    let s = snapshot(2, ts, b"a: 1\n");
    let o = t.observe(Producer::SysInfo, &s, ts + STALE_AFTER_MS, &mut values);
    assert_eq!(o.stale, StaleChange::Unchanged);
    assert_eq!(o.age_ms, STALE_AFTER_MS);
    let o = t.observe(Producer::SysInfo, &s, ts + STALE_AFTER_MS + 1, &mut values);
    assert_eq!(o.stale, StaleChange::BecameStale);
    let o = t.observe(Producer::SysInfo, &s, ts + 90_000, &mut values);
    assert_eq!(o.stale, StaleChange::Unchanged);
    let fresh = snapshot(4, ts + 90_000, b"a: 2\n");
    let o = t.observe(Producer::SysInfo, &fresh, ts + 90_500, &mut values);
    assert_eq!(o.stale, StaleChange::FreshAgain);
    assert!(o.merged);
    // A timestamp from the future counts as age zero.
    let o = t.observe(Producer::SysInfo, &fresh, ts, &mut values);
    assert_eq!(o.age_ms, 0);
    assert_eq!(o.stale, StaleChange::Unchanged);
}

#[test]
fn unavailable_notices_are_logged_once_until_data_arrives() {
    let mut t = ShmTracker::new();
    let mut values = SensorValues::new();
    assert!(t.region_unavailable());
    assert!(!t.region_unavailable());
    assert!(t.slot_unwritten(Producer::SysInfo));
    assert!(!t.slot_unwritten(Producer::SysInfo));
    // HwBridge's notice flag is shared with the region notice.
    assert!(!t.slot_unwritten(Producer::HwBridge));
    let s = snapshot(2, 0, b"a: 1\n");
    t.observe(Producer::HwBridge, &s, 0, &mut values);
    assert!(t.slot_unwritten(Producer::HwBridge));
}

#[test]
fn cli_theme_wins_over_json_theme() {
    assert_eq!(effective_theme(Some(2), Some(1)), Some(2));
    assert_eq!(effective_theme(None, Some(1)), Some(1));
    assert_eq!(effective_theme(None, None), None);
    assert_eq!(effective_theme(Some(0), None), Some(0));
}

#[test]
fn config_files_resolve_against_the_config_dir() {
    assert_eq!(config_dir_file("cfg", "Monitor3.json"), "cfg/Monitor3.json");
    assert_eq!(config_dir_file("cfg", "/etc/m.json"), "/etc/m.json");
    assert_eq!(config_dir_file("cfg", "sensor-mapping.cfg"), "cfg/sensor-mapping.cfg");
}

#[test]
fn lost_launcher_shutdown_retries_off_until_it_goes_through() {
    assert_eq!(shutdown_step(false), ShutdownStep::ReconnectThenOffAgain);
    assert_eq!(shutdown_step(true), ShutdownStep::Exit);
}

#[test]
fn theme_panel_table() {
    let expected = [(1u32, 2u32), (3, 4), (5, 6), (7, 8)];
    for (theme, (a, b)) in expected.iter().enumerate() {
        let t = theme as i32;
        assert_eq!(active_panels_for_theme(t, true, true), Some(vec![*a, *b]));
        assert_eq!(active_panels_for_theme(t, true, false), Some(vec![*a]));
        assert_eq!(active_panels_for_theme(t, false, true), Some(vec![*b]));
        assert_eq!(active_panels_for_theme(t, false, false), Some(vec![]));
    }
    assert_eq!(active_panels_for_theme(4, true, true), None);
    assert_eq!(active_panels_for_theme(-1, true, true), None);
}
