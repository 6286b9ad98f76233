use rustconn::activity_coordinator::{ActivityCoordinator, NotificationType};
use rustconn::monitor_mode::MonitorMode;

/// Quiet period and silence timeout that Command mode must ignore.
const QUIET: u32 = 10;
const SILENCE: u32 = 30;

const SESSION: u128 = 0x0123_4567_89ab_4def_8123_4567_89ab_cdef;

fn started(mode: MonitorMode) -> (ActivityCoordinator, u128) {
    let mut coordinator = ActivityCoordinator::new();
    coordinator.start(SESSION, mode, QUIET, SILENCE, 0);
    (coordinator, SESSION)
}

#[test]
fn a_finished_command_notifies_in_command_mode() {
    let (mut coordinator, session_id) = started(MonitorMode::Command);
    assert_eq!(
        coordinator.on_command_finished(session_id, Some(0), 1),
        Some(NotificationType::CommandFinished { exit_code: Some(0) })
    );
}

#[test]
fn the_exit_code_reaches_the_notification_unchanged() {
    let (mut coordinator, session_id) = started(MonitorMode::Command);
    for code in [None, Some(0), Some(1), Some(127)] {
        assert_eq!(
            coordinator.on_command_finished(session_id, code, 1),
            Some(NotificationType::CommandFinished { exit_code: code })
        );
    }
}

#[test]
fn the_other_modes_ignore_a_finished_command() {
    for mode in [MonitorMode::Off, MonitorMode::Activity, MonitorMode::Silence] {
        let (mut coordinator, session_id) = started(mode);
        assert_eq!(
            coordinator.on_command_finished(session_id, Some(0), 1),
            None,
            "{mode:?} must not notify on a finished command"
        );
    }
}

#[test]
fn an_untracked_session_ignores_a_finished_command() {
    let mut coordinator = ActivityCoordinator::new();
    assert_eq!(coordinator.on_command_finished(SESSION, Some(0), 1), None);
}

#[test]
fn command_mode_ignores_terminal_output() {
    let (mut coordinator, session_id) = started(MonitorMode::Command);
    assert_eq!(coordinator.on_output(session_id, 1).0, None);
    assert_eq!(coordinator.on_output(session_id, 2).0, None);
}

#[test]
fn consecutive_commands_each_notify() {
    let (mut coordinator, session_id) = started(MonitorMode::Command);
    assert!(coordinator.on_command_finished(session_id, Some(0), 1).is_some());
    assert!(coordinator.on_command_finished(session_id, Some(1), 2).is_some());
    assert!(coordinator.on_command_finished(session_id, Some(0), 3).is_some());
}

#[test]
fn cycling_a_live_session_into_command_mode_starts_notifying() {
    let (mut coordinator, session_id) = started(MonitorMode::Off);
    assert_eq!(coordinator.on_command_finished(session_id, Some(0), 1), None);
    coordinator.set_mode(session_id, MonitorMode::Command, 2);
    assert_eq!(coordinator.get_mode(session_id), Some(MonitorMode::Command));
    assert!(coordinator.on_command_finished(session_id, Some(0), 3).is_some());
}

#[test]
fn cycling_out_of_command_mode_stops_notifying() {
    let (mut coordinator, session_id) = started(MonitorMode::Command);
    assert!(coordinator.on_command_finished(session_id, Some(0), 1).is_some());
    coordinator.set_mode(session_id, MonitorMode::Off, 2);
    assert_eq!(coordinator.on_command_finished(session_id, Some(0), 3), None);
}

#[test]
fn activity_notifies_once_after_the_quiet_period_until_the_tab_is_visited() {
    let (mut coordinator, session_id) = started(MonitorMode::Activity);
    // Output within the quiet period is not news.
    assert_eq!(coordinator.on_output(session_id, 5_000).0, None);
    // Output after ten quiet seconds is.
    assert_eq!(coordinator.on_output(session_id, 15_000).0, Some(NotificationType::Activity));
    // Later output waits until the user has looked at the tab.
    assert_eq!(coordinator.on_output(session_id, 40_000).0, None);
    coordinator.on_tab_switched(session_id);
    assert_eq!(coordinator.on_output(session_id, 60_000).0, Some(NotificationType::Activity));
}

#[test]
fn silence_output_rearms_the_timer_and_the_timer_notifies() {
    let (mut coordinator, session_id) = started(MonitorMode::Silence);
    let action = coordinator.on_output(session_id, 1_000).1;
    assert_eq!(action.arm_secs, Some(SILENCE));
    assert!(action.cancel, "the timer armed at start must be replaced");
    assert_eq!(coordinator.silence_timer_fired(session_id), Some(NotificationType::Silence));
}

#[test]
fn a_stopped_session_is_forgotten() {
    let (mut coordinator, session_id) = started(MonitorMode::Silence);
    let action = coordinator.stop(session_id);
    assert!(action.cancel);
    assert_eq!(coordinator.get_mode(session_id), None);
    assert_eq!(coordinator.silence_timer_fired(session_id), None);
}

#[test]
fn stop_all_lists_the_armed_timers() {
    let mut coordinator = ActivityCoordinator::new();
    coordinator.start(1, MonitorMode::Silence, QUIET, SILENCE, 0);
    coordinator.start(2, MonitorMode::Activity, QUIET, SILENCE, 0);
    let cancel = coordinator.stop_all();
    assert_eq!(cancel, vec![1]);
    assert_eq!(coordinator.get_mode(1), None);
    assert_eq!(coordinator.get_mode(2), None);
}

#[test]
fn cycle_mode_walks_the_modes_in_order() {
    let (mut coordinator, session_id) = started(MonitorMode::Off);
    assert_eq!(coordinator.cycle_mode(session_id, 1).0, MonitorMode::Activity);
    assert_eq!(coordinator.cycle_mode(session_id, 2).0, MonitorMode::Silence);
    assert_eq!(coordinator.cycle_mode(session_id, 3).0, MonitorMode::Command);
    assert_eq!(coordinator.cycle_mode(session_id, 4).0, MonitorMode::Off);
}
