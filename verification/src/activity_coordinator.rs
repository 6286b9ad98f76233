//! Per-session activity, silence and command-finished monitoring.
//!
//! The coordinator is a state machine over the tracked sessions. It never
//! touches a clock or a timer itself: the caller hands in the current
//! monotonic time in milliseconds, and every transition that concerns the
//! session's one-shot silence timer returns a [`TimerAction`] that the caller
//! carries out on its main loop. When the caller's timer expires it reports
//! back through [`ActivityCoordinator::silence_timer_fired`].

use std::collections::HashMap;

use vstd::prelude::*;

use crate::monitor_mode::{next_mode, MonitorMode};
#[allow(unused_imports)]
use vstd::std_specs::iter::IteratorSpec;

verus! {

broadcast use vstd::std_specs::hash::group_hash_axioms;

/// The kind of notification the coordinator asks the caller to show.
#[derive(Debug, Clone, Copy, PartialEq, Eq, Structural)]
pub enum NotificationType {
    /// New output appeared after a quiet period (activity mode).
    Activity,
    /// No output occurred for the configured silence timeout (silence mode).
    Silence,
    /// The remote shell reported that a command finished (command mode),
    /// with its exit code when the shell sent one.
    CommandFinished { exit_code: Option<u64> },
}

/// Per-session monitoring state.
#[derive(Debug, Clone, Copy, PartialEq, Eq, Structural)]
pub struct SessionActivityState {
    /// Current monitoring mode.
    pub mode: MonitorMode,
    /// Seconds of quiet before an activity notification may fire.
    pub quiet_period_secs: u32,
    /// Seconds of silence before a silence notification fires.
    pub silence_timeout_secs: u32,
    /// Time of the last output event, in the caller's milliseconds.
    pub last_output_ms: u64,
    /// Whether a notification is showing (cleared when the tab is visited).
    pub notification_active: bool,
    /// Whether the caller holds a pending silence timer for this session.
    pub silence_timer_armed: bool,
}

/// What the caller must do with the session's silence timer: first cancel
/// the pending one when `cancel` is set, then arm a new one-shot timer for
/// `arm_secs` seconds when that is `Some`.
#[derive(Debug, Clone, Copy, PartialEq, Eq, Structural)]
pub struct TimerAction {
    /// Cancel the pending timer.
    pub cancel: bool,
    /// Arm a new timer for this many seconds.
    pub arm_secs: Option<u32>,
}

/// The abstract coordinator: tracked sessions by id.
pub type SessionsView = Map<u128, SessionActivityState>;

/// A session just (re)started.
pub open spec fn fresh_state(mode: MonitorMode, quiet: u32, silence: u32, now: u64) -> SessionActivityState {
    SessionActivityState {
        mode,
        quiet_period_secs: quiet,
        silence_timeout_secs: silence,
        last_output_ms: now,
        notification_active: false,
        silence_timer_armed: mode == MonitorMode::Silence,
    }
}

/// Whether the session's pending timer (if any) must be cancelled.
pub open spec fn armed(m: SessionsView, id: u128) -> bool {
    m.contains_key(id) && m[id].silence_timer_armed
}

/// Milliseconds since the last output, never negative.
pub open spec fn elapsed_ms(last: u64, now: u64) -> int {
    if now >= last { now - last } else { 0 }
}

/// Transition for [`ActivityCoordinator::start`].
pub open spec fn start_spec(m: SessionsView, id: u128, mode: MonitorMode, quiet: u32, silence: u32, now: u64)
    -> (SessionsView, TimerAction)
{
    (
        m.insert(id, fresh_state(mode, quiet, silence, now)),
        TimerAction {
            cancel: armed(m, id),
            arm_secs: if mode == MonitorMode::Silence { Some(silence) } else { None },
        },
    )
}

/// Transition for [`ActivityCoordinator::stop`].
pub open spec fn stop_spec(m: SessionsView, id: u128) -> (SessionsView, TimerAction) {
    (m.remove(id), TimerAction { cancel: armed(m, id), arm_secs: None })
}

/// Transition for [`ActivityCoordinator::on_output`].
pub open spec fn on_output_spec(m: SessionsView, id: u128, now: u64)
    -> (SessionsView, Option<NotificationType>, TimerAction)
{
    let none = TimerAction { cancel: false, arm_secs: None };
    if !m.contains_key(id) {
        (m, None, none)
    } else {
        let s = m[id];
        match s.mode {
            MonitorMode::Off => (m, None, none),
            MonitorMode::Activity => {
                let fire = elapsed_ms(s.last_output_ms, now) >= s.quiet_period_secs * 1000
                    && !s.notification_active;
                (
                    m.insert(id, SessionActivityState {
                        last_output_ms: now,
                        notification_active: s.notification_active || fire,
                        ..s
                    }),
                    if fire { Some(NotificationType::Activity) } else { None },
                    none,
                )
            },
            MonitorMode::Silence => (
                m.insert(id, SessionActivityState {
                    last_output_ms: now,
                    silence_timer_armed: true,
                    ..s
                }),
                None,
                TimerAction { cancel: s.silence_timer_armed, arm_secs: Some(s.silence_timeout_secs) },
            ),
            MonitorMode::Command => (
                m.insert(id, SessionActivityState { last_output_ms: now, ..s }),
                None,
                none,
            ),
        }
    }
}

/// Transition for [`ActivityCoordinator::on_command_finished`].
pub open spec fn on_command_finished_spec(m: SessionsView, id: u128, exit_code: Option<u64>, now: u64)
    -> (SessionsView, Option<NotificationType>)
{
    if m.contains_key(id) && m[id].mode == MonitorMode::Command {
        (
            m.insert(id, SessionActivityState {
                last_output_ms: now,
                notification_active: true,
                ..m[id]
            }),
            Some(NotificationType::CommandFinished { exit_code }),
        )
    } else {
        (m, None)
    }
}

/// Transition for [`ActivityCoordinator::on_tab_switched`].
pub open spec fn tab_switched_spec(m: SessionsView, id: u128) -> SessionsView {
    if m.contains_key(id) {
        m.insert(id, SessionActivityState { notification_active: false, ..m[id] })
    } else {
        m
    }
}

/// Transition for [`ActivityCoordinator::set_mode`].
pub open spec fn set_mode_spec(m: SessionsView, id: u128, mode: MonitorMode, now: u64)
    -> (SessionsView, TimerAction)
{
    if m.contains_key(id) {
        (
            m.insert(id, SessionActivityState {
                mode,
                notification_active: false,
                last_output_ms: now,
                silence_timer_armed: mode == MonitorMode::Silence,
                ..m[id]
            }),
            TimerAction {
                cancel: m[id].silence_timer_armed,
                arm_secs: if mode == MonitorMode::Silence {
                    Some(m[id].silence_timeout_secs)
                } else {
                    None
                },
            },
        )
    } else {
        (m, TimerAction { cancel: false, arm_secs: None })
    }
}

/// Transition for [`ActivityCoordinator::silence_timer_fired`].
pub open spec fn timer_fired_spec(m: SessionsView, id: u128) -> (SessionsView, Option<NotificationType>) {
    if m.contains_key(id) {
        (
            m.insert(id, SessionActivityState {
                notification_active: true,
                silence_timer_armed: false,
                ..m[id]
            }),
            Some(NotificationType::Silence),
        )
    } else {
        (m, None)
    }
}

/// A silence timer is pending only for a session in silence mode.
pub open spec fn sessions_wf(m: SessionsView) -> bool {
    forall|id: u128| #[trigger] m.contains_key(id) && m[id].silence_timer_armed ==> m[id].mode
        == MonitorMode::Silence
}

/// Command mode reports every finished command, each with its exit code
/// unchanged, and stays in command mode so the next one is reported too.
pub proof fn law_every_command_notifies(m: SessionsView, id: u128, code: Option<u64>, now: u64)
    requires
        m.contains_key(id),
        m[id].mode == MonitorMode::Command,
    ensures
        on_command_finished_spec(m, id, code, now).1 == Some(NotificationType::CommandFinished { exit_code: code }),
        on_command_finished_spec(m, id, code, now).0[id].mode == MonitorMode::Command,
        on_command_finished_spec(m, id, code, now).0.dom() == m.dom(),
{
}

/// The other modes, and untracked sessions, ignore a finished command and
/// change nothing.
pub proof fn law_finished_command_ignored_outside_command_mode(
    m: SessionsView,
    id: u128,
    code: Option<u64>,
    now: u64,
)
    requires
        !(m.contains_key(id) && m[id].mode == MonitorMode::Command),
    ensures
        on_command_finished_spec(m, id, code, now) == (m, None::<NotificationType>),
{
}

/// Output never notifies in command mode (the event is the finished command,
/// not the bytes), nor in off mode, nor for an untracked session.
pub proof fn law_output_does_not_notify_outside_timing_modes(m: SessionsView, id: u128, now: u64)
    requires
        !m.contains_key(id) || m[id].mode == MonitorMode::Command || m[id].mode == MonitorMode::Off,
    ensures
        on_output_spec(m, id, now).1 is None,
{
}

/// Output in silence mode restarts the silence countdown: the pending timer is
/// replaced by one for the full timeout, and no notification fires directly.
pub proof fn law_silence_output_rearms(m: SessionsView, id: u128, now: u64)
    requires
        m.contains_key(id),
        m[id].mode == MonitorMode::Silence,
        sessions_wf(m),
    ensures
        on_output_spec(m, id, now).1 is None,
        on_output_spec(m, id, now).2 == (TimerAction {
            cancel: m[id].silence_timer_armed,
            arm_secs: Some(m[id].silence_timeout_secs),
        }),
        on_output_spec(m, id, now).0[id].silence_timer_armed,
{
}

/// Once an activity notification fired, further output stays quiet until the
/// user visits the tab.
pub proof fn law_activity_waits_for_tab_visit(m: SessionsView, id: u128, t1: u64, t2: u64)
    requires
        on_output_spec(m, id, t1).1 == Some(NotificationType::Activity),
    ensures
        on_output_spec(on_output_spec(m, id, t1).0, id, t2).1 is None,
{
}

/// After the tab is visited, output after a long enough quiet period notifies
/// again.
pub proof fn law_activity_resumes_after_tab_visit(m: SessionsView, id: u128, now: u64)
    requires
        m.contains_key(id),
        m[id].mode == MonitorMode::Activity,
        elapsed_ms(m[id].last_output_ms, now) >= m[id].quiet_period_secs * 1000,
    ensures
        on_output_spec(tab_switched_spec(m, id), id, now).1 == Some(NotificationType::Activity),
{
}

/// Setting a mode is what reading it back reports, and the notification
/// indicator is cleared.
pub proof fn law_set_mode_then_get(m: SessionsView, id: u128, mode: MonitorMode, now: u64)
    requires
        m.contains_key(id),
    ensures
        set_mode_spec(m, id, mode, now).0.contains_key(id),
        set_mode_spec(m, id, mode, now).0[id].mode == mode,
        !set_mode_spec(m, id, mode, now).0[id].notification_active,
{
}

/// A stopped session is forgotten: every later event for it is ignored.
pub proof fn law_stopped_session_is_ignored(m: SessionsView, id: u128, code: Option<u64>, now: u64)
    ensures
        on_command_finished_spec(stop_spec(m, id).0, id, code, now).1 is None,
        on_output_spec(stop_spec(m, id).0, id, now).1 is None,
        timer_fired_spec(stop_spec(m, id).0, id).1 is None,
        !stop_spec(m, id).0.contains_key(id),
{
}

/// Every transition keeps the invariant that a silence timer is pending only
/// for a session in silence mode.
pub proof fn law_timer_only_in_silence_mode(
    m: SessionsView,
    id: u128,
    mode: MonitorMode,
    quiet: u32,
    silence: u32,
    code: Option<u64>,
    now: u64,
)
    requires
        sessions_wf(m),
    ensures
        sessions_wf(start_spec(m, id, mode, quiet, silence, now).0),
        sessions_wf(stop_spec(m, id).0),
        sessions_wf(on_output_spec(m, id, now).0),
        sessions_wf(on_command_finished_spec(m, id, code, now).0),
        sessions_wf(tab_switched_spec(m, id)),
        sessions_wf(set_mode_spec(m, id, mode, now).0),
        sessions_wf(timer_fired_spec(m, id).0),
{
    assert(sessions_wf(start_spec(m, id, mode, quiet, silence, now).0));
    assert(sessions_wf(stop_spec(m, id).0));
    assert(sessions_wf(on_output_spec(m, id, now).0));
    assert(sessions_wf(on_command_finished_spec(m, id, code, now).0));
    assert(sessions_wf(tab_switched_spec(m, id)));
    assert(sessions_wf(set_mode_spec(m, id, mode, now).0));
    assert(sessions_wf(timer_fired_spec(m, id).0));
}

/// Per-session activity and silence coordinator.
pub struct ActivityCoordinator {
    sessions: HashMap<u128, SessionActivityState>,
}

impl View for ActivityCoordinator {
    type V = SessionsView;

    closed spec fn view(&self) -> SessionsView {
        self.sessions@
    }
}

impl ActivityCoordinator {
    /// Well-formedness: see [`sessions_wf`].
    pub open spec fn wf(&self) -> bool {
        sessions_wf(self@)
    }

    /// A coordinator with no sessions.
    pub fn new() -> (c: ActivityCoordinator)
        ensures
            c@ == Map::<u128, SessionActivityState>::empty(),
            c.wf(),
    {
        ActivityCoordinator { sessions: HashMap::new() }
    }

    /// Starts (or restarts) monitoring a session at time `now_ms`.
    pub fn start(&mut self, session_id: u128, mode: MonitorMode, quiet: u32, silence: u32, now_ms: u64)
        -> (action: TimerAction)
        requires
            old(self).wf(),
        ensures
            final(self).wf(),
            (final(self)@, action) == start_spec(old(self)@, session_id, mode, quiet, silence, now_ms),
    {
        let cancel = match self.sessions.get(&session_id) {
            Some(s) => s.silence_timer_armed,
            None => false,
        };
        let state = SessionActivityState {
            mode,
            quiet_period_secs: quiet,
            silence_timeout_secs: silence,
            last_output_ms: now_ms,
            notification_active: false,
            silence_timer_armed: mode == MonitorMode::Silence,
        };
        self.sessions.insert(session_id, state);
        let arm_secs = if mode == MonitorMode::Silence { Some(silence) } else { None };
        TimerAction { cancel, arm_secs }
    }

    /// Stops monitoring a session.
    pub fn stop(&mut self, session_id: u128) -> (action: TimerAction)
        requires
            old(self).wf(),
        ensures
            final(self).wf(),
            (final(self)@, action) == stop_spec(old(self)@, session_id),
    {
        let cancel = match self.sessions.get(&session_id) {
            Some(s) => s.silence_timer_armed,
            None => false,
        };
        self.sessions.remove(&session_id);
        TimerAction { cancel, arm_secs: None }
    }

    /// Stops every session (e.g. on shutdown). Returns the sessions whose
    /// pending silence timers the caller must cancel.
    pub fn stop_all(&mut self) -> (cancel: Vec<u128>)
        requires
            old(self).wf(),
        ensures
            final(self).wf(),
            final(self)@ == Map::<u128, SessionActivityState>::empty(),
            forall|id: u128| cancel@.contains(id) <==> armed(old(self)@, id),
    {
        let ghost start = self@;
        let ghost all = vstd::std_specs::hash::spec_keys_iter(&self.sessions).remaining().unref();
        let mut ids: Vec<u128> = Vec::new();
        for k in it: self.sessions.keys()
            invariant
                it.seq().unref() == all,
                ids@.len() == it.index(),
                forall|j: int| 0 <= j < it.index() ==> ids@[j] == *it.seq()[j],
        {
            ids.push(*k);
        }
        proof {
            assert(ids@ =~= all);
        }
        let mut cancel: Vec<u128> = Vec::new();
        let mut i: usize = 0;
        while i < ids.len()
            invariant
                self.wf(),
                i <= ids@.len(),
                ids@.to_set() == start.dom(),
                ids@.no_duplicates(),
                forall|id: u128| #[trigger] self@.contains_key(id) <==> start.contains_key(id)
                    && !ids@.subrange(0, i as int).contains(id),
                forall|id: u128| self@.contains_key(id) ==> #[trigger] self@[id] == start[id],
                forall|id: u128| cancel@.contains(id) <==> armed(start, id) && ids@.subrange(0, i as int).contains(id),
            decreases ids@.len() - i,
        {
            let id = ids[i];
            let ghost before = self@;
            let ghost before_cancel = cancel@;
            let action = self.stop(id);
            if action.cancel {
                cancel.push(id);
            }
            proof {
                assert forall|x: u128| cancel@.contains(x) <==> before_cancel.contains(x) || (
                action.cancel && x == id) by {
                    if action.cancel {
                        assert(cancel@ == before_cancel.push(id));
                        if x == id {
                            assert(cancel@[before_cancel.len() as int] == id);
                        }
                        if before_cancel.contains(x) {
                            let j = choose|j: int| 0 <= j < before_cancel.len() && before_cancel[j] == x;
                            assert(cancel@[j] == x);
                        }
                        if cancel@.contains(x) {
                            let j = choose|j: int| 0 <= j < cancel@.len() && cancel@[j] == x;
                            if j < before_cancel.len() {
                                assert(before_cancel[j] == x);
                            }
                        }
                    }
                }
                assert(action.cancel == armed(start, id)) by {
                    if before.contains_key(id) {
                        assert(before[id] == start[id]);
                    }
                }
                let pre = ids@.subrange(0, i as int);
                let post = ids@.subrange(0, i + 1);
                assert forall|x: u128| post.contains(x) <==> pre.contains(x) || x == id by {
                    if x == id {
                        assert(post[i as int] == id);
                    }
                    if pre.contains(x) {
                        let j = choose|j: int| 0 <= j < pre.len() && pre[j] == x;
                        assert(post[j] == x);
                    }
                    if post.contains(x) {
                        let j = choose|j: int| 0 <= j < post.len() && post[j] == x;
                        if j < i {
                            assert(pre[j] == x);
                        }
                    }
                }
                assert(!ids@.subrange(0, i as int).contains(id)) by {
                    if ids@.subrange(0, i as int).contains(id) {
                        let j = choose|j: int| 0 <= j < i && ids@.subrange(0, i as int)[j] == id;
                        assert(ids@[j] == ids@[i as int]);
                    }
                }
                assert(start.contains_key(id)) by {
                    assert(ids@.to_set().contains(id));
                }
                assert forall|x: u128| cancel@.contains(x) <==> armed(start, x) && post.contains(x) by {
                    assert(before_cancel.contains(x) <==> armed(start, x) && pre.contains(x));
                    assert(post.contains(x) <==> pre.contains(x) || x == id);
                }
            }
            i = i + 1;
        }
        proof {
            assert(ids@.subrange(0, ids@.len() as int) =~= ids@);
            assert forall|id: u128| !self@.contains_key(id) by {
                if start.contains_key(id) {
                    assert(ids@.to_set().contains(id));
                }
            }
            assert(self@ =~= Map::<u128, SessionActivityState>::empty());
            assert forall|id: u128| cancel@.contains(id) <==> armed(start, id) by {
                if armed(start, id) {
                    assert(ids@.to_set().contains(id));
                }
            }
        }
        cancel
    }

    /// Called when the session's terminal produced output at `now_ms`.
    pub fn on_output(&mut self, session_id: u128, now_ms: u64)
        -> (r: (Option<NotificationType>, TimerAction))
        requires
            old(self).wf(),
        ensures
            final(self).wf(),
            (final(self)@, r.0, r.1) == on_output_spec(old(self)@, session_id, now_ms),
    {
        let none = TimerAction { cancel: false, arm_secs: None };
        let s = match self.sessions.get(&session_id) {
            Some(s) => *s,
            None => return (None, none),
        };
        match s.mode {
            MonitorMode::Off => (None, none),
            MonitorMode::Activity => {
                let elapsed: u64 = if now_ms >= s.last_output_ms { now_ms - s.last_output_ms } else { 0 };
                let quiet_ms: u64 = (s.quiet_period_secs as u64) * 1000;
                let fire = elapsed >= quiet_ms && !s.notification_active;
                let updated = SessionActivityState {
                    last_output_ms: now_ms,
                    notification_active: s.notification_active || fire,
                    ..s
                };
                self.sessions.insert(session_id, updated);
                if fire {
                    (Some(NotificationType::Activity), none)
                } else {
                    (None, none)
                }
            },
            MonitorMode::Silence => {
                let updated = SessionActivityState {
                    last_output_ms: now_ms,
                    silence_timer_armed: true,
                    ..s
                };
                self.sessions.insert(session_id, updated);
                (None, TimerAction { cancel: s.silence_timer_armed, arm_secs: Some(s.silence_timeout_secs) })
            },
            MonitorMode::Command => {
                let updated = SessionActivityState { last_output_ms: now_ms, ..s };
                self.sessions.insert(session_id, updated);
                (None, none)
            },
        }
    }

    /// Called when the remote shell reports that a command returned.
    ///
    /// Notifies only for a tracked session in command mode, every time.
    pub fn on_command_finished(&mut self, session_id: u128, exit_code: Option<u64>, now_ms: u64)
        -> (n: Option<NotificationType>)
        requires
            old(self).wf(),
        ensures
            final(self).wf(),
            (final(self)@, n) == on_command_finished_spec(old(self)@, session_id, exit_code, now_ms),
            n is Some <==> (old(self)@.contains_key(session_id) && old(self)@[session_id].mode
                == MonitorMode::Command),
    {
        let s = match self.sessions.get(&session_id) {
            Some(s) => *s,
            None => return None,
        };
        if s.mode != MonitorMode::Command {
            return None;
        }
        let updated = SessionActivityState { last_output_ms: now_ms, notification_active: true, ..s };
        self.sessions.insert(session_id, updated);
        Some(NotificationType::CommandFinished { exit_code })
    }

    /// Called when the user switches to the session's tab.
    pub fn on_tab_switched(&mut self, session_id: u128)
        requires
            old(self).wf(),
        ensures
            final(self).wf(),
            final(self)@ == tab_switched_spec(old(self)@, session_id),
    {
        let s = match self.sessions.get(&session_id) {
            Some(s) => *s,
            None => return,
        };
        self.sessions.insert(session_id, SessionActivityState { notification_active: false, ..s });
    }

    /// Sets a tracked session's mode at time `now_ms`.
    pub fn set_mode(&mut self, session_id: u128, mode: MonitorMode, now_ms: u64) -> (action: TimerAction)
        requires
            old(self).wf(),
        ensures
            final(self).wf(),
            (final(self)@, action) == set_mode_spec(old(self)@, session_id, mode, now_ms),
    {
        let s = match self.sessions.get(&session_id) {
            Some(s) => *s,
            None => return TimerAction { cancel: false, arm_secs: None },
        };
        let updated = SessionActivityState {
            mode,
            notification_active: false,
            last_output_ms: now_ms,
            silence_timer_armed: mode == MonitorMode::Silence,
            ..s
        };
        self.sessions.insert(session_id, updated);
        let arm_secs = if mode == MonitorMode::Silence { Some(s.silence_timeout_secs) } else { None };
        TimerAction { cancel: s.silence_timer_armed, arm_secs }
    }

    /// Advances a tracked session to the next mode; an untracked session
    /// reports `Off` and nothing changes.
    pub fn cycle_mode(&mut self, session_id: u128, now_ms: u64) -> (r: (MonitorMode, TimerAction))
        requires
            old(self).wf(),
        ensures
            final(self).wf(),
            old(self)@.contains_key(session_id) ==> r.0 == next_mode(old(self)@[session_id].mode)
                && (final(self)@, r.1) == set_mode_spec(old(self)@, session_id, r.0, now_ms),
            !old(self)@.contains_key(session_id) ==> r.0 == MonitorMode::Off && final(self)@
                == old(self)@ && r.1 == (TimerAction { cancel: false, arm_secs: None }),
    {
        let current = match self.sessions.get(&session_id) {
            Some(s) => s.mode,
            None => return (MonitorMode::Off, TimerAction { cancel: false, arm_secs: None }),
        };
        let new_mode = current.next();
        let action = self.set_mode(session_id, new_mode, now_ms);
        (new_mode, action)
    }

    /// The mode of a tracked session.
    pub fn get_mode(&self, session_id: u128) -> (m: Option<MonitorMode>)
        ensures
            m == (if self@.contains_key(session_id) { Some(self@[session_id].mode) } else { None }),
    {
        match self.sessions.get(&session_id) {
            Some(s) => Some(s.mode),
            None => None,
        }
    }

    /// Called when the caller's silence timer for a session expired.
    pub fn silence_timer_fired(&mut self, session_id: u128) -> (n: Option<NotificationType>)
        requires
            old(self).wf(),
        ensures
            final(self).wf(),
            (final(self)@, n) == timer_fired_spec(old(self)@, session_id),
    {
        let s = match self.sessions.get(&session_id) {
            Some(s) => *s,
            None => return None,
        };
        self.sessions.insert(session_id, SessionActivityState {
            notification_active: true,
            silence_timer_armed: false,
            ..s
        });
        Some(NotificationType::Silence)
    }
}

} // verus!
