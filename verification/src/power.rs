//! Suspend/resume decisions of the launcher's power monitor.
use vstd::prelude::*;

verus! {

/// Seconds to wait after wake before respawning: the USB stack needs a
/// moment to re-enumerate the LCD UART.
pub const RESUME_SETTLE_SECS: u64 = 4;

/// Seconds between writing "off" on suspend and stopping the children, so
/// the panel process can blank the LCD first.
pub const SUSPEND_BLANK_GRACE_SECS: u64 = 2;

/// How often the stuck-marker watcher looks for the marker, in seconds.
pub const STUCK_POLL_STEP_SECS: u64 = 2;

/// Minimum gap, in seconds, between USB re-enumerations triggered by the
/// stuck marker.
pub const STUCK_RESCAN_COOLDOWN_SECS: u64 = 30;

/// Classification of a suspend/resume notification type.
#[derive(Debug, Clone, Copy, PartialEq, Eq, Structural)]
pub enum PowerEvent {
    Suspend,
    Resume,
    Other,
}

/// The class of a notification type: `PBT_APMSUSPEND` (4) and
/// `PBT_APMSTANDBY` (5) suspend; `PBT_APMRESUMECRITICAL` (6),
/// `PBT_APMRESUMESUSPEND` (7), `PBT_APMRESUMESTANDBY` (8) and
/// `PBT_APMRESUMEAUTOMATIC` (18) resume.
pub open spec fn power_event_class(wparam: usize) -> PowerEvent {
    if wparam == 4 || wparam == 5 {
        PowerEvent::Suspend
    } else if wparam == 6 || wparam == 7 || wparam == 8 || wparam == 18 {
        PowerEvent::Resume
    } else {
        PowerEvent::Other
    }
}

/// Classifies a power notification type.
pub fn classify_power_event(wparam: usize) -> (e: PowerEvent)
    ensures
        e == power_event_class(wparam),
{
    match wparam {
        4 | 5 => PowerEvent::Suspend,
        6 | 7 | 8 | 18 => PowerEvent::Resume,
        _ => PowerEvent::Other,
    }
}

/// Decision of the stuck-marker watcher: act only when re-enumeration is
/// enabled, the machine is awake, a marker is present, and the cooldown has
/// elapsed.
pub fn stuck_watcher_should_act(
    restart_uart_on_resume: bool,
    suspended: bool,
    marker_present: bool,
    cooldown_elapsed: bool,
) -> (act: bool)
    ensures
        act == (restart_uart_on_resume && !suspended && marker_present && cooldown_elapsed),
{
    restart_uart_on_resume && !suspended && marker_present && cooldown_elapsed
}

/// What the power monitor does for one notification.
#[derive(Debug, Clone, Copy, PartialEq, Eq, Structural)]
pub enum PowerAction {
    /// Blank the display, then stop the children for the sleep.
    SuspendChildren,
    /// Wake flow: settle, re-enumerate the UART when `restart_uart`,
    /// re-arm the display and respawn the children.
    ResumeChildren { restart_uart: bool },
    /// A second resume notification for the same wake: nothing to do.
    IgnoreResume,
    /// Not a suspend/resume notification.
    Nothing,
}

/// One step of a power action, performed in order by the application.
#[derive(Debug, Clone, Copy, PartialEq, Eq, Structural)]
pub enum PowerStep {
    /// Write "off" to the display-state file (the panel sends CloseTFT).
    BlankDisplay,
    /// Sleep the given number of seconds.
    Wait(u64),
    /// Set the flag that keeps the child watchers from spawning.
    SetSuspended,
    /// Kill every running child.
    KillChildren,
    /// Re-enumerate the LCD's USB UART.
    RestartUart,
    /// Clear the sleep override and rewrite the display mode's state.
    ResumeDisplay,
    /// Remove a leftover stuck marker.
    RemoveStuckMarker,
    /// Clear the suspend flag: the watchers respawn the children.
    ClearSuspended,
}

/// Seconds the stuck-marker escalation waits after re-enumerating the UART
/// before the children may respawn.
pub const STUCK_RESTART_SETTLE_SECS: u64 = 2;

/// The steps of an action, in order. Suspend: blank the display, give the
/// panel the grace to apply it, then mark the machine asleep and stop the
/// children. Wake: settle, re-enumerate the UART (only when configured),
/// re-arm the display, drop a stale stuck marker, and only then let the
/// children respawn.
pub open spec fn spec_action_steps(a: PowerAction) -> Seq<PowerStep> {
    match a {
        PowerAction::SuspendChildren => seq![
            PowerStep::BlankDisplay,
            PowerStep::Wait(SUSPEND_BLANK_GRACE_SECS),
            PowerStep::SetSuspended,
            PowerStep::KillChildren,
        ],
        PowerAction::ResumeChildren { restart_uart } => seq![
            PowerStep::Wait(RESUME_SETTLE_SECS),
        ] + (if restart_uart {
            seq![PowerStep::RestartUart]
        } else {
            Seq::<PowerStep>::empty()
        }) + seq![
            PowerStep::ResumeDisplay,
            PowerStep::RemoveStuckMarker,
            PowerStep::ClearSuspended,
        ],
        PowerAction::IgnoreResume => Seq::empty(),
        PowerAction::Nothing => Seq::empty(),
    }
}

/// The steps that carry out `action`, in order.
pub fn action_steps(action: PowerAction) -> (steps: Vec<PowerStep>)
    ensures
        steps@ == spec_action_steps(action),
{
    match action {
        PowerAction::SuspendChildren => vec![
            PowerStep::BlankDisplay,
            PowerStep::Wait(SUSPEND_BLANK_GRACE_SECS),
            PowerStep::SetSuspended,
            PowerStep::KillChildren,
        ],
        PowerAction::ResumeChildren { restart_uart } => {
            let mut steps = vec![PowerStep::Wait(RESUME_SETTLE_SECS)];
            if restart_uart {
                steps.push(PowerStep::RestartUart);
            }
            steps.push(PowerStep::ResumeDisplay);
            steps.push(PowerStep::RemoveStuckMarker);
            steps.push(PowerStep::ClearSuspended);
            assert(steps@ =~= spec_action_steps(action));
            steps
        },
        PowerAction::IgnoreResume => Vec::new(),
        PowerAction::Nothing => Vec::new(),
    }
}

/// The stuck-marker escalation, in order: keep the watchers from
/// respawning, stop the children, drop the marker, re-enumerate the UART,
/// let it settle, then let the children respawn.
pub open spec fn spec_stuck_escalation_steps() -> Seq<PowerStep> {
    seq![
        PowerStep::SetSuspended,
        PowerStep::KillChildren,
        PowerStep::RemoveStuckMarker,
        PowerStep::RestartUart,
        PowerStep::Wait(STUCK_RESTART_SETTLE_SECS),
        PowerStep::ClearSuspended,
    ]
}

/// The steps of one stuck-marker escalation round, in order.
pub fn stuck_escalation_steps() -> (steps: Vec<PowerStep>)
    ensures
        steps@ == spec_stuck_escalation_steps(),
{
    let steps = vec![
        PowerStep::SetSuspended,
        PowerStep::KillChildren,
        PowerStep::RemoveStuckMarker,
        PowerStep::RestartUart,
        PowerStep::Wait(STUCK_RESTART_SETTLE_SECS),
        PowerStep::ClearSuspended,
    ];
    assert(steps@ =~= spec_stuck_escalation_steps());
    steps
}

/// The sleep/wake flows keep their order: the display is blanked, and the
/// panel given its grace, before any child is stopped; on wake the UART is
/// re-enumerated only when configured, and the children may respawn only
/// as the last step, after the re-enumeration.
pub proof fn lemma_power_steps_order(restart_uart: bool)
    ensures
        spec_action_steps(PowerAction::SuspendChildren)[0] == PowerStep::BlankDisplay,
        spec_action_steps(PowerAction::SuspendChildren)[1] == PowerStep::Wait(
            SUSPEND_BLANK_GRACE_SECS,
        ),
        spec_action_steps(PowerAction::SuspendChildren).last() == PowerStep::KillChildren,
        spec_action_steps(PowerAction::ResumeChildren { restart_uart })[0] == PowerStep::Wait(
            RESUME_SETTLE_SECS,
        ),
        spec_action_steps(PowerAction::ResumeChildren { restart_uart }).contains(
            PowerStep::RestartUart,
        ) == restart_uart,
        spec_action_steps(PowerAction::ResumeChildren { restart_uart }).last()
            == PowerStep::ClearSuspended,
        forall|i: int|
            0 <= i < spec_action_steps(PowerAction::ResumeChildren { restart_uart }).len() - 1
                ==> #[trigger] spec_action_steps(PowerAction::ResumeChildren { restart_uart })[i]
                != PowerStep::ClearSuspended,
{
    let r = spec_action_steps(PowerAction::ResumeChildren { restart_uart });
    if restart_uart {
        assert(r[1] == PowerStep::RestartUart);
    } else {
        assert(forall|i: int| 0 <= i < r.len() ==> #[trigger] r[i] != PowerStep::RestartUart);
    }
}

/// The resume latch: Windows can send several Resume notifications for one
/// wake, and only the first after a Suspend may act.
pub struct PowerMonitor {
    resume_handled: bool,
    restart_uart_on_resume: bool,
}

/// The new latch flag after one notification.
pub open spec fn latch_step(resume_handled: bool, event: PowerEvent) -> bool {
    match event {
        PowerEvent::Suspend => false,
        PowerEvent::Resume => true,
        PowerEvent::Other => resume_handled,
    }
}

/// The action for one notification, given the latch flag and whether the
/// UART is re-enumerated on wake.
pub open spec fn power_action(resume_handled: bool, restart_uart: bool, event: PowerEvent) -> PowerAction {
    match event {
        PowerEvent::Suspend => PowerAction::SuspendChildren,
        PowerEvent::Resume => if resume_handled {
            PowerAction::IgnoreResume
        } else {
            PowerAction::ResumeChildren { restart_uart }
        },
        PowerEvent::Other => PowerAction::Nothing,
    }
}

impl PowerMonitor {
    /// True once a Resume has been acted on for the current sleep cycle.
    pub closed spec fn resume_handled(&self) -> bool {
        self.resume_handled
    }

    /// Whether wake re-enumerates the UART (`restart_uart_on_resume`).
    pub closed spec fn restart_uart(&self) -> bool {
        self.restart_uart_on_resume
    }

    /// A new monitor: a Resume with no preceding Suspend is ignored.
    pub fn new(restart_uart_on_resume: bool) -> (m: PowerMonitor)
        ensures
            m.resume_handled(),
            m.restart_uart() == restart_uart_on_resume,
    {
        PowerMonitor { resume_handled: true, restart_uart_on_resume }
    }

    /// Handles one notification type and returns the action to perform.
    pub fn on_event(&mut self, wparam: usize) -> (action: PowerAction)
        ensures
            final(self).resume_handled() == latch_step(
                old(self).resume_handled(),
                power_event_class(wparam),
            ),
            final(self).restart_uart() == old(self).restart_uart(),
            action == power_action(
                old(self).resume_handled(),
                old(self).restart_uart(),
                power_event_class(wparam),
            ),
    {
        match classify_power_event(wparam) {
            PowerEvent::Suspend => {
                // Arm the Resume handler for the next wake.
                self.resume_handled = false;
                PowerAction::SuspendChildren
            },
            PowerEvent::Resume => {
                if self.resume_handled {
                    PowerAction::IgnoreResume
                } else {
                    self.resume_handled = true;
                    PowerAction::ResumeChildren { restart_uart: self.restart_uart_on_resume }
                }
            },
            PowerEvent::Other => PowerAction::Nothing,
        }
    }
}

/// The latch flag after the first `i` notifications of `events`.
pub open spec fn latch_after(resume_handled: bool, events: Seq<PowerEvent>, i: int) -> bool
    decreases i,
{
    if i <= 0 {
        resume_handled
    } else {
        latch_step(latch_after(resume_handled, events, i - 1), events[i - 1])
    }
}

/// The action taken for notification `i` of `events`.
pub open spec fn action_at(
    resume_handled: bool,
    restart_uart: bool,
    events: Seq<PowerEvent>,
    i: int,
) -> PowerAction {
    power_action(latch_after(resume_handled, events, i), restart_uart, events[i])
}

/// No Resume strictly between positions `a` and `b`.
pub open spec fn no_resume_between(events: Seq<PowerEvent>, a: int, b: int) -> bool {
    forall|k: int| a < k < b ==> #[trigger] events[k] != PowerEvent::Resume
}

/// Position `j` holds a Suspend with no Resume after it before position `i`.
pub open spec fn suspend_open_at(events: Seq<PowerEvent>, j: int, i: int) -> bool {
    0 <= j < i && events[j] == PowerEvent::Suspend && no_resume_between(events, j, i)
}

/// True when a wake at position `i` is owed a wake flow: some Suspend came
/// before it with no Resume in between, or the latch started armed and no
/// Resume came before it.
pub open spec fn wake_pending(resume_handled: bool, events: Seq<PowerEvent>, i: int) -> bool {
    ||| exists|j: int| #[trigger] suspend_open_at(events, j, i)
    ||| (!resume_handled && no_resume_between(events, -1, i))
}

proof fn lemma_pending_after_suspend(resume_handled: bool, events: Seq<PowerEvent>, p: int)
    requires
        0 <= p < events.len(),
        events[p] == PowerEvent::Suspend,
    ensures
        wake_pending(resume_handled, events, p + 1),
{
    assert(suspend_open_at(events, p, p + 1));
}

proof fn lemma_not_pending_after_resume(resume_handled: bool, events: Seq<PowerEvent>, p: int)
    requires
        0 <= p < events.len(),
        events[p] == PowerEvent::Resume,
    ensures
        !wake_pending(resume_handled, events, p + 1),
{
    assert forall|j: int| !#[trigger] suspend_open_at(events, j, p + 1) by {
        if 0 <= j < p + 1 && events[j] == PowerEvent::Suspend {
            assert(j < p);
            assert(events[p] == PowerEvent::Resume);
        }
    }
    assert(!no_resume_between(events, -1, p + 1)) by {
        assert(events[p] == PowerEvent::Resume);
    }
}

proof fn lemma_pending_kept_by_other(resume_handled: bool, events: Seq<PowerEvent>, p: int)
    requires
        0 <= p < events.len(),
        events[p] == PowerEvent::Other,
    ensures
        wake_pending(resume_handled, events, p + 1) == wake_pending(resume_handled, events, p),
{
    assert forall|j: int| #[trigger] suspend_open_at(events, j, p + 1) == suspend_open_at(events, j, p) by {
        if 0 <= j < p {
            assert(no_resume_between(events, j, p + 1) == no_resume_between(events, j, p)) by {
                if no_resume_between(events, j, p) {
                    assert forall|k: int| j < k < p + 1 implies #[trigger] events[k] != PowerEvent::Resume by {
                        if k < p {
                            assert(events[k] != PowerEvent::Resume);
                        }
                    }
                }
            }
        }
    }
    assert(no_resume_between(events, -1, p + 1) == no_resume_between(events, -1, p)) by {
        if no_resume_between(events, -1, p) {
            assert forall|k: int| -1 < k < p + 1 implies #[trigger] events[k] != PowerEvent::Resume by {
                if k < p {
                    assert(events[k] != PowerEvent::Resume);
                }
            }
        }
    }
    if wake_pending(resume_handled, events, p + 1) {
        if exists|j: int| #[trigger] suspend_open_at(events, j, p + 1) {
            let j = choose|j: int| #[trigger] suspend_open_at(events, j, p + 1);
            assert(suspend_open_at(events, j, p));
        }
    }
    if wake_pending(resume_handled, events, p) {
        if exists|j: int| #[trigger] suspend_open_at(events, j, p) {
            let j = choose|j: int| #[trigger] suspend_open_at(events, j, p);
            assert(suspend_open_at(events, j, p + 1));
        }
    }
}

proof fn lemma_latch_tracks_pending(resume_handled: bool, events: Seq<PowerEvent>, i: int)
    requires
        0 <= i <= events.len(),
    ensures
        !latch_after(resume_handled, events, i) == wake_pending(resume_handled, events, i),
    decreases i,
{
    if i == 0 {
        assert forall|j: int| !#[trigger] suspend_open_at(events, j, 0) by {}
    } else {
        let p = i - 1;
        lemma_latch_tracks_pending(resume_handled, events, p);
        if events[p] == PowerEvent::Suspend {
            lemma_pending_after_suspend(resume_handled, events, p);
        } else if events[p] == PowerEvent::Resume {
            lemma_not_pending_after_resume(resume_handled, events, p);
        } else {
            lemma_pending_kept_by_other(resume_handled, events, p);
        }
    }
}

/// Exactly one wake flow per sleep: a Resume notification starts the wake
/// flow when, and only when, a Suspend came before it with no other Resume
/// in between (Windows can send several Resumes for one wake); a Resume with
/// no Suspend before it does nothing on a fresh monitor.
pub proof fn lemma_one_wake_flow_per_sleep(
    resume_handled: bool,
    restart_uart: bool,
    events: Seq<PowerEvent>,
    i: int,
)
    requires
        0 <= i < events.len(),
        events[i] == PowerEvent::Resume,
    ensures
        action_at(resume_handled, restart_uart, events, i) == (if wake_pending(
            resume_handled,
            events,
            i,
        ) {
            PowerAction::ResumeChildren { restart_uart }
        } else {
            PowerAction::IgnoreResume
        }),
{
    lemma_latch_tracks_pending(resume_handled, events, i);
}

/// Every Suspend notification stops the children and re-arms the latch.
pub proof fn lemma_suspend_always_acts(
    resume_handled: bool,
    restart_uart: bool,
    events: Seq<PowerEvent>,
    i: int,
)
    requires
        0 <= i < events.len(),
        events[i] == PowerEvent::Suspend,
    ensures
        action_at(resume_handled, restart_uart, events, i) == PowerAction::SuspendChildren,
        !latch_after(resume_handled, events, i + 1),
{
}

} // verus!
