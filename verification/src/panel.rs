//! Decisions of the sensor-panel process: the display-init retry budget,
//! the display-state file it follows, and the launcher heartbeat that
//! file doubles as.
use vstd::prelude::*;

use vstd::arithmetic::power2::{lemma2_to64, lemma_pow2_strictly_increases, pow2};
use vstd::bits::lemma_u64_shl_is_mul;

use crate::display::spec_state_file_text;
use crate::paths::{is_absolute_path, join_path, path_is_absolute, path_join};
use crate::text::{chars_of, trim, trim_bounds, trim_end, trim_start, range_equals};

verus! {

/// Display-init attempts before giving up (the first try plus five
/// retries).
pub const INIT_RETRY_ATTEMPTS: u32 = 6;

/// How long the display-state file may go unwritten before its writer (the
/// launcher) counts as gone, in seconds.
pub const LAUNCHER_HEARTBEAT_TIMEOUT_SECS: u64 = 10;

/// Poll cadence of the display-state file while waiting for the next
/// render tick, in seconds.
pub const STATE_POLL_STEP_SECS: u64 = 1;

/// Content of the "panel unresponsive" marker file.
pub const STUCK_MARKER_TEXT: &'static str = "stuck\n";

/// Backoff in seconds before display-init retry `attempt`: doubling from
/// one second, capped at 32.
pub open spec fn spec_init_backoff_secs(attempt: u32) -> u64 {
    pow2(if attempt < 5 { attempt as nat } else { 5 }) as u64
}

/// Backoff in seconds before the `attempt`-th display-init retry: 1, 2, 4,
/// ..., 32.
pub fn init_backoff_secs(attempt: u32) -> (secs: u64)
    ensures
        secs == spec_init_backoff_secs(attempt),
        1 <= secs <= 32,
{
    let shift: u64 = if attempt < 5 {
        attempt as u64
    } else {
        5
    };
    proof {
        lemma2_to64();
        lemma_u64_shl_is_mul(1, shift);
    }
    1u64 << shift
}

/// The init backoff never shrinks from one retry to the next.
pub proof fn lemma_init_backoff_monotonic(a: u32, b: u32)
    requires
        a <= b,
    ensures
        spec_init_backoff_secs(a) <= spec_init_backoff_secs(b),
{
    let ea: nat = if a < 5 { a as nat } else { 5 };
    let eb: nat = if b < 5 { b as nat } else { 5 };
    if ea < eb {
        lemma_pow2_strictly_increases(ea, eb);
    }
    lemma2_to64();
}

/// After display-init attempt `attempt` (counting from 0) failed: the
/// backoff before the next attempt, or `None` once
/// [`INIT_RETRY_ATTEMPTS`] attempts are used up and the error is returned.
pub fn init_retry_delay(attempt: u32) -> (delay: Option<u64>)
    ensures
        attempt + 1 < INIT_RETRY_ATTEMPTS ==> delay == Some(spec_init_backoff_secs(attempt)),
        attempt + 1 >= INIT_RETRY_ATTEMPTS ==> delay.is_none(),
{
    if attempt < INIT_RETRY_ATTEMPTS - 1 {
        Some(init_backoff_secs(attempt))
    } else {
        None
    }
}

/// Whether display-state file content asks for the display to be on: only
/// exactly `off` (after trimming whitespace) turns it off.
pub open spec fn spec_state_text_is_on(text: Seq<char>) -> bool {
    trim(text) != seq!['o', 'f', 'f']
}

/// Parses the content of a display-state file: exactly `off` (after
/// trimming) turns the display off; anything else keeps it on.
pub fn display_state_text_is_on(text: &str) -> (on: bool)
    ensures
        on == spec_state_text_is_on(text@),
{
    let cs = chars_of(text);
    let (a, b) = trim_bounds(&cs, 0, cs.len());
    assert(cs@.subrange(0, cs@.len() as int) =~= cs@);
    let off = range_equals(&cs, a, b, "off");
    proof {
        reveal_strlit("off");
        assert("off"@ =~= seq!['o', 'f', 'f']);
    }
    !off
}

/// A state the launcher writes reads back as that state: the file
/// content for "on" keeps the panel on and the one for "off" turns it off.
pub proof fn lemma_state_file_roundtrip(on: bool)
    ensures
        spec_state_text_is_on(spec_state_file_text(on)) == on,
{
    reveal_strlit("on\n");
    reveal_strlit("off\n");
    let t = spec_state_file_text(on);
    let w = if on { seq!['o', 'n'] } else { seq!['o', 'f', 'f'] };
    assert(t =~= w.push('\n'));
    assert(trim_start(t) == t) by {
        assert(!crate::text::is_ws(t[0]));
    }
    assert(t.drop_last() =~= w);
    assert(trim_end(t) == trim_end(w));
    assert(trim_end(w) == w) by {
        assert(!crate::text::is_ws(w.last()));
    }
    if on {
        assert(w.len() != 3);
    }
}

/// The launcher counts as gone when its heartbeat file was last written
/// more than `timeout_nanos` ago. `age_nanos` is `None` when the file's
/// age is unknown (missing file, unreadable metadata, clock trouble),
/// which counts as alive.
pub fn heartbeat_lost(age_nanos: Option<u128>, timeout_nanos: u128) -> (dead: bool)
    ensures
        dead == match age_nanos {
            Some(age) => age > timeout_nanos,
            None => false,
        },
{
    match age_nanos {
        Some(age) => age > timeout_nanos,
        None => false,
    }
}

/// What one poll of the display-state file asks for.
#[derive(PartialEq, Eq, Structural, Clone, Copy, Debug)]
pub enum PollDecision {
    /// Nothing to change; keep running.
    Keep,
    /// Switch the display to the given state (`true` = on); keep running.
    Switch(bool),
    /// The launcher is gone: switch the display off, then exit.
    SwitchOffAndExit,
    /// The launcher is gone and the display is already off: exit.
    Exit,
}

/// The decision of one poll, given whether the display is on, whether the
/// launcher's heartbeat is lost, and the state the file asks for.
pub open spec fn spec_poll_decision(display_on: bool, launcher_dead: bool, want_on: bool) -> PollDecision {
    if launcher_dead {
        if display_on {
            PollDecision::SwitchOffAndExit
        } else {
            PollDecision::Exit
        }
    } else if want_on != display_on {
        PollDecision::Switch(want_on)
    } else {
        PollDecision::Keep
    }
}

/// Decides one poll of the display-state file. With the launcher gone the
/// display is switched off whatever the file says.
pub fn decide_poll(display_on: bool, launcher_dead: bool, want_on: bool) -> (d: PollDecision)
    ensures
        d == spec_poll_decision(display_on, launcher_dead, want_on),
{
    if launcher_dead {
        if display_on {
            PollDecision::SwitchOffAndExit
        } else {
            PollDecision::Exit
        }
    } else if want_on != display_on {
        PollDecision::Switch(want_on)
    } else {
        PollDecision::Keep
    }
}

/// Whether the display is on after trying to switch it to `target` while
/// the launcher is alive: the target when the command went through,
/// otherwise unchanged (the caller reconnects and the next poll tries
/// again).
pub fn after_switch(display_on: bool, target: bool, succeeded: bool) -> (on: bool)
    ensures
        on == if succeeded {
            target
        } else {
            display_on
        },
{
    if succeeded {
        target
    } else {
        display_on
    }
}

/// What follows the display-off command sent because the launcher is
/// gone.
#[derive(PartialEq, Eq, Structural, Clone, Copy, Debug)]
pub enum ShutdownStep {
    /// The display is off: exit (and free the serial port).
    Exit,
    /// The command failed: reconnect the port, then send display-off again
    /// (reconnecting re-runs the init, which switches the display on).
    ReconnectThenOffAgain,
}

/// The step after a display-off attempt during the lost-launcher shutdown.
pub open spec fn spec_shutdown_step(off_succeeded: bool) -> ShutdownStep {
    if off_succeeded {
        ShutdownStep::Exit
    } else {
        ShutdownStep::ReconnectThenOffAgain
    }
}

/// Decides the step after a display-off attempt during the lost-launcher
/// shutdown: exit only once the display is off.
pub fn shutdown_step(off_succeeded: bool) -> (s: ShutdownStep)
    ensures
        s == spec_shutdown_step(off_succeeded),
{
    if off_succeeded {
        ShutdownStep::Exit
    } else {
        ShutdownStep::ReconnectThenOffAgain
    }
}

/// The attempts of a lost-launcher shutdown, by outcome: the shutdown has
/// exited after attempt `k` exactly when attempt `k` is the first that
/// succeeded.
pub open spec fn shutdown_exits_at(outcomes: Seq<bool>, k: int) -> bool {
    &&& 0 <= k < outcomes.len()
    &&& spec_shutdown_step(outcomes[k]) == ShutdownStep::Exit
    &&& forall|j: int| 0 <= j < k ==> spec_shutdown_step(#[trigger] outcomes[j])
        == ShutdownStep::ReconnectThenOffAgain
}

/// With the launcher gone the panel process never exits with the display
/// on: it exits right after a display-off command that went through, and
/// every failed attempt is followed by a reconnect and another display-off.
pub proof fn lemma_shutdown_ends_with_display_off(outcomes: Seq<bool>, k: int)
    requires
        shutdown_exits_at(outcomes, k),
    ensures
        outcomes[k],
        forall|j: int| 0 <= j < k ==> !#[trigger] outcomes[j],
{
    assert forall|j: int| 0 <= j < k implies !#[trigger] outcomes[j] by {
        assert(spec_shutdown_step(outcomes[j]) == ShutdownStep::ReconnectThenOffAgain);
    }
}

/// The panel keeps running exactly while the launcher is alive, and a
/// lost launcher always leaves the display off: every decision for a lost
/// heartbeat exits, switching the display off first when it is on.
pub proof fn lemma_lost_launcher_turns_display_off(display_on: bool, want_on: bool)
    ensures
        spec_poll_decision(display_on, true, want_on) == (if display_on {
            PollDecision::SwitchOffAndExit
        } else {
            PollDecision::Exit
        }),
        spec_poll_decision(display_on, false, want_on) != PollDecision::Exit,
        spec_poll_decision(display_on, false, want_on) != PollDecision::SwitchOffAndExit,
{
}

/// With a live launcher, a poll whose switch succeeded leaves the display
/// in the state the file asks for.
pub proof fn lemma_poll_follows_state_file(display_on: bool, want_on: bool)
    ensures
        match spec_poll_decision(display_on, false, want_on) {
            PollDecision::Switch(t) => t == want_on && t != display_on,
            PollDecision::Keep => display_on == want_on,
            _ => false,
        },
{
}

/// The theme the panel applies: the `--theme` flag wins over the monitor
/// configuration's `setup.theme`; with neither, the configuration's own
/// panel selection stays untouched (`None`).
pub open spec fn spec_effective_theme(cli: Option<u32>, json: Option<i32>) -> Option<i32> {
    match cli {
        Some(t) => Some(t as i32),
        None => json,
    }
}

/// Resolves the effective theme (`--theme` over `setup.theme`).
pub fn effective_theme(cli: Option<u32>, json: Option<i32>) -> (theme: Option<i32>)
    ensures
        theme == spec_effective_theme(cli, json),
{
    match cli {
        Some(t) => Some(t as i32),
        None => json,
    }
}

/// A configuration file named on the command line: kept as is when
/// absolute, else looked up in the configuration directory (used for the
/// monitor configuration and the sensor mapping file).
pub fn config_dir_file(config_dir: &str, name: &str) -> (p: String)
    ensures
        path_is_absolute(name@) ==> p@ == name@,
        !path_is_absolute(name@) ==> p@ == path_join(config_dir@, name@),
{
    if is_absolute_path(name) {
        String::from_str(name)
    } else {
        join_path(config_dir, name)
    }
}

/// The panels (1-based indices into the monitor configuration's panel
/// list) a theme activates: theme `t` owns panels `2t + 1` (system
/// overview, shown with `controlParams`) and `2t + 2` (disk temperatures,
/// shown with `controlDiskTemp`). Only themes 0 to 3 exist.
pub open spec fn spec_theme_panels(theme: i32, control_params: bool, control_disk_temp: bool) -> Option<Seq<u32>> {
    if 0 <= theme <= 3 {
        let first = (2 * theme + 1) as u32;
        let second = (2 * theme + 2) as u32;
        Some(
            if control_params && control_disk_temp {
                seq![first, second]
            } else if control_params {
                seq![first]
            } else if control_disk_temp {
                seq![second]
            } else {
                Seq::empty()
            },
        )
    } else {
        None
    }
}

/// The active panels for a theme and the monitor configuration's two panel
/// switches; `None` for an index that is not a theme (the configuration's
/// own panel selection then stays).
pub fn active_panels_for_theme(theme: i32, control_params: bool, control_disk_temp: bool) -> (panels:
    Option<Vec<u32>>)
    ensures
        match panels {
            Some(v) => spec_theme_panels(theme, control_params, control_disk_temp) == Some(v@),
            None => spec_theme_panels(theme, control_params, control_disk_temp) is None,
        },
{
    if theme < 0 || theme > 3 {
        return None;
    }
    let first = (2 * theme + 1) as u32;
    let second = (2 * theme + 2) as u32;
    let mut v: Vec<u32> = Vec::new();
    if control_params {
        v.push(first);
    }
    if control_disk_temp {
        v.push(second);
    }
    assert(spec_theme_panels(theme, control_params, control_disk_temp) == Some(v@));
    Some(v)
}

} // verus!
