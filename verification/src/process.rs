//! The launcher's child processes: their command lines and restart backoff.
use vstd::prelude::*;

use crate::launcher_config::{effective_refresh, LauncherConfig};
use crate::paths::{appended, join_path, path_join, plain_component};
use crate::text::{decimal, decimal_string};

verus! {

/// How to start one child process.
pub struct ChildSpec {
    pub name: &'static str,
    pub base_dir: String,
    pub exe_path: String,
    pub args: Vec<String>,
    pub log_path: String,
}

/// The texts of a list of arguments.
pub open spec fn arg_texts(args: Seq<String>) -> Seq<Seq<char>> {
    Seq::new(args.len(), |i: int| args[i]@)
}

/// `base/dir/file`.
pub open spec fn under(base: Seq<char>, dir: Seq<char>, file: Seq<char>) -> Seq<char> {
    path_join(path_join(base, dir), file)
}

/// `p` is a path inside `base` (it starts with `base` and goes on) that
/// names `file`.
pub open spec fn lies_under(p: Seq<char>, base: Seq<char>, file: Seq<char>) -> bool {
    &&& p.len() > base.len()
    &&& p.subrange(0, base.len() as int) == base
    &&& p.len() >= file.len()
    &&& p.subrange(p.len() - file.len(), p.len() as int) == file
}

/// A join that keeps both texts starts with the base, ends with the name
/// and has no `?` when neither has.
proof fn lemma_appended(p: Seq<char>, base: Seq<char>, name: Seq<char>)
    requires
        appended(p, base, name),
        name.len() > 0,
    ensures
        p.len() > base.len(),
        p.len() >= name.len(),
        p.subrange(0, base.len() as int) == base,
        p.subrange(p.len() - name.len(), p.len() as int) == name,
        !base.contains('?') && !name.contains('?') ==> !p.contains('?'),
{
    let k = p.len() - name.len();
    assert(p.subrange(0, base.len() as int) =~= base);
    assert(p.subrange(k, p.len() as int) =~= name);
    if !base.contains('?') && !name.contains('?') {
        assert forall|i: int| 0 <= i < p.len() implies #[trigger] p[i] != '?' by {
            if i < base.len() {
                assert(p[i] == base[i]);
            } else if i >= k {
                assert(p[i] == name[i - k]);
            }
        }
    }
}

fn join2(base: &str, dir: &str, file: &str) -> (p: String)
    ensures
        p@ == under(base@, dir@, file@),
        plain_component(dir@) && plain_component(file@) && !base@.contains('?') ==> lies_under(
            p@,
            base@,
            file@,
        ),
{
    let d = join_path(base, dir);
    let p = join_path(d.as_str(), file);
    proof {
        if plain_component(dir@) && plain_component(file@) && !base@.contains('?') {
            assert(!dir@.contains('?')) by {
                if dir@.contains('?') {
                    let i = choose|i: int| 0 <= i < dir@.len() && dir@[i] == '?';
                    assert(dir@[i] != '?');
                }
            }
            lemma_appended(d@, base@, dir@);
            lemma_appended(p@, d@, file@);
            assert(p@.subrange(0, base@.len() as int) =~= d@.subrange(0, base@.len() as int));
        }
    }
    p
}

proof fn lemma_plain_names()
    ensures
        plain_component("bin"@),
        plain_component("logs"@),
        plain_component("hwbridge"@),
        plain_component("aster-sysinfo.exe"@),
        plain_component("asterctl.exe"@),
        plain_component("HwBridge.exe"@),
        plain_component("aster-sysinfo.log"@),
        plain_component("asterctl.log"@),
        plain_component("hwbridge.log"@),
{
    reveal_strlit("bin");
    reveal_strlit("logs");
    reveal_strlit("hwbridge");
    reveal_strlit("aster-sysinfo.exe");
    reveal_strlit("asterctl.exe");
    reveal_strlit("HwBridge.exe");
    reveal_strlit("aster-sysinfo.log");
    reveal_strlit("asterctl.log");
    reveal_strlit("hwbridge.log");
}

/// Builds the 3 child process specs (aster-sysinfo, asterctl, hwbridge), all
/// paths relative to `base_dir` (the launcher's own exe directory), passing
/// each refresh-driven child its effective refresh interval.
pub fn child_specs(base_dir: &str, cfg: &LauncherConfig) -> (specs: [ChildSpec; 3])
    ensures
        specs[0].name@ == "aster-sysinfo"@,
        specs[1].name@ == "asterctl"@,
        specs[2].name@ == "hwbridge"@,
        forall|i: int| 0 <= i < 3 ==> #[trigger] specs[i].base_dir@ == base_dir@,
        specs[0].exe_path@ == under(base_dir@, "bin"@, "aster-sysinfo.exe"@),
        specs[1].exe_path@ == under(base_dir@, "bin"@, "asterctl.exe"@),
        specs[2].exe_path@ == under(base_dir@, "hwbridge"@, "HwBridge.exe"@),
        specs[0].log_path@ == under(base_dir@, "logs"@, "aster-sysinfo.log"@),
        specs[1].log_path@ == under(base_dir@, "logs"@, "asterctl.log"@),
        specs[2].log_path@ == under(base_dir@, "logs"@, "hwbridge.log"@),
        !base_dir@.contains('?') ==> lies_under(specs[0].exe_path@, base_dir@, "aster-sysinfo.exe"@),
        !base_dir@.contains('?') ==> lies_under(specs[1].exe_path@, base_dir@, "asterctl.exe"@),
        !base_dir@.contains('?') ==> lies_under(specs[2].exe_path@, base_dir@, "HwBridge.exe"@),
        !base_dir@.contains('?') ==> lies_under(specs[0].log_path@, base_dir@, "aster-sysinfo.log"@),
        !base_dir@.contains('?') ==> lies_under(specs[1].log_path@, base_dir@, "asterctl.log"@),
        !base_dir@.contains('?') ==> lies_under(specs[2].log_path@, base_dir@, "hwbridge.log"@),
        arg_texts(specs[0].args@) == seq![
            "--out"@,
            "cfg\\sensors\\sysinfo.txt"@,
            "--temp-dir"@,
            "cfg\\sensors"@,
            "--refresh"@,
            decimal(effective_refresh(cfg.refresh_time, cfg.sysinfo_refresh) as nat),
        ],
        arg_texts(specs[1].args@) == seq!["--config"@, cfg.monitor_config@] + match cfg.theme {
            Some(t) => seq!["--theme"@, decimal(t as nat)],
            None => Seq::<Seq<char>>::empty(),
        },
        arg_texts(specs[2].args@) == seq![
            "cfg\\sensors\\hwbridge.txt"@,
            decimal(effective_refresh(cfg.refresh_time, cfg.hwbridge_refresh) as nat),
        ],
{
    proof {
        lemma_plain_names();
    }
    let sysinfo_args = vec![
        String::from_str("--out"),
        String::from_str("cfg\\sensors\\sysinfo.txt"),
        String::from_str("--temp-dir"),
        String::from_str("cfg\\sensors"),
        String::from_str("--refresh"),
        decimal_string(cfg.sysinfo_refresh_effective() as u64),
    ];
    let mut asterctl_args = vec![String::from_str("--config"), cfg.monitor_config.clone()];
    if let Some(t) = cfg.theme {
        asterctl_args.push(String::from_str("--theme"));
        asterctl_args.push(decimal_string(t as u64));
    }
    let hwbridge_args = vec![
        String::from_str("cfg\\sensors\\hwbridge.txt"),
        decimal_string(cfg.hwbridge_refresh_effective() as u64),
    ];
    assert(arg_texts(sysinfo_args@) =~= seq![
        "--out"@,
        "cfg\\sensors\\sysinfo.txt"@,
        "--temp-dir"@,
        "cfg\\sensors"@,
        "--refresh"@,
        decimal(effective_refresh(cfg.refresh_time, cfg.sysinfo_refresh) as nat),
    ]);
    assert(arg_texts(asterctl_args@) =~= seq!["--config"@, cfg.monitor_config@] + match cfg.theme {
        Some(t) => seq!["--theme"@, decimal(t as nat)],
        None => Seq::<Seq<char>>::empty(),
    });
    assert(arg_texts(hwbridge_args@) =~= seq![
        "cfg\\sensors\\hwbridge.txt"@,
        decimal(effective_refresh(cfg.refresh_time, cfg.hwbridge_refresh) as nat),
    ]);
    [
        ChildSpec {
            name: "aster-sysinfo",
            base_dir: String::from_str(base_dir),
            exe_path: join2(base_dir, "bin", "aster-sysinfo.exe"),
            args: sysinfo_args,
            log_path: join2(base_dir, "logs", "aster-sysinfo.log"),
        },
        ChildSpec {
            name: "asterctl",
            base_dir: String::from_str(base_dir),
            exe_path: join2(base_dir, "bin", "asterctl.exe"),
            args: asterctl_args,
            log_path: join2(base_dir, "logs", "asterctl.log"),
        },
        ChildSpec {
            name: "hwbridge",
            base_dir: String::from_str(base_dir),
            exe_path: join2(base_dir, "hwbridge", "HwBridge.exe"),
            args: hwbridge_args,
            log_path: join2(base_dir, "logs", "hwbridge.log"),
        },
    ]
}

/// Base delay, in seconds, between a child exiting (or failing to start)
/// and the next spawn attempt.
pub const RETRY_DELAY_SECS: u64 = 2;

/// Consecutive spawn failures tolerated at the base delay before the delay
/// starts widening.
pub const FAILURE_BACKOFF_THRESHOLD: u32 = 3;

/// Upper bound on the widened retry delay, in seconds.
pub const MAX_BACKOFF_SECS: u64 = 60;

/// Retry delay in seconds after `f` consecutive spawn failures: the base
/// delay up to the threshold, then doubling (at most 5 doublings), capped at
/// [`MAX_BACKOFF_SECS`].
pub open spec fn spec_retry_delay(f: u32) -> u64 {
    if f > FAILURE_BACKOFF_THRESHOLD {
        let shift = if f - FAILURE_BACKOFF_THRESHOLD < 5 {
            f - FAILURE_BACKOFF_THRESHOLD
        } else {
            5
        };
        let widened = if shift == 1 {
            4u64
        } else if shift == 2 {
            8u64
        } else if shift == 3 {
            16u64
        } else if shift == 4 {
            32u64
        } else {
            64u64
        };
        if widened < MAX_BACKOFF_SECS {
            widened
        } else {
            MAX_BACKOFF_SECS
        }
    } else {
        RETRY_DELAY_SECS
    }
}

/// Retry delay, in seconds, for the given number of consecutive spawn
/// failures.
pub fn retry_delay(consecutive_failures: u32) -> (secs: u64)
    ensures
        secs == spec_retry_delay(consecutive_failures),
        RETRY_DELAY_SECS <= secs <= MAX_BACKOFF_SECS,
{
    if consecutive_failures > FAILURE_BACKOFF_THRESHOLD {
        let d = consecutive_failures - FAILURE_BACKOFF_THRESHOLD;
        let shift: u64 = if d < 5 {
            d as u64
        } else {
            5
        };
        assert(1 <= shift <= 5);
        let widened = RETRY_DELAY_SECS << shift;
        assert(shift == 1 ==> widened == 4) by (bit_vector)
            requires
                widened == 2u64 << shift,
        ;
        assert(shift == 2 ==> widened == 8) by (bit_vector)
            requires
                widened == 2u64 << shift,
        ;
        assert(shift == 3 ==> widened == 16) by (bit_vector)
            requires
                widened == 2u64 << shift,
        ;
        assert(shift == 4 ==> widened == 32) by (bit_vector)
            requires
                widened == 2u64 << shift,
        ;
        assert(shift == 5 ==> widened == 64) by (bit_vector)
            requires
                widened == 2u64 << shift,
        ;
        if widened < MAX_BACKOFF_SECS {
            widened
        } else {
            MAX_BACKOFF_SECS
        }
    } else {
        RETRY_DELAY_SECS
    }
}

/// Pause, in milliseconds, between checks while the machine is asleep.
pub const WATCH_SUSPENDED_POLL_MILLIS: u64 = 250;

/// What a child's watcher reacts to.
#[derive(Debug, Clone, Copy, PartialEq, Eq, Structural)]
pub enum WatchEvent {
    /// The top of the watcher loop (after start or after a pause).
    Tick,
    /// The child was started.
    Spawned,
    /// Starting the child failed.
    SpawnFailed,
    /// The running child exited (or was killed).
    Exited,
}

/// What the watcher does next.
#[derive(Debug, Clone, Copy, PartialEq, Eq, Structural)]
pub enum WatchAction {
    /// Stop watching (the launcher quits).
    Stop,
    /// The machine is asleep: wait [`WATCH_SUSPENDED_POLL_MILLIS`], then
    /// look again.
    WaitSuspended,
    /// Start the child.
    Spawn,
    /// Wait until the running child exits.
    WaitForExit,
    /// A quit or sleep began while the child was starting: kill it, then
    /// wait for it to exit.
    KillFresh,
    /// The launcher quit while the child was starting: kill it and stop.
    KillFreshAndStop,
    /// Sleep the given seconds (cut short by a quit), then look again.
    Pause(u64),
}

/// The watcher's memory between events.
#[derive(Debug, Clone, Copy, PartialEq, Eq, Structural)]
pub struct WatcherState {
    /// Consecutive failed spawn attempts.
    pub failures: u32,
    /// True while the child runs (the tray shows it as healthy).
    pub healthy: bool,
}

/// The failure count after one more failed spawn (saturating).
pub open spec fn one_more_failure(f: u32) -> u32 {
    if f == u32::MAX {
        u32::MAX
    } else {
        (f + 1) as u32
    }
}

/// One step of a child's watcher: the next state and action for an event,
/// given whether the launcher is quitting and whether the machine is
/// asleep.
pub open spec fn spec_watch_step(s: WatcherState, quit: bool, suspended: bool, ev: WatchEvent) -> (
    WatcherState,
    WatchAction,
) {
    match ev {
        WatchEvent::Tick => if quit {
            (s, WatchAction::Stop)
        } else if suspended {
            (s, WatchAction::WaitSuspended)
        } else {
            (s, WatchAction::Spawn)
        },
        WatchEvent::Spawned => {
            let s2 = WatcherState { failures: 0, healthy: true };
            if quit {
                (s2, WatchAction::KillFreshAndStop)
            } else if suspended {
                (s2, WatchAction::KillFresh)
            } else {
                (s2, WatchAction::WaitForExit)
            }
        },
        WatchEvent::Exited => {
            let s2 = WatcherState { failures: s.failures, healthy: false };
            if quit {
                (s2, WatchAction::Stop)
            } else {
                (s2, WatchAction::Pause(spec_retry_delay(s.failures)))
            }
        },
        WatchEvent::SpawnFailed => {
            let f = one_more_failure(s.failures);
            (WatcherState { failures: f, healthy: false }, WatchAction::Pause(spec_retry_delay(f)))
        },
    }
}

/// The initial watcher state: no failures, child not running.
pub fn watcher_start() -> (s: WatcherState)
    ensures
        s == (WatcherState { failures: 0, healthy: false }),
{
    WatcherState { failures: 0, healthy: false }
}

/// Decides one step of a child's watcher loop.
pub fn watch_step(s: WatcherState, quit: bool, suspended: bool, ev: WatchEvent) -> (r: (
    WatcherState,
    WatchAction,
))
    ensures
        r == spec_watch_step(s, quit, suspended, ev),
{
    match ev {
        WatchEvent::Tick => if quit {
            (s, WatchAction::Stop)
        } else if suspended {
            (s, WatchAction::WaitSuspended)
        } else {
            (s, WatchAction::Spawn)
        },
        WatchEvent::Spawned => {
            let s2 = WatcherState { failures: 0, healthy: true };
            if quit {
                (s2, WatchAction::KillFreshAndStop)
            } else if suspended {
                (s2, WatchAction::KillFresh)
            } else {
                (s2, WatchAction::WaitForExit)
            }
        },
        WatchEvent::Exited => {
            let s2 = WatcherState { failures: s.failures, healthy: false };
            if quit {
                (s2, WatchAction::Stop)
            } else {
                (s2, WatchAction::Pause(retry_delay(s.failures)))
            }
        },
        WatchEvent::SpawnFailed => {
            let f = s.failures.saturating_add(1);
            (WatcherState { failures: f, healthy: false }, WatchAction::Pause(retry_delay(f)))
        },
    }
}

/// Nothing is started while the launcher quits or the machine sleeps, a
/// child that was starting when either began is killed, and a quit stops
/// the watcher at the next look.
pub proof fn lemma_watcher_respects_quit_and_sleep(s: WatcherState, quit: bool, suspended: bool)
    ensures
        spec_watch_step(s, quit, suspended, WatchEvent::Tick).1 == WatchAction::Spawn <==> (!quit
            && !suspended),
        quit ==> spec_watch_step(s, quit, suspended, WatchEvent::Tick).1 == WatchAction::Stop,
        quit ==> spec_watch_step(s, quit, suspended, WatchEvent::Spawned).1
            == WatchAction::KillFreshAndStop,
        quit ==> spec_watch_step(s, quit, suspended, WatchEvent::Exited).1 == WatchAction::Stop,
        !quit && suspended ==> spec_watch_step(s, quit, suspended, WatchEvent::Spawned).1
            == WatchAction::KillFresh,
{
}

/// The child counts as healthy exactly from a successful start until it
/// exits or a start fails; a successful start clears the failure count,
/// so the pause after a crash of a running child is the base delay.
pub proof fn lemma_watcher_health_and_backoff(s: WatcherState, quit: bool, suspended: bool)
    ensures
        spec_watch_step(s, quit, suspended, WatchEvent::Spawned).0 == (WatcherState {
            failures: 0,
            healthy: true,
        }),
        !spec_watch_step(s, quit, suspended, WatchEvent::Exited).0.healthy,
        !spec_watch_step(s, quit, suspended, WatchEvent::SpawnFailed).0.healthy,
        spec_watch_step(s, quit, suspended, WatchEvent::Tick).0 == s,
        !quit ==> spec_watch_step(
            spec_watch_step(s, quit, suspended, WatchEvent::Spawned).0,
            quit,
            suspended,
            WatchEvent::Exited,
        ).1 == WatchAction::Pause(RETRY_DELAY_SECS),
{
}

/// Child restarted when the theme changes.
pub const THEME_CHILDREN: [&'static str; 1] = ["asterctl"];

/// Children restarted when the shared refresh interval changes.
pub const REFRESH_CHILDREN: [&'static str; 2] = ["aster-sysinfo", "hwbridge"];

/// The retry delay never shrinks as failures accumulate.
pub proof fn lemma_retry_delay_monotonic(a: u32, b: u32)
    requires
        a <= b,
    ensures
        spec_retry_delay(a) <= spec_retry_delay(b),
{
}

} // verus!
