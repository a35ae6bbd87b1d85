//! The launcher's `launcher.toml` settings: refresh intervals, display
//! modes, and in-place rewriting of one `key = value` line.
use vstd::prelude::*;

use crate::text::{
    char_pos, chars_of, decimal, find_char, is_whitespace, is_ws, lemma_char_pos_bounds,
    lemma_char_pos_shift, push_decimal, push_range, push_str, range_equals, string_from_chars,
    trim, trim_bounds,
};

verus! {

/// Allowed sensor refresh intervals, in seconds. A single `refresh_time`
/// value is applied to both `aster-sysinfo` and `hwbridge`.
pub const REFRESH_OPTIONS: [u16; 4] = [2, 5, 10, 30];

/// Default shared refresh interval when no (valid) value is configured.
pub const DEFAULT_REFRESH_SECS: u16 = 5;

/// True for the intervals listed in [`REFRESH_OPTIONS`].
pub open spec fn is_refresh_option(v: u16) -> bool {
    v == 2 || v == 5 || v == 10 || v == 30
}

/// True when `v` is one of [`REFRESH_OPTIONS`].
pub fn is_allowed_refresh(v: u16) -> (b: bool)
    ensures
        b == is_refresh_option(v),
{
    let options = REFRESH_OPTIONS;
    let mut i: usize = 0;
    while i < 4
        invariant
            i <= 4,
            options@ == seq![2u16, 5u16, 10u16, 30u16],
            forall|j: int| 0 <= j < i ==> options@[j] != v,
        decreases 4 - i,
    {
        if options[i] == v {
            return true;
        }
        i = i + 1;
    }
    assert(options@[0] != v && options@[1] != v && options@[2] != v && options@[3] != v);
    false
}

/// Launcher settings as read from `launcher.toml`.
#[derive(Debug, Clone, PartialEq)]
pub struct LauncherConfig {
    /// Monitor configuration file passed to asterctl.
    pub monitor_config: String,
    /// Shared sensor refresh interval, in seconds, applied to both
    /// aster-sysinfo and hwbridge; takes precedence over the legacy keys.
    pub refresh_time: Option<u16>,
    /// Legacy per-process interval for aster-sysinfo.
    pub sysinfo_refresh: Option<u16>,
    /// Legacy per-process interval for hwbridge.
    pub hwbridge_refresh: Option<u16>,
    /// On wake from sleep, re-enumerate the AOOSTAR USB UART before
    /// respawning the children.
    pub restart_uart_on_resume: bool,
    /// Panel theme index (one of [`THEME_OPTIONS`]) passed to asterctl as
    /// `--theme`; `None` leaves the monitor configuration's own choice.
    pub theme: Option<u16>,
    /// The LCD display mode chosen in the tray (`display_mode = "on" |
    /// "off" | "follow"`); absent means the display stays on.
    pub display_mode: Option<DisplayMode>,
}

/// The effective interval: the shared value wins, then the legacy value,
/// then [`DEFAULT_REFRESH_SECS`].
pub open spec fn effective_refresh(shared: Option<u16>, legacy: Option<u16>) -> u16 {
    match shared {
        Some(v) => v,
        None => match legacy {
            Some(v) => v,
            None => DEFAULT_REFRESH_SECS,
        },
    }
}

/// A refresh value keeps its place only when it is an allowed interval.
pub open spec fn sanitized(v: Option<u16>) -> Option<u16> {
    match v {
        Some(x) => if is_refresh_option(x) {
            Some(x)
        } else {
            None
        },
        None => None,
    }
}

/// Which refresh key a rejected value came from.
#[derive(Debug, Clone, Copy, PartialEq, Eq, Structural)]
pub enum RefreshKey {
    RefreshTime,
    SysinfoRefresh,
    HwbridgeRefresh,
}

impl RefreshKey {
    /// The key's name in `launcher.toml`.
    pub fn name(self) -> (name: &'static str)
        ensures
            name@ == match self {
                RefreshKey::RefreshTime => "refresh_time"@,
                RefreshKey::SysinfoRefresh => "sysinfo_refresh"@,
                RefreshKey::HwbridgeRefresh => "hwbridge_refresh"@,
            },
    {
        match self {
            RefreshKey::RefreshTime => "refresh_time",
            RefreshKey::SysinfoRefresh => "sysinfo_refresh",
            RefreshKey::HwbridgeRefresh => "hwbridge_refresh",
        }
    }
}

/// A configured refresh value that is not an allowed interval.
#[derive(Debug, Clone, Copy, PartialEq, Eq, Structural)]
pub struct RejectedRefresh {
    pub key: RefreshKey,
    pub value: u16,
}

/// The rejections, in key order, for the three configured values.
pub open spec fn rejections(
    refresh_time: Option<u16>,
    sysinfo_refresh: Option<u16>,
    hwbridge_refresh: Option<u16>,
) -> Seq<RejectedRefresh> {
    let a = match refresh_time {
        Some(v) => if is_refresh_option(v) {
            seq![]
        } else {
            seq![RejectedRefresh { key: RefreshKey::RefreshTime, value: v }]
        },
        None => seq![],
    };
    let b = match sysinfo_refresh {
        Some(v) => if is_refresh_option(v) {
            seq![]
        } else {
            seq![RejectedRefresh { key: RefreshKey::SysinfoRefresh, value: v }]
        },
        None => seq![],
    };
    let c = match hwbridge_refresh {
        Some(v) => if is_refresh_option(v) {
            seq![]
        } else {
            seq![RejectedRefresh { key: RefreshKey::HwbridgeRefresh, value: v }]
        },
        None => seq![],
    };
    a + b + c
}

impl Default for LauncherConfig {
    fn default() -> (cfg: Self)
        ensures
            cfg.monitor_config@ == "Monitor3.json"@,
            cfg.refresh_time.is_none(),
            cfg.sysinfo_refresh.is_none(),
            cfg.hwbridge_refresh.is_none(),
            cfg.restart_uart_on_resume,
            cfg.theme.is_none(),
            cfg.display_mode.is_none(),
    {
        LauncherConfig {
            monitor_config: String::from_str("Monitor3.json"),
            // None so the effective fallback (DEFAULT_REFRESH_SECS) applies
            // and legacy per-process keys still win when present.
            refresh_time: None,
            sysinfo_refresh: None,
            hwbridge_refresh: None,
            restart_uart_on_resume: true,
            theme: None,
            display_mode: None,
        }
    }
}

impl LauncherConfig {
    /// Effective refresh interval for aster-sysinfo: the shared
    /// `refresh_time` wins, falling back to the legacy `sysinfo_refresh`,
    /// then to [`DEFAULT_REFRESH_SECS`].
    pub fn sysinfo_refresh_effective(&self) -> (secs: u16)
        ensures
            secs == effective_refresh(self.refresh_time, self.sysinfo_refresh),
    {
        match self.refresh_time {
            Some(v) => v,
            None => match self.sysinfo_refresh {
                Some(v) => v,
                None => DEFAULT_REFRESH_SECS,
            },
        }
    }

    /// Effective refresh interval for hwbridge: the shared `refresh_time`
    /// wins, falling back to the legacy `hwbridge_refresh`, then to
    /// [`DEFAULT_REFRESH_SECS`].
    pub fn hwbridge_refresh_effective(&self) -> (secs: u16)
        ensures
            secs == effective_refresh(self.refresh_time, self.hwbridge_refresh),
    {
        match self.refresh_time {
            Some(v) => v,
            None => match self.hwbridge_refresh {
                Some(v) => v,
                None => DEFAULT_REFRESH_SECS,
            },
        }
    }

    /// Drops any refresh value that is not one of [`REFRESH_OPTIONS`], so an
    /// out-of-range value never reaches a child process; the field reverts
    /// to "not configured", so a bad `refresh_time` still falls back to the
    /// legacy keys / default. Returns the dropped values (for the log).
    pub fn sanitize_refresh_values(&mut self) -> (rejected: Vec<RejectedRefresh>)
        ensures
            final(self).refresh_time == sanitized(old(self).refresh_time),
            final(self).sysinfo_refresh == sanitized(old(self).sysinfo_refresh),
            final(self).hwbridge_refresh == sanitized(old(self).hwbridge_refresh),
            final(self).monitor_config == old(self).monitor_config,
            final(self).restart_uart_on_resume == old(self).restart_uart_on_resume,
            final(self).theme == old(self).theme,
            final(self).display_mode == old(self).display_mode,
            rejected@ == rejections(
                old(self).refresh_time,
                old(self).sysinfo_refresh,
                old(self).hwbridge_refresh,
            ),
    {
        let mut rejected: Vec<RejectedRefresh> = Vec::new();
        if let Some(v) = self.refresh_time {
            if !is_allowed_refresh(v) {
                rejected.push(RejectedRefresh { key: RefreshKey::RefreshTime, value: v });
                self.refresh_time = None;
            }
        }
        let ghost after_first = rejected@;
        if let Some(v) = self.sysinfo_refresh {
            if !is_allowed_refresh(v) {
                rejected.push(RejectedRefresh { key: RefreshKey::SysinfoRefresh, value: v });
                self.sysinfo_refresh = None;
            }
        }
        let ghost after_second = rejected@;
        if let Some(v) = self.hwbridge_refresh {
            if !is_allowed_refresh(v) {
                rejected.push(RejectedRefresh { key: RefreshKey::HwbridgeRefresh, value: v });
                self.hwbridge_refresh = None;
            }
        }
        assert(rejected@ =~= rejections(
            old(self).refresh_time,
            old(self).sysinfo_refresh,
            old(self).hwbridge_refresh,
        ));
        rejected
    }
}

/// An invalid shared `refresh_time` is ignored rather than fatal: after
/// sanitizing, each process falls back to its (valid) legacy key, else to
/// the default.
pub proof fn lemma_invalid_shared_refresh_falls_back(shared: u16, legacy: Option<u16>)
    requires
        !is_refresh_option(shared),
    ensures
        effective_refresh(sanitized(Some(shared)), sanitized(legacy)) == match sanitized(legacy) {
            Some(v) => v,
            None => DEFAULT_REFRESH_SECS,
        },
{
}

impl LauncherConfig {
    /// The configuration with the shared refresh interval set to `secs`
    /// (the tray's refresh choice); everything else is kept.
    pub fn with_refresh_time(self, secs: u16) -> (cfg: LauncherConfig)
        ensures
            cfg.refresh_time == Some(secs),
            cfg.monitor_config == self.monitor_config,
            cfg.sysinfo_refresh == self.sysinfo_refresh,
            cfg.hwbridge_refresh == self.hwbridge_refresh,
            cfg.restart_uart_on_resume == self.restart_uart_on_resume,
            cfg.theme == self.theme,
            cfg.display_mode == self.display_mode,
    {
        LauncherConfig { refresh_time: Some(secs), ..self }
    }

    /// The configuration with the theme set to `theme` (the tray's theme
    /// choice); everything else is kept.
    pub fn with_theme(self, theme: u16) -> (cfg: LauncherConfig)
        ensures
            cfg.theme == Some(theme),
            cfg.monitor_config == self.monitor_config,
            cfg.refresh_time == self.refresh_time,
            cfg.sysinfo_refresh == self.sysinfo_refresh,
            cfg.hwbridge_refresh == self.hwbridge_refresh,
            cfg.restart_uart_on_resume == self.restart_uart_on_resume,
            cfg.display_mode == self.display_mode,
    {
        LauncherConfig { theme: Some(theme), ..self }
    }
}

/// A refresh choice from the tray reaches both refresh-driven children:
/// whatever the legacy keys say, both effective intervals become `secs`.
pub proof fn lemma_refresh_choice_reaches_both_children(secs: u16, sysinfo: Option<u16>, hwbridge: Option<u16>)
    ensures
        effective_refresh(Some(secs), sysinfo) == secs,
        effective_refresh(Some(secs), hwbridge) == secs,
{
}

/// The panel themes, by index, with their menu names.
pub const THEME_OPTIONS: [(u16, &'static str); 4] = [
    (0, "Default"),
    (1, "Cyberpunk"),
    (2, "Interstellar"),
    (3, "Cartoon"),
];

/// True for a theme index listed in [`THEME_OPTIONS`].
pub open spec fn is_theme_option(v: u16) -> bool {
    v <= 3
}

impl LauncherConfig {
    /// Drops a theme index that is not one of [`THEME_OPTIONS`] (it reverts
    /// to "not configured"). Returns the dropped value (for the log).
    pub fn sanitize_theme(&mut self) -> (rejected: Option<u16>)
        ensures
            final(self).theme == match old(self).theme {
                Some(t) => if is_theme_option(t) {
                    Some(t)
                } else {
                    None
                },
                None => None,
            },
            rejected == match old(self).theme {
                Some(t) => if is_theme_option(t) {
                    None
                } else {
                    Some(t)
                },
                None => None,
            },
            final(self).monitor_config == old(self).monitor_config,
            final(self).refresh_time == old(self).refresh_time,
            final(self).sysinfo_refresh == old(self).sysinfo_refresh,
            final(self).hwbridge_refresh == old(self).hwbridge_refresh,
            final(self).restart_uart_on_resume == old(self).restart_uart_on_resume,
            final(self).display_mode == old(self).display_mode,
    {
        match self.theme {
            Some(t) => if t <= 3 {
                None
            } else {
                self.theme = None;
                Some(t)
            },
            None => None,
        }
    }
}

/// The menu name of a theme index.
pub fn theme_name(theme: u16) -> (name: Option<&'static str>)
    ensures
        name matches Some(n) ==> is_theme_option(theme) && n@ == (if theme == 0 {
            "Default"@
        } else if theme == 1 {
            "Cyberpunk"@
        } else if theme == 2 {
            "Interstellar"@
        } else {
            "Cartoon"@
        }),
        name is None <==> !is_theme_option(theme),
{
    if theme == 0 {
        Some("Default")
    } else if theme == 1 {
        Some("Cyberpunk")
    } else if theme == 2 {
        Some("Interstellar")
    } else if theme == 3 {
        Some("Cartoon")
    } else {
        None
    }
}

/// A sanitized configuration only carries allowed intervals, so both
/// effective intervals are allowed intervals.
pub proof fn lemma_sanitized_effective_is_allowed(
    refresh_time: Option<u16>,
    sysinfo_refresh: Option<u16>,
    hwbridge_refresh: Option<u16>,
)
    ensures
        is_refresh_option(effective_refresh(sanitized(refresh_time), sanitized(sysinfo_refresh))),
        is_refresh_option(effective_refresh(sanitized(refresh_time), sanitized(hwbridge_refresh))),
{
}

/// LCD display mode selected in the tray "Display" sub-menu.
#[derive(Debug, Clone, Copy, PartialEq, Eq, Structural)]
pub enum DisplayMode {
    /// Display always on.
    On,
    /// Display always off.
    Off,
    /// Display follows the Windows console display power state.
    Follow,
}

/// Menu position of a display mode.
pub open spec fn display_mode_index(m: DisplayMode) -> u16 {
    match m {
        DisplayMode::On => 0,
        DisplayMode::Off => 1,
        DisplayMode::Follow => 2,
    }
}

/// The display mode at a menu position; unknown positions mean "On".
pub open spec fn display_mode_at(i: u16) -> DisplayMode {
    if i == 1 {
        DisplayMode::Off
    } else if i == 2 {
        DisplayMode::Follow
    } else {
        DisplayMode::On
    }
}

impl DisplayMode {
    /// Menu position of this mode (the tray keeps it in an atomic).
    pub fn index(self) -> (i: u16)
        ensures
            i == display_mode_index(self),
    {
        match self {
            DisplayMode::On => 0,
            DisplayMode::Off => 1,
            DisplayMode::Follow => 2,
        }
    }

    /// The mode at a menu position; unknown positions fall back to `On`.
    pub fn from_index(i: u16) -> (m: DisplayMode)
        ensures
            m == display_mode_at(i),
    {
        if i == 1 {
            DisplayMode::Off
        } else if i == 2 {
            DisplayMode::Follow
        } else {
            DisplayMode::On
        }
    }

    /// The menu label of this mode.
    pub fn label(self) -> (label: &'static str)
        ensures
            label@ == match self {
                DisplayMode::On => "On"@,
                DisplayMode::Off => "Off"@,
                DisplayMode::Follow => "Follow screen state"@,
            },
    {
        match self {
            DisplayMode::On => "On",
            DisplayMode::Off => "Off",
            DisplayMode::Follow => "Follow screen state",
        }
    }
}

/// The `display_mode` value of a mode in `launcher.toml`.
pub open spec fn spec_config_name(m: DisplayMode) -> Seq<char> {
    match m {
        DisplayMode::On => "on"@,
        DisplayMode::Off => "off"@,
        DisplayMode::Follow => "follow"@,
    }
}

impl DisplayMode {
    /// The `display_mode` value of this mode in `launcher.toml`.
    pub fn config_name(self) -> (name: &'static str)
        ensures
            name@ == spec_config_name(self),
    {
        match self {
            DisplayMode::On => "on",
            DisplayMode::Off => "off",
            DisplayMode::Follow => "follow",
        }
    }

    /// The mode a `display_mode` value names, if any.
    pub fn from_config_name(name: &str) -> (m: Option<DisplayMode>)
        ensures
            m matches Some(mode) ==> spec_config_name(mode) == name@,
            m is None ==> name@ != "on"@ && name@ != "off"@ && name@ != "follow"@,
    {
        let cs = chars_of(name);
        let n = cs.len();
        assert(cs@.subrange(0, n as int) =~= name@);
        if range_equals(&cs, 0, n, "on") {
            Some(DisplayMode::On)
        } else if range_equals(&cs, 0, n, "off") {
            Some(DisplayMode::Off)
        } else if range_equals(&cs, 0, n, "follow") {
            Some(DisplayMode::Follow)
        } else {
            None
        }
    }
}

/// The mode the launcher starts in: the configured mode, or "On" when none
/// is configured; where following the screen state is not supported
/// (Linux), a configured "Follow" is treated as "On".
pub fn startup_display_mode(configured: Option<DisplayMode>, follow_supported: bool) -> (m:
    DisplayMode)
    ensures
        m == match configured {
            None => DisplayMode::On,
            Some(DisplayMode::Follow) => if follow_supported {
                DisplayMode::Follow
            } else {
                DisplayMode::On
            },
            Some(c) => c,
        },
{
    match configured {
        None => DisplayMode::On,
        Some(DisplayMode::Follow) => if follow_supported {
            DisplayMode::Follow
        } else {
            DisplayMode::On
        },
        Some(c) => c,
    }
}

/// The display modes in menu order.
pub const DISPLAY_MODES: [DisplayMode; 3] = [DisplayMode::On, DisplayMode::Off, DisplayMode::Follow];

/// Every mode survives the round trip through its menu position.
pub proof fn lemma_display_mode_index_roundtrip(m: DisplayMode)
    ensures
        display_mode_at(display_mode_index(m)) == m,
{
}

// ---------------------------------------------------------------------
// Rewriting one `key = value` line of a TOML file.
// ---------------------------------------------------------------------

/// End (exclusive) of the line starting at `i`, including its `\n`.
pub open spec fn piece_end(s: Seq<char>, i: int) -> int {
    let e = char_pos(s, '\n', i);
    if e < s.len() {
        e + 1
    } else {
        s.len() as int
    }
}

/// The key of a `key = value` line: the trimmed text before the first `=`
/// of the trimmed line.
pub open spec fn entry_key(line: Seq<char>) -> Seq<char> {
    let t = trim(line);
    trim(t.take(char_pos(t, '=', 0)))
}

/// Index of the first non-whitespace character of `p` at or after `i`.
pub open spec fn ws_run(p: Seq<char>, i: int) -> int
    decreases p.len() - i,
{
    if i < 0 || i >= p.len() || !is_ws(p[i]) {
        i
    } else {
        ws_run(p, i + 1)
    }
}

/// The leading whitespace of a line.
pub open spec fn indent(p: Seq<char>) -> Seq<char> {
    p.take(ws_run(p, 0))
}

/// The text `key = value`.
pub open spec fn assignment(key: Seq<char>, value: u16) -> Seq<char> {
    key + " = "@ + decimal(value as nat)
}

/// One line after the rewrite: the line assigning `key` is replaced by the
/// new assignment (the line's indentation kept, trailing comment dropped,
/// ended by a newline, so the following line stays a line of its own);
/// every other line is kept.
pub open spec fn rewritten_line(line: Seq<char>, key: Seq<char>, value: u16) -> Seq<char> {
    if entry_key(line) == key {
        indent(line) + assignment(key, value) + seq!['\n']
    } else {
        line
    }
}

/// The rewrite of all lines from position `i` on.
pub open spec fn rewrite_from(s: Seq<char>, i: int, key: Seq<char>, value: u16) -> Seq<char>
    decreases s.len() - i,
{
    if i < 0 || i >= s.len() {
        Seq::<char>::empty()
    } else {
        proof {
            lemma_char_pos_bounds(s, '\n', i);
        }
        let pe = piece_end(s, i);
        rewritten_line(s.subrange(i, pe), key, value) + rewrite_from(s, pe, key, value)
    }
}

/// True when some line from position `i` on assigns `key`.
pub open spec fn has_key_from(s: Seq<char>, i: int, key: Seq<char>) -> bool
    decreases s.len() - i,
{
    if i < 0 || i >= s.len() {
        false
    } else {
        proof {
            lemma_char_pos_bounds(s, '\n', i);
        }
        let pe = piece_end(s, i);
        entry_key(s.subrange(i, pe)) == key || has_key_from(s, pe, key)
    }
}

/// The file text after setting `key = value`: every line assigning `key` is
/// rewritten in place; when there is none, the assignment is appended on a
/// line of its own.
pub open spec fn with_toml_value(s: Seq<char>, key: Seq<char>, value: u16) -> Seq<char> {
    let body = rewrite_from(s, 0, key, value);
    if has_key_from(s, 0, key) {
        body
    } else {
        let terminated = if body.len() > 0 && body.last() != '\n' {
            body.push('\n')
        } else {
            body
        };
        terminated + assignment(key, value) + seq!['\n']
    }
}

/// Sets the `key = value` line of a TOML text, preserving every other line
/// and comment; appends the line when the key is absent.
pub fn rewrite_toml_value(text: &str, key: &str, value: u16) -> (out: String)
    ensures
        out@ == with_toml_value(text@, key@, value),
{
    let cs = chars_of(text);
    let n = cs.len();
    let mut line: Vec<char> = Vec::new();
    push_str(&mut line, key);
    push_str(&mut line, " = ");
    push_decimal(&mut line, value as u64);
    assert(line@ =~= assignment(key@, value));
    let mut out: Vec<char> = Vec::new();
    let mut rewritten = false;
    let mut i: usize = 0;
    while i < n
        invariant
            n == cs@.len(),
            cs@ == text@,
            i <= n,
            line@ == assignment(key@, value),
            out@ + rewrite_from(cs@, i as int, key@, value) == rewrite_from(cs@, 0, key@, value),
            (rewritten || has_key_from(cs@, i as int, key@)) == has_key_from(cs@, 0, key@),
        decreases n - i,
    {
        let e = find_char(&cs, '\n', i, n);
        proof {
            lemma_char_pos_bounds(cs@, '\n', i as int);
            lemma_char_pos_shift(cs@, '\n', i as int, 0);
        }
        let pe = if e < n {
            e + 1
        } else {
            n
        };
        let ghost piece = cs@.subrange(i as int, pe as int);
        let (a, b) = trim_bounds(&cs, i, pe);
        let k = find_char(&cs, '=', a, b);
        proof {
            lemma_char_pos_bounds(cs@.subrange(a as int, b as int), '=', 0);
            assert(cs@.subrange(a as int, b as int).take(k - a) =~= cs@.subrange(
                a as int,
                k as int,
            ));
        }
        let (ka, kb) = trim_bounds(&cs, a, k);
        let ghost before = out@;
        if range_equals(&cs, ka, kb, key) {
            let mut w = i;
            while w < pe && is_whitespace(cs[w])
                invariant
                    i <= w <= pe <= n,
                    n == cs@.len(),
                    piece == cs@.subrange(i as int, pe as int),
                    ws_run(piece, 0) == ws_run(piece, w - i),
                decreases pe - w,
            {
                assert(piece[w - i] == cs@[w as int]);
                w = w + 1;
            }
            proof {
                assert(piece[w - i] == cs@[w as int] || w == pe);
                assert(ws_run(piece, w - i) == w - i);
                assert(piece.take(w - i) =~= cs@.subrange(i as int, w as int));
            }
            push_range(&mut out, &cs, i, w);
            push_range(&mut out, &line, 0, line.len());
            assert(line@.subrange(0, line@.len() as int) =~= line@);
            out.push('\n');
            rewritten = true;
            proof {
                assert(out@ =~= before + rewritten_line(piece, key@, value));
            }
        } else {
            push_range(&mut out, &cs, i, pe);
        }
        proof {
            assert(out@ + rewrite_from(cs@, pe as int, key@, value) =~= before + rewrite_from(
                cs@,
                i as int,
                key@,
                value,
            ));
        }
        i = pe;
    }
    assert(rewrite_from(cs@, i as int, key@, value) =~= Seq::<char>::empty());
    assert(out@ =~= rewrite_from(cs@, 0, key@, value));
    if !rewritten {
        let len = out.len();
        if len > 0 && out[len - 1] != '\n' {
            out.push('\n');
        }
        let ghost terminated = out@;
        push_range(&mut out, &line, 0, line.len());
        assert(line@.subrange(0, line@.len() as int) =~= line@);
        out.push('\n');
        assert(out@ =~= terminated + assignment(key@, value) + seq!['\n']);
    }
    string_from_chars(out.as_slice())
}

/// The `theme = <index>` rewrite used by the tray's theme menu.
pub fn rewrite_theme(text: &str, theme: u16) -> (out: String)
    ensures
        out@ == with_toml_value(text@, "theme"@, theme),
{
    rewrite_toml_value(text, "theme", theme)
}

/// The `refresh_time = <secs>` rewrite used by the tray's refresh menu.
pub fn rewrite_refresh_time(text: &str, secs: u16) -> (out: String)
    ensures
        out@ == with_toml_value(text@, "refresh_time"@, secs),
{
    rewrite_toml_value(text, "refresh_time", secs)
}

} // verus!
