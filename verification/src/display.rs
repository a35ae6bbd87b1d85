//! LCD display-mode decisions for the launcher's "Display" menu.
//!
//! The launcher drives the LCD through a small state file containing `on`
//! or `off` that asterctl polls. [`DisplayController`] decides, for each
//! event (menu choice, heartbeat, sleep, wake, display power change), which
//! state has to be written; the application performs the file writes.
use vstd::prelude::*;

use crate::launcher_config::{display_mode_at, display_mode_index, DisplayMode};

verus! {

/// True if a Windows console display power state means "screen visible":
/// 0 = off; 1 = on and 2 = dimmed both still show content.
pub fn display_state_is_on(state: u8) -> (on: bool)
    ensures
        on == (state != 0),
{
    state != 0
}

/// Notification type of a power-setting change (`PBT_POWERSETTINGCHANGE`).
pub const PBT_POWERSETTINGCHANGE: u32 = 0x8013;

/// A Windows GUID, field by field.
#[derive(Debug, Clone, Copy)]
pub struct Guid {
    pub data1: u32,
    pub data2: u16,
    pub data3: u16,
    pub data4: [u8; 8],
}

/// True for `GUID_CONSOLE_DISPLAY_STATE`
/// (6fe69556-704a-47a0-8f24-c28d936fda47), the power setting that carries
/// the console display power state.
pub open spec fn spec_is_display_state_guid(g: Guid) -> bool {
    &&& g.data1 == 0x6fe6_9556u32
    &&& g.data2 == 0x704au16
    &&& g.data3 == 0x47a0u16
    &&& g.data4@ == seq![0x8fu8, 0x24u8, 0xc2u8, 0x8du8, 0x93u8, 0x6fu8, 0xdau8, 0x47u8]
}

/// True when `g` is `GUID_CONSOLE_DISPLAY_STATE`.
pub fn is_display_state_guid(g: &Guid) -> (b: bool)
    ensures
        b == spec_is_display_state_guid(*g),
{
    let d = g.data4;
    let r = g.data1 == 0x6fe6_9556u32 && g.data2 == 0x704au16 && g.data3 == 0x47a0u16 && d[0]
        == 0x8fu8 && d[1] == 0x24u8 && d[2] == 0xc2u8 && d[3] == 0x8du8 && d[4] == 0x93u8 && d[5]
        == 0x6fu8 && d[6] == 0xdau8 && d[7] == 0x47u8;
    assert(r == spec_is_display_state_guid(*g)) by {
        if r {
            assert(d@ =~= seq![0x8fu8, 0x24u8, 0xc2u8, 0x8du8, 0x93u8, 0x6fu8, 0xdau8, 0x47u8]);
        }
    }
    r
}

/// The display power state a power notification carries: the first data
/// byte of a power-setting change for the console display state, `None`
/// for any other notification.
pub fn display_state_notification(kind: u32, setting: &Guid, data0: u8) -> (state: Option<u8>)
    ensures
        state == if kind == PBT_POWERSETTINGCHANGE && spec_is_display_state_guid(*setting) {
            Some(data0)
        } else {
            None::<u8>
        },
{
    if kind == PBT_POWERSETTINGCHANGE && is_display_state_guid(setting) {
        Some(data0)
    } else {
        None
    }
}

/// Effective on/off state of a display mode given the last display power
/// state seen.
pub open spec fn spec_effective_state_on(mode: DisplayMode, last_seen: u8) -> bool {
    match mode {
        DisplayMode::On => true,
        DisplayMode::Off => false,
        DisplayMode::Follow => last_seen != 0,
    }
}

/// Effective on/off state for a display mode, given the last Windows
/// display power state seen (0 = off, 1 = on, 2 = dimmed).
pub fn effective_state_on(mode: DisplayMode, last_seen: u8) -> (on: bool)
    ensures
        on == spec_effective_state_on(mode, last_seen),
{
    match mode {
        DisplayMode::On => true,
        DisplayMode::Off => false,
        DisplayMode::Follow => display_state_is_on(last_seen),
    }
}

/// State the heartbeat writes: always off while the machine is asleep,
/// otherwise the mode's effective state.
pub fn heartbeat_state_on(mode: DisplayMode, last_seen: u8, suspend_off: bool) -> (on: bool)
    ensures
        on == (!suspend_off && spec_effective_state_on(mode, last_seen)),
{
    if suspend_off {
        false
    } else {
        effective_state_on(mode, last_seen)
    }
}

/// Content of the display-state file for a state: `on` or `off` and a
/// newline.
pub open spec fn spec_state_file_text(on: bool) -> Seq<char> {
    if on {
        "on\n"@
    } else {
        "off\n"@
    }
}

/// Content of the display-state file for a state.
pub fn state_file_text(on: bool) -> (text: &'static str)
    ensures
        text@ == spec_state_file_text(on),
{
    if on {
        "on\n"
    } else {
        "off\n"
    }
}

/// The display control state shared by the tray menu, the heartbeat, the
/// power monitor and the display power watcher.
pub struct DisplayController {
    /// Active menu index (see [`DisplayMode::index`]).
    mode: u16,
    /// Latest console display power state: 0 = off, 1 = on, 2 = dimmed.
    last_seen: u8,
    /// Set while the machine is asleep: the heartbeat keeps writing "off".
    suspend_off: bool,
}

impl DisplayController {
    /// The active display mode.
    pub closed spec fn mode(&self) -> DisplayMode {
        display_mode_at(self.mode)
    }

    /// The latest display power state seen.
    pub closed spec fn last_seen(&self) -> u8 {
        self.last_seen
    }

    /// True while the machine is asleep.
    pub closed spec fn suspended(&self) -> bool {
        self.suspend_off
    }

    /// Creates the controller for `initial_mode`. Until the first display
    /// power notification the display is assumed on. Returns the state to
    /// write to the state file.
    pub fn new(initial_mode: DisplayMode) -> (r: (DisplayController, bool))
        ensures
            r.0.mode() == initial_mode,
            r.0.last_seen() == 1,
            !r.0.suspended(),
            r.1 == spec_effective_state_on(initial_mode, 1),
    {
        let mut this = DisplayController { mode: 0, last_seen: 1, suspend_off: false };
        let on = this.write_for_mode(initial_mode);
        (this, on)
    }

    /// Menu index of the active mode (for the tray check mark).
    pub fn mode_index(&self) -> (i: u16)
        ensures
            i == display_mode_index(self.mode()),
    {
        DisplayMode::from_index(self.mode).index()
    }

    /// Applies `mode` (menu choice or startup): records it and returns the
    /// state to write.
    pub fn write_for_mode(&mut self, mode: DisplayMode) -> (on: bool)
        ensures
            final(self).mode() == mode,
            final(self).last_seen() == old(self).last_seen(),
            final(self).suspended() == old(self).suspended(),
            on == spec_effective_state_on(mode, old(self).last_seen()),
    {
        self.mode = mode.index();
        effective_state_on(mode, self.last_seen)
    }

    /// Periodic heartbeat: the state to rewrite (off while asleep).
    pub fn heartbeat(&self) -> (on: bool)
        ensures
            on == (!self.suspended() && spec_effective_state_on(self.mode(), self.last_seen())),
    {
        let mode = DisplayMode::from_index(self.mode);
        heartbeat_state_on(mode, self.last_seen, self.suspend_off)
    }

    /// Launcher shutdown: the display goes off regardless of the mode.
    pub fn force_off(&self) -> (on: bool)
        ensures
            !on,
    {
        false
    }

    /// Sleep: blanks the LCD and keeps the heartbeat writing "off".
    pub fn suspend(&mut self) -> (on: bool)
        ensures
            !on,
            final(self).suspended(),
            final(self).mode() == old(self).mode(),
            final(self).last_seen() == old(self).last_seen(),
    {
        self.suspend_off = true;
        false
    }

    /// Wake: clears the sleep override and returns the mode's state so a
    /// respawned asterctl sees it on its first poll.
    pub fn resume(&mut self) -> (on: bool)
        ensures
            !final(self).suspended(),
            final(self).mode() == old(self).mode(),
            final(self).last_seen() == old(self).last_seen(),
            on == spec_effective_state_on(old(self).mode(), old(self).last_seen()),
    {
        self.suspend_off = false;
        let mode = DisplayMode::from_index(self.mode);
        effective_state_on(mode, self.last_seen)
    }

    /// A display power change (0 = off, 1 = on, 2 = dimmed): records it and,
    /// while "Follow screen state" is active, returns the state to write.
    pub fn display_power_changed(&mut self, state: u8) -> (write: Option<bool>)
        ensures
            final(self).last_seen() == state,
            final(self).mode() == old(self).mode(),
            final(self).suspended() == old(self).suspended(),
            old(self).mode() == DisplayMode::Follow ==> write == Some(state != 0),
            old(self).mode() != DisplayMode::Follow ==> write.is_none(),
    {
        self.last_seen = state;
        match DisplayMode::from_index(self.mode) {
            DisplayMode::Follow => Some(display_state_is_on(state)),
            _ => None,
        }
    }
}

} // verus!
