//! UI state and key dispatch.
//!
//! The UI is a tabbed view over a broadcast [`RouterState`] snapshot. Key
//! handling is a pure decision: each key maps to a state change of the
//! view and possibly one [`UiCommand`] for the control plane. Volume keys
//! step the selected input's gain by `0.05`, clamped to `[0, 1]`.

use crate::fbits::add_bits;
use crate::fbits::max_bits;
use crate::fbits::min_bits;
use crate::fbits::sample_add;
use crate::fbits::sample_max;
use crate::fbits::sample_min;
use crate::fbits::sample_sub;
use crate::fbits::sub_bits;
use crate::fbits::ONE_BITS;
use crate::types::InputStatus;
use vstd::prelude::*;
use vstd::string::StringExecFns;

verus! {

/// The bit pattern of the volume step `0.05`.
pub const VOL_STEP_BITS: u32 = 0x3D4C_CCCD;

/// State of a single audio input, as broadcast to the UI.
#[derive(Clone, Debug, PartialEq)]
pub struct InputState {
    pub id: String,
    pub device_name: String,
    pub enabled: bool,
    /// Bit pattern of the input's gain.
    pub volume_bits: u32,
    pub muted: bool,
    /// Bit pattern of the measured peak level.
    pub peak_level_bits: u32,
    pub status: InputStatus,
}

impl Default for InputState {
    fn default() -> (r: Self)
        ensures
            r.id@ == Seq::<char>::empty(),
            r.device_name@ == Seq::<char>::empty(),
            !r.enabled,
            r.volume_bits == 0,
            !r.muted,
            r.peak_level_bits == 0,
            r.status == InputStatus::Okay,
    {
        InputState {
            id: String::new(),
            device_name: String::new(),
            enabled: false,
            volume_bits: 0,
            muted: false,
            peak_level_bits: 0,
            status: InputStatus::Okay,
        }
    }
}

/// State of the audio output, as broadcast to the UI.
#[derive(Clone, Debug, PartialEq)]
pub struct OutputState {
    pub device_name: String,
    pub play_mixed_input: bool,
}

impl Default for OutputState {
    fn default() -> (r: Self)
        ensures
            r.device_name@ == "default"@,
            r.play_mixed_input,
    {
        OutputState { device_name: String::from_str("default"), play_mixed_input: true }
    }
}

/// The full snapshot broadcast to the UI.
#[derive(Clone, Debug, PartialEq)]
pub struct RouterState {
    pub inputs: Vec<InputState>,
    pub output: OutputState,
    pub latest_recognitions: Vec<String>,
    pub warnings: Vec<String>,
    pub is_running: bool,
}

impl Default for RouterState {
    fn default() -> (r: Self)
        ensures
            r.inputs@.len() == 0,
            r.output.device_name@ == "default"@,
            r.output.play_mixed_input,
            r.latest_recognitions@.len() == 0,
            r.warnings@.len() == 0,
            !r.is_running,
    {
        RouterState {
            inputs: Vec::new(),
            output: Default::default(),
            latest_recognitions: Vec::new(),
            warnings: Vec::new(),
            is_running: false,
        }
    }
}

/// A command from the UI to the control plane.
#[derive(Clone, Debug, PartialEq)]
pub enum UiCommand {
    SetVolume { input_id: String, volume_bits: u32 },
    SetMuted { input_id: String, muted: bool },
    SetEnabled { input_id: String, enabled: bool },
    SetPlayMixedInput(bool),
    Quit,
}

#[derive(Clone, Copy, Debug, PartialEq, Eq)]
pub enum Tab {
    Dashboard,
    Inputs,
    Outputs,
    Logs,
}

/// A key event, as the UI sees it.
#[derive(Clone, Copy, Debug, PartialEq, Eq, Structural)]
pub enum Key {
    Char(char),
    Up,
    Down,
    Left,
    Right,
    Other,
}

/// What handling one key produced.
#[derive(Clone, Debug, PartialEq)]
pub enum AppAction {
    Idle,
    Quit,
    Command(UiCommand),
}

/// Stepping the selected volume up: `min(v + 0.05, 1.0)`.
pub open spec fn vol_up_spec(v: u32) -> u32 {
    min_bits(add_bits(v, VOL_STEP_BITS), ONE_BITS)
}

/// Stepping the selected volume down: `max(v - 0.05, 0.0)`.
pub open spec fn vol_down_spec(v: u32) -> u32 {
    max_bits(sub_bits(v, VOL_STEP_BITS), 0u32)
}

pub open spec fn is_cmd_volume(a: AppAction, id: Seq<char>, v: u32) -> bool {
    a matches AppAction::Command(UiCommand::SetVolume { input_id, volume_bits }) && input_id@ == id
        && volume_bits == v
}

pub open spec fn is_cmd_muted(a: AppAction, id: Seq<char>, m: bool) -> bool {
    a matches AppAction::Command(UiCommand::SetMuted { input_id, muted }) && input_id@ == id
        && muted == m
}

pub open spec fn is_cmd_enabled(a: AppAction, id: Seq<char>, e: bool) -> bool {
    a matches AppAction::Command(UiCommand::SetEnabled { input_id, enabled }) && input_id@ == id
        && enabled == e
}

pub open spec fn is_cmd_play(a: AppAction, p: bool) -> bool {
    a matches AppAction::Command(UiCommand::SetPlayMixedInput(v)) && v == p
}

/// The UI's view state: current tab, last broadcast snapshot, selection
/// and log scrolling.
pub struct App {
    pub tab: Tab,
    pub state: RouterState,
    pub selected_input: usize,
    pub should_quit: bool,
    pub log_scroll: usize,
    pub log_auto_scroll: bool,
}

/// What the keys of the Inputs tab do.
pub open spec fn inputs_key_rel(pre: App, post: App, key: Key, a: AppAction) -> bool {
    if pre.state.inputs@.len() == 0 {
        post == pre && a is Idle
    } else {
        let cur = pre.state.inputs@[pre.selected_input as int];
        match key {
            Key::Up => post == App {
                selected_input: if pre.selected_input > 0 {
                    (pre.selected_input - 1) as usize
                } else {
                    0
                },
                ..pre
            } && a is Idle,
            Key::Down => post == App {
                selected_input: if pre.selected_input + 1 < pre.state.inputs@.len() {
                    (pre.selected_input + 1) as usize
                } else {
                    pre.selected_input
                },
                ..pre
            } && a is Idle,
            Key::Right => post == pre && is_cmd_volume(a, cur.id@, vol_up_spec(cur.volume_bits)),
            Key::Left => post == pre && is_cmd_volume(a, cur.id@, vol_down_spec(cur.volume_bits)),
            Key::Char(c) => if c == 'm' {
                post == pre && is_cmd_muted(a, cur.id@, !cur.muted)
            } else if c == 'e' {
                post == pre && is_cmd_enabled(a, cur.id@, !cur.enabled)
            } else {
                post == pre && a is Idle
            },
            _ => post == pre && a is Idle,
        }
    }
}

/// What the keys of the Logs tab do.
pub open spec fn logs_key_rel(pre: App, post: App, key: Key, a: AppAction) -> bool {
    match key {
        Key::Up => post == App {
            log_scroll: if pre.log_scroll == usize::MAX {
                usize::MAX
            } else {
                (pre.log_scroll + 1) as usize
            },
            log_auto_scroll: false,
            ..pre
        } && a is Idle,
        Key::Down => post == App {
            log_scroll: if pre.log_scroll == 0 {
                0
            } else {
                (pre.log_scroll - 1) as usize
            },
            ..pre
        } && a is Idle,
        Key::Char(c) => if c == 'G' {
            post == App { log_scroll: 0, log_auto_scroll: true, ..pre } && a is Idle
        } else {
            post == pre && a is Idle
        },
        _ => post == pre && a is Idle,
    }
}

/// What any key does: the global quit and tab keys first, then the keys
/// of the current tab.
pub open spec fn handle_key_rel(pre: App, post: App, key: Key, a: AppAction) -> bool {
    if key == Key::Char('q') {
        post == App { should_quit: true, ..pre } && a is Quit
    } else if key == Key::Char('1') {
        post == App { tab: Tab::Dashboard, ..pre } && a is Idle
    } else if key == Key::Char('2') {
        post == App { tab: Tab::Inputs, ..pre } && a is Idle
    } else if key == Key::Char('3') {
        post == App { tab: Tab::Outputs, ..pre } && a is Idle
    } else if key == Key::Char('4') {
        post == App { tab: Tab::Logs, ..pre } && a is Idle
    } else {
        match pre.tab {
            Tab::Dashboard => post == pre && a is Idle,
            Tab::Inputs => inputs_key_rel(pre, post, key, a),
            Tab::Outputs => if key == Key::Char(' ') {
                post == pre && is_cmd_play(a, !pre.state.output.play_mixed_input)
            } else {
                post == pre && a is Idle
            },
            Tab::Logs => logs_key_rel(pre, post, key, a),
        }
    }
}

impl App {
    /// The selection always points at an input when there is one.
    pub open spec fn sel_ok(&self) -> bool {
        self.state.inputs@.len() == 0 || self.selected_input < self.state.inputs@.len()
    }

    pub fn new() -> (r: App)
        ensures
            r.tab == Tab::Dashboard,
            r.selected_input == 0,
            !r.should_quit,
            r.log_scroll == 0,
            r.log_auto_scroll,
            r.state.inputs@.len() == 0,
            r.sel_ok(),
    {
        App {
            tab: Tab::Dashboard,
            state: Default::default(),
            selected_input: 0,
            should_quit: false,
            log_scroll: 0,
            log_auto_scroll: true,
        }
    }

    /// Take a new broadcast snapshot, clamping the selection back into
    /// range.
    pub fn update_state(&mut self, new_state: RouterState)
        ensures
            final(self).state == new_state,
            final(self).tab == old(self).tab,
            final(self).should_quit == old(self).should_quit,
            final(self).log_scroll == old(self).log_scroll,
            final(self).log_auto_scroll == old(self).log_auto_scroll,
            final(self).selected_input == if new_state.inputs@.len() > 0 && old(
                self,
            ).selected_input >= new_state.inputs@.len() {
                (new_state.inputs@.len() - 1) as usize
            } else {
                old(self).selected_input
            },
            final(self).sel_ok() || new_state.inputs@.len() == 0 || old(self).selected_input
                < new_state.inputs@.len(),
    {
        self.state = new_state;
        if self.state.inputs.len() > 0 && self.selected_input >= self.state.inputs.len() {
            self.selected_input = self.state.inputs.len() - 1;
        }
    }

    /// Handle one key.
    pub fn handle_key(&mut self, key: Key) -> (a: AppAction)
        requires
            old(self).sel_ok(),
        ensures
            handle_key_rel(*old(self), *final(self), key, a),
    {
        match key {
            Key::Char(c) if c == 'q' => {
                self.should_quit = true;
                return AppAction::Quit;
            },
            Key::Char(c) if c == '1' => {
                self.tab = Tab::Dashboard;
                return AppAction::Idle;
            },
            Key::Char(c) if c == '2' => {
                self.tab = Tab::Inputs;
                return AppAction::Idle;
            },
            Key::Char(c) if c == '3' => {
                self.tab = Tab::Outputs;
                return AppAction::Idle;
            },
            Key::Char(c) if c == '4' => {
                self.tab = Tab::Logs;
                return AppAction::Idle;
            },
            _ => {},
        }
        match self.tab {
            Tab::Dashboard => AppAction::Idle,
            Tab::Inputs => self.handle_inputs_key(key),
            Tab::Outputs => {
                if key == Key::Char(' ') {
                    AppAction::Command(
                        UiCommand::SetPlayMixedInput(!self.state.output.play_mixed_input),
                    )
                } else {
                    AppAction::Idle
                }
            },
            Tab::Logs => self.handle_logs_key(key),
        }
    }

    fn handle_inputs_key(&mut self, key: Key) -> (a: AppAction)
        requires
            old(self).sel_ok(),
        ensures
            inputs_key_rel(*old(self), *final(self), key, a),
    {
        if self.state.inputs.len() == 0 {
            return AppAction::Idle;
        }
        match key {
            Key::Up => {
                if self.selected_input > 0 {
                    self.selected_input = self.selected_input - 1;
                }
                AppAction::Idle
            },
            Key::Down => {
                if self.selected_input + 1 < self.state.inputs.len() {
                    self.selected_input = self.selected_input + 1;
                }
                AppAction::Idle
            },
            Key::Right => {
                let cur = &self.state.inputs[self.selected_input];
                let step = sample_add(cur.volume_bits, VOL_STEP_BITS);
                let v = sample_min(step, ONE_BITS);
                AppAction::Command(
                    UiCommand::SetVolume { input_id: cur.id.clone(), volume_bits: v },
                )
            },
            Key::Left => {
                let cur = &self.state.inputs[self.selected_input];
                let step = sample_sub(cur.volume_bits, VOL_STEP_BITS);
                let v = sample_max(step, 0);
                AppAction::Command(
                    UiCommand::SetVolume { input_id: cur.id.clone(), volume_bits: v },
                )
            },
            Key::Char(c) => {
                if c == 'm' {
                    let cur = &self.state.inputs[self.selected_input];
                    AppAction::Command(
                        UiCommand::SetMuted { input_id: cur.id.clone(), muted: !cur.muted },
                    )
                } else if c == 'e' {
                    let cur = &self.state.inputs[self.selected_input];
                    AppAction::Command(
                        UiCommand::SetEnabled { input_id: cur.id.clone(), enabled: !cur.enabled },
                    )
                } else {
                    AppAction::Idle
                }
            },
            _ => AppAction::Idle,
        }
    }

    fn handle_logs_key(&mut self, key: Key) -> (a: AppAction)
        ensures
            logs_key_rel(*old(self), *final(self), key, a),
    {
        match key {
            Key::Up => {
                if self.log_scroll < usize::MAX {
                    self.log_scroll = self.log_scroll + 1;
                }
                self.log_auto_scroll = false;
                AppAction::Idle
            },
            Key::Down => {
                if self.log_scroll > 0 {
                    self.log_scroll = self.log_scroll - 1;
                }
                AppAction::Idle
            },
            Key::Char(c) => {
                if c == 'G' {
                    self.log_scroll = 0;
                    self.log_auto_scroll = true;
                    AppAction::Idle
                } else {
                    AppAction::Idle
                }
            },
            _ => AppAction::Idle,
        }
    }

    /// Step the gain `v` up as the volume-up key does.
    pub fn volume_step_up(v: u32) -> (r: u32)
        ensures
            r == vol_up_spec(v),
    {
        let step = sample_add(v, VOL_STEP_BITS);
        sample_min(step, ONE_BITS)
    }

    /// Step the gain `v` down as the volume-down key does.
    pub fn volume_step_down(v: u32) -> (r: u32)
        ensures
            r == vol_down_spec(v),
    {
        let step = sample_sub(v, VOL_STEP_BITS);
        sample_max(step, 0)
    }
}

} // verus!
