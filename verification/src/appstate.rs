//! The process-wide state and its operations: the task aggregate, the
//! configuration, and the currently bound shortcut, together with the
//! persistence decisions around them. The surrounding application holds
//! one value of `AppState` under a single lock, performs the file and
//! key-binding side effects these operations call for, and reports
//! their outcomes back.

use vstd::prelude::*;
use crate::model::{TaskState, AppConfig};
use crate::hotkey::{KeyCombination, HotkeyError, parse_hotkey, parse_hotkey_spec};
use crate::format::{render_state, render_config, parse_state_text, parse_config_text};

verus! {

/// What reading a persisted file yielded: no file, an unreadable file,
/// or its text.
pub enum FileRead {
    Missing,
    Unreadable,
    Content(String),
}

/// The process-wide state. One value of this is shared, under mutual
/// exclusion, by every operation for the life of the process.
pub struct AppState {
    /// The task aggregate.
    pub tasks: TaskState,
    /// The persisted configuration.
    pub config: AppConfig,
    /// The currently registered shortcut; absent until first bound.
    /// Holding at most one combination here is what makes a binding
    /// swap leave exactly one binding behind.
    pub current_shortcut: Option<KeyCombination>,
}

/// What a binding swap must do at the key-binding layer, in order:
/// release the old combination if one is bound, then register the new
/// one.
pub struct RebindPlan {
    /// The combination to release first, if any.
    pub unregister: Option<KeyCombination>,
    /// The combination to register.
    pub register: KeyCombination,
}

/// A key event as the binding layer reports it.
#[derive(Clone, Copy, Debug, PartialEq, Eq, Structural)]
pub enum HotkeyEvent {
    Pressed,
    Released,
}

/// Whether a key event toggles the window: presses do, releases are
/// no-ops.
pub fn should_toggle(e: &HotkeyEvent) -> (r: bool)
    ensures
        r == (e is Pressed),
{
    match e {
        HotkeyEvent::Pressed => true,
        HotkeyEvent::Released => false,
    }
}

/// Turn what was read from the state file into the starting aggregate.
/// A missing or unreadable file yields the empty default; readable but
/// malformed text yields the empty default and asks for the file to be
/// set aside as corrupted (the second component), so its bytes are not
/// lost.
pub fn load_tasks(read: &FileRead) -> (r: (TaskState, bool))
    ensures
        read matches FileRead::Content(c) ==> {
            &&& parse_state_text(c@) is Some ==> r.0@ == parse_state_text(c@)->Some_0 && r.1
                == false
            &&& parse_state_text(c@) is None ==> r.0@.current.len() == 0 && r.0@.shelf.len() == 0
                && r.1 == true
        },
        read is Missing || read is Unreadable ==> r.0@.current.len() == 0 && r.0@.shelf.len()
            == 0 && r.1 == false,
{
    match read {
        FileRead::Content(c) => match crate::reader::parse_state_json(c.as_str()) {
            Some(st) => (st, false),
            None => (TaskState::empty(), true),
        },
        FileRead::Missing => (TaskState::empty(), false),
        FileRead::Unreadable => (TaskState::empty(), false),
    }
}

/// Turn what was read from the configuration file into the starting
/// configuration: the parsed hotkey, or the built-in default on a
/// missing, unreadable or malformed file.
pub fn load_config(read: &FileRead) -> (r: AppConfig)
    ensures
        read matches FileRead::Content(c) ==> {
            &&& parse_config_text(c@) is Some ==> r@ == parse_config_text(c@)->Some_0
            &&& parse_config_text(c@) is None ==> r@ == "Cmd+Ctrl+Alt+Shift+="@
        },
        read is Missing || read is Unreadable ==> r@ == "Cmd+Ctrl+Alt+Shift+="@,
{
    match read {
        FileRead::Content(c) => match crate::reader::parse_config_json(c.as_str()) {
            Some(hotkey) => AppConfig { hotkey },
            None => AppConfig::default(),
        },
        FileRead::Missing => AppConfig::default(),
        FileRead::Unreadable => AppConfig::default(),
    }
}

impl AppState {
    /// The state a process starts with, from what was loaded; nothing
    /// is bound yet.
    pub fn new(tasks: TaskState, config: AppConfig) -> (r: AppState)
        ensures
            r.tasks@ == tasks@,
            r.config@ == config@,
            r.current_shortcut is None,
    {
        AppState { tasks, config, current_shortcut: None }
    }

    /// A snapshot of the task aggregate: a deep copy, so the caller
    /// cannot reach the stored value.
    pub fn get_tasks(&self) -> (r: TaskState)
        ensures
            r@ == self.tasks@,
    {
        self.tasks.duplicate()
    }

    /// Replace the whole aggregate and hand back the text to persist.
    /// The replacement holds even if the caller's write then fails:
    /// memory and disk may diverge until the next successful write.
    pub fn save_state(&mut self, new_state: TaskState) -> (r: String)
        ensures
            final(self).tasks@ == new_state@,
            final(self).config == old(self).config,
            final(self).current_shortcut == old(self).current_shortcut,
            r@ == render_state(new_state@),
    {
        self.tasks = new_state;
        crate::writer::state_json(&self.tasks)
    }

    /// The configured hotkey text.
    pub fn get_hotkey(&self) -> (r: String)
        ensures
            r@ == self.config.hotkey@,
    {
        self.config.hotkey.clone()
    }

    /// Validate a new hotkey text and plan the binding swap. Nothing is
    /// mutated: on a malformed text the old binding stays authoritative.
    pub fn set_hotkey_begin(&self, text: &str) -> (r: Result<RebindPlan, HotkeyError>)
        ensures
            r matches Ok(plan) ==> parse_hotkey_spec(text@) == Ok::<
                KeyCombination,
                crate::hotkey::HotkeyErrorView,
            >(plan.register) && plan.unregister == self.current_shortcut,
            r matches Err(e) ==> parse_hotkey_spec(text@) == Err::<
                KeyCombination,
                crate::hotkey::HotkeyErrorView,
            >(e@),
    {
        match parse_hotkey(text) {
            Ok(combo) => Ok(RebindPlan { unregister: self.current_shortcut, register: combo }),
            Err(e) => Err(e),
        }
    }

    /// Record a successful registration: the new combination is the one
    /// and only bound shortcut, the configuration carries the new text,
    /// and the returned text is what to persist.
    pub fn set_hotkey_commit(&mut self, text: String, combo: KeyCombination) -> (r: String)
        ensures
            final(self).current_shortcut == Some(combo),
            final(self).config@ == text@,
            final(self).tasks == old(self).tasks,
            r@ == render_config(text@),
    {
        self.current_shortcut = Some(combo);
        self.config.hotkey = text;
        crate::writer::config_json(&self.config)
    }

    /// Record a failed registration after the old binding was already
    /// released: nothing is bound. This is the fail-forward policy: the
    /// old binding is treated as gone once its release was attempted.
    pub fn set_hotkey_fail(&mut self)
        ensures
            final(self).current_shortcut is None,
            final(self).tasks == old(self).tasks,
            final(self).config == old(self).config,
    {
        self.current_shortcut = None;
    }

    /// Record the shortcut bound at startup.
    pub fn bind_initial(&mut self, combo: KeyCombination)
        ensures
            final(self).current_shortcut == Some(combo),
            final(self).tasks == old(self).tasks,
            final(self).config == old(self).config,
    {
        self.current_shortcut = Some(combo);
    }
}

/// The combination to bind at startup: the configured text if it
/// parses, else the built-in default combination.
pub fn initial_shortcut(config: &AppConfig) -> (r: KeyCombination)
    ensures
        parse_hotkey_spec(config.hotkey@) matches Ok(c) ==> r == c,
        parse_hotkey_spec(config.hotkey@) is Err ==> r == default_combination(),
{
    match parse_hotkey(config.hotkey.as_str()) {
        Ok(c) => c,
        Err(_) => KeyCombination {
            modifiers: crate::hotkey::ModifierSet {
                sup: true,
                control: true,
                alt: true,
                shift: true,
            },
            code: crate::hotkey::KeyCode::Equal,
        },
    }
}

/// The combination the built-in default hotkey denotes: all four
/// modifiers and the equals key.
pub open spec fn default_combination() -> KeyCombination {
    KeyCombination {
        modifiers: crate::hotkey::ModifierSet {
            sup: true,
            control: true,
            alt: true,
            shift: true,
        },
        code: crate::hotkey::KeyCode::Equal,
    }
}

} // verus!
