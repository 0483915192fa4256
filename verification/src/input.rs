//! What the keys that the user types mean.
//!
//! Typed as they are, keys go to the focused pane and to the plugins. After
//! `Ctrl-g` the next key is a command; after a second `Ctrl-g` every key is,
//! until `Esc` or a third `Ctrl-g`.

use crate::common::{AppInstruction, AppState, InputMode};
use crate::pty_bus::PtyInstruction;
use crate::screen::{Acknowledgement, ScreenInstruction};
use crate::wasm_vm::PluginInstruction;
use vstd::prelude::*;

verus! {

/// The byte of `Ctrl-g`.
pub const CTRL_G: u8 = 7;

/// The byte of `Esc`.
pub const ESC: u8 = 27;

/// What keys that were read together mean.
#[derive(Debug)]
pub struct KeyOutcome {
    /// The mode in which the next keys are read.
    pub mode: InputMode,
    /// What is to be sent to the dispatcher of the session, in order.
    pub sends: Vec<AppInstruction>,
    /// What to wait for before more keys are read.
    pub wait_for: Option<Acknowledgement>,
}

/// A command: what a key asks for in command mode.
#[derive(Clone, Copy, Debug, PartialEq, Eq, Structural)]
pub enum Command {
    ResizeLeft,
    ResizeDown,
    ResizeUp,
    ResizeRight,
    MoveFocus,
    MoveFocusLeft,
    MoveFocusDown,
    MoveFocusUp,
    MoveFocusRight,
    ScrollUp,
    ScrollDown,
    NewPane,
    SplitVertically,
    SplitHorizontally,
    CloseFocusedPane,
    ToggleFullscreen,
    NewTab,
    NextTab,
    PreviousTab,
    CloseTab,
    Quit,
}

/// The command that the keys ask for in command mode, if any.
pub open spec fn bound(keys: Seq<u8>) -> Option<Command> {
    if keys == seq![0x68u8] {
        Some(Command::ResizeLeft)
    } else if keys == seq![0x6au8] {
        Some(Command::ResizeDown)
    } else if keys == seq![0x6bu8] {
        Some(Command::ResizeUp)
    } else if keys == seq![0x6cu8] {
        Some(Command::ResizeRight)
    } else if keys == seq![0x70u8] {
        Some(Command::MoveFocus)
    } else if keys == seq![0x79u8] {
        Some(Command::MoveFocusLeft)
    } else if keys == seq![0x75u8] {
        Some(Command::MoveFocusDown)
    } else if keys == seq![0x69u8] {
        Some(Command::MoveFocusUp)
    } else if keys == seq![0x6fu8] {
        Some(Command::MoveFocusRight)
    } else if keys == seq![0x1bu8, 0x5bu8, 0x35u8, 0x7eu8] {
        Some(Command::ScrollUp)
    } else if keys == seq![0x1bu8, 0x5bu8, 0x36u8, 0x7eu8] {
        Some(Command::ScrollDown)
    } else if keys == seq![0x7au8] {
        Some(Command::NewPane)
    } else if keys == seq![0x6eu8] {
        Some(Command::SplitVertically)
    } else if keys == seq![0x62u8] {
        Some(Command::SplitHorizontally)
    } else if keys == seq![0x78u8] {
        Some(Command::CloseFocusedPane)
    } else if keys == seq![0x65u8] {
        Some(Command::ToggleFullscreen)
    } else if keys == seq![0x31u8] {
        Some(Command::NewTab)
    } else if keys == seq![0x32u8] {
        Some(Command::NextTab)
    } else if keys == seq![0x33u8] {
        Some(Command::PreviousTab)
    } else if keys == seq![0x34u8] {
        Some(Command::CloseTab)
    } else if keys == seq![0x71u8] {
        Some(Command::Quit)
    } else {
        None
    }
}

/// What a command has sent to the dispatcher of the session.
pub open spec fn sent_for(command: Command) -> AppInstruction {
    match command {
        Command::ResizeLeft => AppInstruction::ToScreen(ScreenInstruction::ResizeLeft),
        Command::ResizeDown => AppInstruction::ToScreen(ScreenInstruction::ResizeDown),
        Command::ResizeUp => AppInstruction::ToScreen(ScreenInstruction::ResizeUp),
        Command::ResizeRight => AppInstruction::ToScreen(ScreenInstruction::ResizeRight),
        Command::MoveFocus => AppInstruction::ToScreen(ScreenInstruction::MoveFocus),
        Command::MoveFocusLeft => AppInstruction::ToScreen(ScreenInstruction::MoveFocusLeft),
        Command::MoveFocusDown => AppInstruction::ToScreen(ScreenInstruction::MoveFocusDown),
        Command::MoveFocusUp => AppInstruction::ToScreen(ScreenInstruction::MoveFocusUp),
        Command::MoveFocusRight => AppInstruction::ToScreen(ScreenInstruction::MoveFocusRight),
        Command::ScrollUp => AppInstruction::ToScreen(ScreenInstruction::ScrollUp),
        Command::ScrollDown => AppInstruction::ToScreen(ScreenInstruction::ScrollDown),
        Command::NewPane => AppInstruction::ToPty(PtyInstruction::SpawnTerminal(None)),
        Command::SplitVertically => AppInstruction::ToPty(
            PtyInstruction::SpawnTerminalVertically(None),
        ),
        Command::SplitHorizontally => AppInstruction::ToPty(
            PtyInstruction::SpawnTerminalHorizontally(None),
        ),
        Command::CloseFocusedPane => AppInstruction::ToScreen(ScreenInstruction::CloseFocusedPane),
        Command::ToggleFullscreen => AppInstruction::ToScreen(
            ScreenInstruction::ToggleActiveTerminalFullscreen,
        ),
        Command::NewTab => AppInstruction::ToPty(PtyInstruction::NewTab),
        Command::NextTab => AppInstruction::ToScreen(ScreenInstruction::SwitchTabNext),
        Command::PreviousTab => AppInstruction::ToScreen(ScreenInstruction::SwitchTabPrev),
        Command::CloseTab => AppInstruction::ToScreen(ScreenInstruction::CloseTab),
        Command::Quit => AppInstruction::Exit,
    }
}

/// What a command has the reader of keys wait for: that the pane it opens
/// is open, or that the pane it closes is closed.
pub open spec fn awaited(command: Command) -> Option<Acknowledgement> {
    match command {
        Command::NewPane
        | Command::SplitVertically
        | Command::SplitHorizontally
        | Command::NewTab => Some(Acknowledgement::OpenedPane),
        Command::CloseFocusedPane | Command::CloseTab => Some(Acknowledgement::ClosedPane),
        _ => None,
    }
}

/// The mode after keys were read in `mode`.
pub open spec fn mode_after(mode: InputMode, keys: Seq<u8>) -> InputMode {
    match mode {
        InputMode::Exiting => InputMode::Exiting,
        InputMode::Normal => if keys == seq![CTRL_G] {
            InputMode::Command
        } else {
            InputMode::Normal
        },
        InputMode::Command => if keys == seq![CTRL_G] {
            InputMode::CommandPersistent
        } else if keys == seq![ESC] {
            InputMode::Normal
        } else {
            match bound(keys) {
                Some(Command::Quit) => InputMode::Exiting,
                Some(_) => InputMode::Normal,
                None => InputMode::Command,
            }
        },
        InputMode::CommandPersistent => if keys == seq![CTRL_G] || keys == seq![ESC] {
            InputMode::Normal
        } else {
            match bound(keys) {
                Some(Command::Quit) => InputMode::Exiting,
                _ => InputMode::CommandPersistent,
            }
        },
    }
}

/// The command that keys read in `mode` give, if any.
pub open spec fn command_given(mode: InputMode, keys: Seq<u8>) -> Option<Command> {
    if (mode == InputMode::Command || mode == InputMode::CommandPersistent) && keys != seq![CTRL_G]
        && keys != seq![ESC] {
        bound(keys)
    } else {
        None
    }
}

/// Whether `outcome` is what keys read in `mode` mean: a command if they
/// give one; the keys themselves, for the plugins and for the focused pane
/// with its scroll cleared, if they are typed as they are and are not
/// `Ctrl-g`; else nothing.
pub open spec fn means(mode: InputMode, keys: Seq<u8>, outcome: KeyOutcome) -> bool {
    &&& outcome.mode == mode_after(mode, keys)
    &&& match command_given(mode, keys) {
        Some(command) => outcome.sends@ == seq![sent_for(command)] && outcome.wait_for == awaited(
            command,
        ),
        None => {
            &&& outcome.wait_for is None
            &&& if mode == InputMode::Normal && keys != seq![CTRL_G] {
                &&& outcome.sends@.len() == 3
                &&& outcome.sends@[0] matches AppInstruction::ToPlugin(
                    PluginInstruction::GlobalInput(told),
                )
                &&& told@ == keys
                &&& outcome.sends@[1] == AppInstruction::ToScreen(ScreenInstruction::ClearScroll)
                &&& outcome.sends@[2] matches AppInstruction::ToScreen(
                    ScreenInstruction::WriteCharacter(typed),
                )
                &&& typed@ == keys
            } else {
                outcome.sends@.len() == 0
            }
        },
    }
}

/// Whether `keys` is the one byte `key`.
fn is_key(keys: &Vec<u8>, key: u8) -> (r: bool)
    ensures
        r == (keys@ == seq![key]),
{
    if keys.len() == 1 && keys[0] == key {
        assert(keys@ =~= seq![key]);
        true
    } else {
        if keys.len() == 1 {
            assert(keys@[0] != seq![key][0]);
        } else {
            assert(keys@.len() != seq![key].len());
        }
        false
    }
}

/// Whether `keys` is the sequence that a terminal sends for the page key
/// with the given digit.
fn is_page_key(keys: &Vec<u8>, digit: u8) -> (r: bool)
    ensures
        r == (keys@ == seq![0x1bu8, 0x5bu8, digit, 0x7eu8]),
{
    let ghost expected = seq![0x1bu8, 0x5bu8, digit, 0x7eu8];
    if keys.len() == 4 && keys[0] == 0x1b && keys[1] == 0x5b && keys[2] == digit && keys[3]
        == 0x7e {
        assert(keys@ =~= expected);
        true
    } else {
        if keys.len() == 4 {
            assert(keys@[0] != expected[0] || keys@[1] != expected[1] || keys@[2] != expected[2]
                || keys@[3] != expected[3]);
        } else {
            assert(keys@.len() != expected.len());
        }
        false
    }
}

/// The command that the keys ask for in command mode, if any.
pub fn command_for(keys: &Vec<u8>) -> (r: Option<Command>)
    ensures
        r == bound(keys@),
{
    if is_key(keys, 0x68) {
        Some(Command::ResizeLeft)
    } else if is_key(keys, 0x6a) {
        Some(Command::ResizeDown)
    } else if is_key(keys, 0x6b) {
        Some(Command::ResizeUp)
    } else if is_key(keys, 0x6c) {
        Some(Command::ResizeRight)
    } else if is_key(keys, 0x70) {
        Some(Command::MoveFocus)
    } else if is_key(keys, 0x79) {
        Some(Command::MoveFocusLeft)
    } else if is_key(keys, 0x75) {
        Some(Command::MoveFocusDown)
    } else if is_key(keys, 0x69) {
        Some(Command::MoveFocusUp)
    } else if is_key(keys, 0x6f) {
        Some(Command::MoveFocusRight)
    } else if is_page_key(keys, 0x35) {
        Some(Command::ScrollUp)
    } else if is_page_key(keys, 0x36) {
        Some(Command::ScrollDown)
    } else if is_key(keys, 0x7a) {
        Some(Command::NewPane)
    } else if is_key(keys, 0x6e) {
        Some(Command::SplitVertically)
    } else if is_key(keys, 0x62) {
        Some(Command::SplitHorizontally)
    } else if is_key(keys, 0x78) {
        Some(Command::CloseFocusedPane)
    } else if is_key(keys, 0x65) {
        Some(Command::ToggleFullscreen)
    } else if is_key(keys, 0x31) {
        Some(Command::NewTab)
    } else if is_key(keys, 0x32) {
        Some(Command::NextTab)
    } else if is_key(keys, 0x33) {
        Some(Command::PreviousTab)
    } else if is_key(keys, 0x34) {
        Some(Command::CloseTab)
    } else if is_key(keys, 0x71) {
        Some(Command::Quit)
    } else {
        None
    }
}

impl Command {
    /// What the command has sent to the dispatcher of the session.
    pub fn instruction(&self) -> (r: AppInstruction)
        ensures
            r == sent_for(*self),
    {
        match self {
            Command::ResizeLeft => AppInstruction::ToScreen(ScreenInstruction::ResizeLeft),
            Command::ResizeDown => AppInstruction::ToScreen(ScreenInstruction::ResizeDown),
            Command::ResizeUp => AppInstruction::ToScreen(ScreenInstruction::ResizeUp),
            Command::ResizeRight => AppInstruction::ToScreen(ScreenInstruction::ResizeRight),
            Command::MoveFocus => AppInstruction::ToScreen(ScreenInstruction::MoveFocus),
            Command::MoveFocusLeft => AppInstruction::ToScreen(ScreenInstruction::MoveFocusLeft),
            Command::MoveFocusDown => AppInstruction::ToScreen(ScreenInstruction::MoveFocusDown),
            Command::MoveFocusUp => AppInstruction::ToScreen(ScreenInstruction::MoveFocusUp),
            Command::MoveFocusRight => AppInstruction::ToScreen(ScreenInstruction::MoveFocusRight),
            Command::ScrollUp => AppInstruction::ToScreen(ScreenInstruction::ScrollUp),
            Command::ScrollDown => AppInstruction::ToScreen(ScreenInstruction::ScrollDown),
            Command::NewPane => AppInstruction::ToPty(PtyInstruction::SpawnTerminal(None)),
            Command::SplitVertically => AppInstruction::ToPty(
                PtyInstruction::SpawnTerminalVertically(None),
            ),
            Command::SplitHorizontally => AppInstruction::ToPty(
                PtyInstruction::SpawnTerminalHorizontally(None),
            ),
            Command::CloseFocusedPane => AppInstruction::ToScreen(
                ScreenInstruction::CloseFocusedPane,
            ),
            Command::ToggleFullscreen => AppInstruction::ToScreen(
                ScreenInstruction::ToggleActiveTerminalFullscreen,
            ),
            Command::NewTab => AppInstruction::ToPty(PtyInstruction::NewTab),
            Command::NextTab => AppInstruction::ToScreen(ScreenInstruction::SwitchTabNext),
            Command::PreviousTab => AppInstruction::ToScreen(ScreenInstruction::SwitchTabPrev),
            Command::CloseTab => AppInstruction::ToScreen(ScreenInstruction::CloseTab),
            Command::Quit => AppInstruction::Exit,
        }
    }

    /// What the command has the reader of keys wait for.
    pub fn waits_for(&self) -> (r: Option<Acknowledgement>)
        ensures
            r == awaited(*self),
    {
        match self {
            Command::NewPane
            | Command::SplitVertically
            | Command::SplitHorizontally
            | Command::NewTab => Some(Acknowledgement::OpenedPane),
            Command::CloseFocusedPane | Command::CloseTab => Some(Acknowledgement::ClosedPane),
            _ => None,
        }
    }
}

/// A copy of the keys.
fn copy_keys(keys: &Vec<u8>) -> (r: Vec<u8>)
    ensures
        r@ == keys@,
{
    let mut copy: Vec<u8> = Vec::new();
    let mut i: usize = 0;
    while i < keys.len()
        invariant
            0 <= i <= keys.len(),
            copy@ == keys@.take(i as int),
        decreases keys.len() - i,
    {
        copy.push(keys[i]);
        i += 1;
        assert(copy@ =~= keys@.take(i as int));
    }
    assert(keys@.take(keys.len() as int) =~= keys@);
    copy
}

/// Says what the keys that were read together mean in the mode of `state`.
pub fn handle_keys(state: AppState, keys: Vec<u8>) -> (outcome: KeyOutcome)
    ensures
        means(state.input_mode, keys@, outcome),
{
    let mode = state.input_mode;
    let mut sends: Vec<AppInstruction> = Vec::new();
    let toggles = is_key(&keys, CTRL_G);
    let escapes = is_key(&keys, ESC);
    match mode {
        InputMode::Exiting => KeyOutcome { mode, sends, wait_for: None },
        InputMode::Normal => {
            if toggles {
                KeyOutcome { mode: InputMode::Command, sends, wait_for: None }
            } else {
                let told = copy_keys(&keys);
                sends.push(AppInstruction::ToPlugin(PluginInstruction::GlobalInput(told)));
                sends.push(AppInstruction::ToScreen(ScreenInstruction::ClearScroll));
                sends.push(AppInstruction::ToScreen(ScreenInstruction::WriteCharacter(keys)));
                KeyOutcome { mode, sends, wait_for: None }
            }
        },
        InputMode::Command | InputMode::CommandPersistent => {
            let persistent = match mode {
                InputMode::CommandPersistent => true,
                _ => false,
            };
            if toggles {
                KeyOutcome {
                    mode: if persistent {
                        InputMode::Normal
                    } else {
                        InputMode::CommandPersistent
                    },
                    sends,
                    wait_for: None,
                }
            } else if escapes {
                KeyOutcome { mode: InputMode::Normal, sends, wait_for: None }
            } else {
                match command_for(&keys) {
                    None => KeyOutcome { mode, sends, wait_for: None },
                    Some(command) => {
                        sends.push(command.instruction());
                        assert(sends@ =~= seq![sent_for(command)]);
                        let next = match command {
                            Command::Quit => InputMode::Exiting,
                            _ => if persistent {
                                InputMode::CommandPersistent
                            } else {
                                InputMode::Normal
                            },
                        };
                        KeyOutcome { mode: next, sends, wait_for: command.waits_for() }
                    },
                }
            }
        },
    }
}

} // verus!
