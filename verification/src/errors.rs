//! The causal chain that travels with every instruction.

use crate::common::AppInstruction;
use crate::pty_bus::PtyInstruction;
use crate::screen::ScreenInstruction;
use crate::wasm_vm::PluginInstruction;
use vstd::prelude::*;

verus! {

/// How many calls an [`ErrorContext`] remembers.
pub const MAX_CALLS: usize = 6;

/// The kind of an instruction that the application dispatcher handled.
#[derive(Clone, Copy, Debug, PartialEq, Eq, Structural)]
pub enum AppContext {
    GetState,
    SetState,
    Exit,
    Error,
    ToPty,
    ToPlugin,
    ToScreen,
}

/// The kind of an instruction that the screen handled.
#[derive(Clone, Copy, Debug, PartialEq, Eq, Structural)]
pub enum ScreenContext {
    Pty,
    Render,
    NewPane,
    HorizontalSplit,
    VerticalSplit,
    WriteCharacter,
    ResizeLeft,
    ResizeRight,
    ResizeDown,
    ResizeUp,
    MoveFocus,
    MoveFocusLeft,
    MoveFocusDown,
    MoveFocusUp,
    MoveFocusRight,
    ScrollUp,
    ScrollDown,
    ClearScroll,
    CloseFocusedPane,
    ToggleActiveTerminalFullscreen,
    SetSelectable,
    SetInvisibleBorders,
    SetMaxHeight,
    ClosePane,
    ApplyLayout,
    NewTab,
    SwitchTabNext,
    SwitchTabPrev,
    CloseTab,
    Exit,
}

/// The kind of an instruction that the PTY bus handled.
#[derive(Clone, Copy, Debug, PartialEq, Eq, Structural)]
pub enum PtyContext {
    SpawnTerminal,
    SpawnTerminalVertically,
    SpawnTerminalHorizontally,
    NewTab,
    ClosePane,
    CloseTab,
    Exit,
}

/// The kind of an instruction that the plugin host handled.
#[derive(Clone, Copy, Debug, PartialEq, Eq, Structural)]
pub enum PluginContext {
    Load,
    Draw,
    Input,
    GlobalInput,
    Unload,
    Exit,
}

/// A bus: one of the places where instructions are handled.
#[derive(Clone, Copy, Debug, PartialEq, Eq, Structural)]
pub enum Bus {
    App,
    Screen,
    Pty,
    Plugin,
    IpcServer,
}

/// One entry of the causal chain: the bus that handled an instruction and the
/// kind of that instruction.
#[derive(Clone, Copy, Debug, PartialEq, Eq, Structural)]
pub enum ContextType {
    App(AppContext),
    Screen(ScreenContext),
    Pty(PtyContext),
    Plugin(PluginContext),
    IPCServer,
}

impl ContextType {
    /// The bus that the entry names.
    pub open spec fn bus(self) -> Bus {
        match self {
            ContextType::App(_) => Bus::App,
            ContextType::Screen(_) => Bus::Screen,
            ContextType::Pty(_) => Bus::Pty,
            ContextType::Plugin(_) => Bus::Plugin,
            ContextType::IPCServer => Bus::IpcServer,
        }
    }

    /// The bus that the entry names.
    pub fn handler(&self) -> (r: Bus)
        ensures
            r == self.bus(),
    {
        match self {
            ContextType::App(_) => Bus::App,
            ContextType::Screen(_) => Bus::Screen,
            ContextType::Pty(_) => Bus::Pty,
            ContextType::Plugin(_) => Bus::Plugin,
            ContextType::IPCServer => Bus::IpcServer,
        }
    }
}

impl AppContext {
    /// The kind of `instruction`.
    pub open spec fn kind(instruction: AppInstruction) -> AppContext {
        match instruction {
            AppInstruction::GetState(_) => AppContext::GetState,
            AppInstruction::SetState(_) => AppContext::SetState,
            AppInstruction::Exit => AppContext::Exit,
            AppInstruction::Error(_) => AppContext::Error,
            AppInstruction::ToPty(_) => AppContext::ToPty,
            AppInstruction::ToPlugin(_) => AppContext::ToPlugin,
            AppInstruction::ToScreen(_) => AppContext::ToScreen,
        }
    }

    /// The kind of `instruction`.
    pub fn of(instruction: &AppInstruction) -> (r: AppContext)
        ensures
            r == Self::kind(*instruction),
    {
        match instruction {
            AppInstruction::GetState(_) => AppContext::GetState,
            AppInstruction::SetState(_) => AppContext::SetState,
            AppInstruction::Exit => AppContext::Exit,
            AppInstruction::Error(_) => AppContext::Error,
            AppInstruction::ToPty(_) => AppContext::ToPty,
            AppInstruction::ToPlugin(_) => AppContext::ToPlugin,
            AppInstruction::ToScreen(_) => AppContext::ToScreen,
        }
    }
}

impl PtyContext {
    /// The kind of `instruction`.
    pub open spec fn kind(instruction: PtyInstruction) -> PtyContext {
        match instruction {
            PtyInstruction::SpawnTerminal(_) => PtyContext::SpawnTerminal,
            PtyInstruction::SpawnTerminalVertically(_) => PtyContext::SpawnTerminalVertically,
            PtyInstruction::SpawnTerminalHorizontally(_) => PtyContext::SpawnTerminalHorizontally,
            PtyInstruction::NewTab => PtyContext::NewTab,
            PtyInstruction::ClosePane(_) => PtyContext::ClosePane,
            PtyInstruction::CloseTab(_) => PtyContext::CloseTab,
            PtyInstruction::Exit => PtyContext::Exit,
        }
    }

    /// The kind of `instruction`.
    pub fn of(instruction: &PtyInstruction) -> (r: PtyContext)
        ensures
            r == Self::kind(*instruction),
    {
        match instruction {
            PtyInstruction::SpawnTerminal(_) => PtyContext::SpawnTerminal,
            PtyInstruction::SpawnTerminalVertically(_) => PtyContext::SpawnTerminalVertically,
            PtyInstruction::SpawnTerminalHorizontally(_) => PtyContext::SpawnTerminalHorizontally,
            PtyInstruction::NewTab => PtyContext::NewTab,
            PtyInstruction::ClosePane(_) => PtyContext::ClosePane,
            PtyInstruction::CloseTab(_) => PtyContext::CloseTab,
            PtyInstruction::Exit => PtyContext::Exit,
        }
    }
}

impl PluginContext {
    /// The kind of `instruction`.
    pub open spec fn kind(instruction: PluginInstruction) -> PluginContext {
        match instruction {
            PluginInstruction::Load(_, _) => PluginContext::Load,
            PluginInstruction::Draw(_, _, _, _) => PluginContext::Draw,
            PluginInstruction::Input(_, _) => PluginContext::Input,
            PluginInstruction::GlobalInput(_) => PluginContext::GlobalInput,
            PluginInstruction::Unload(_) => PluginContext::Unload,
            PluginInstruction::Exit => PluginContext::Exit,
        }
    }

    /// The kind of `instruction`.
    pub fn of(instruction: &PluginInstruction) -> (r: PluginContext)
        ensures
            r == Self::kind(*instruction),
    {
        match instruction {
            PluginInstruction::Load(_, _) => PluginContext::Load,
            PluginInstruction::Draw(_, _, _, _) => PluginContext::Draw,
            PluginInstruction::Input(_, _) => PluginContext::Input,
            PluginInstruction::GlobalInput(_) => PluginContext::GlobalInput,
            PluginInstruction::Unload(_) => PluginContext::Unload,
            PluginInstruction::Exit => PluginContext::Exit,
        }
    }
}

impl ScreenContext {
    /// The kind of `instruction`.
    pub open spec fn kind(instruction: ScreenInstruction) -> ScreenContext {
        match instruction {
            ScreenInstruction::Pty(_, _) => ScreenContext::Pty,
            ScreenInstruction::Render => ScreenContext::Render,
            ScreenInstruction::NewPane(_) => ScreenContext::NewPane,
            ScreenInstruction::HorizontalSplit(_) => ScreenContext::HorizontalSplit,
            ScreenInstruction::VerticalSplit(_) => ScreenContext::VerticalSplit,
            ScreenInstruction::WriteCharacter(_) => ScreenContext::WriteCharacter,
            ScreenInstruction::ResizeLeft => ScreenContext::ResizeLeft,
            ScreenInstruction::ResizeRight => ScreenContext::ResizeRight,
            ScreenInstruction::ResizeDown => ScreenContext::ResizeDown,
            ScreenInstruction::ResizeUp => ScreenContext::ResizeUp,
            ScreenInstruction::MoveFocus => ScreenContext::MoveFocus,
            ScreenInstruction::MoveFocusLeft => ScreenContext::MoveFocusLeft,
            ScreenInstruction::MoveFocusDown => ScreenContext::MoveFocusDown,
            ScreenInstruction::MoveFocusUp => ScreenContext::MoveFocusUp,
            ScreenInstruction::MoveFocusRight => ScreenContext::MoveFocusRight,
            ScreenInstruction::ScrollUp => ScreenContext::ScrollUp,
            ScreenInstruction::ScrollDown => ScreenContext::ScrollDown,
            ScreenInstruction::ClearScroll => ScreenContext::ClearScroll,
            ScreenInstruction::CloseFocusedPane => ScreenContext::CloseFocusedPane,
            ScreenInstruction::ToggleActiveTerminalFullscreen => {
                ScreenContext::ToggleActiveTerminalFullscreen
            },
            ScreenInstruction::SetSelectable(_, _) => ScreenContext::SetSelectable,
            ScreenInstruction::SetInvisibleBorders(_, _) => ScreenContext::SetInvisibleBorders,
            ScreenInstruction::SetMaxHeight(_, _) => ScreenContext::SetMaxHeight,
            ScreenInstruction::ClosePane(_) => ScreenContext::ClosePane,
            ScreenInstruction::ApplyLayout(_, _) => ScreenContext::ApplyLayout,
            ScreenInstruction::NewTab(_) => ScreenContext::NewTab,
            ScreenInstruction::SwitchTabNext => ScreenContext::SwitchTabNext,
            ScreenInstruction::SwitchTabPrev => ScreenContext::SwitchTabPrev,
            ScreenInstruction::CloseTab => ScreenContext::CloseTab,
            ScreenInstruction::Exit => ScreenContext::Exit,
        }
    }

    /// The kind of `instruction`.
    pub fn of(instruction: &ScreenInstruction) -> (r: ScreenContext)
        ensures
            r == Self::kind(*instruction),
    {
        match instruction {
            ScreenInstruction::Pty(_, _) => ScreenContext::Pty,
            ScreenInstruction::Render => ScreenContext::Render,
            ScreenInstruction::NewPane(_) => ScreenContext::NewPane,
            ScreenInstruction::HorizontalSplit(_) => ScreenContext::HorizontalSplit,
            ScreenInstruction::VerticalSplit(_) => ScreenContext::VerticalSplit,
            ScreenInstruction::WriteCharacter(_) => ScreenContext::WriteCharacter,
            ScreenInstruction::ResizeLeft => ScreenContext::ResizeLeft,
            ScreenInstruction::ResizeRight => ScreenContext::ResizeRight,
            ScreenInstruction::ResizeDown => ScreenContext::ResizeDown,
            ScreenInstruction::ResizeUp => ScreenContext::ResizeUp,
            ScreenInstruction::MoveFocus => ScreenContext::MoveFocus,
            ScreenInstruction::MoveFocusLeft => ScreenContext::MoveFocusLeft,
            ScreenInstruction::MoveFocusDown => ScreenContext::MoveFocusDown,
            ScreenInstruction::MoveFocusUp => ScreenContext::MoveFocusUp,
            ScreenInstruction::MoveFocusRight => ScreenContext::MoveFocusRight,
            ScreenInstruction::ScrollUp => ScreenContext::ScrollUp,
            ScreenInstruction::ScrollDown => ScreenContext::ScrollDown,
            ScreenInstruction::ClearScroll => ScreenContext::ClearScroll,
            ScreenInstruction::CloseFocusedPane => ScreenContext::CloseFocusedPane,
            ScreenInstruction::ToggleActiveTerminalFullscreen => {
                ScreenContext::ToggleActiveTerminalFullscreen
            },
            ScreenInstruction::SetSelectable(_, _) => ScreenContext::SetSelectable,
            ScreenInstruction::SetInvisibleBorders(_, _) => ScreenContext::SetInvisibleBorders,
            ScreenInstruction::SetMaxHeight(_, _) => ScreenContext::SetMaxHeight,
            ScreenInstruction::ClosePane(_) => ScreenContext::ClosePane,
            ScreenInstruction::ApplyLayout(_, _) => ScreenContext::ApplyLayout,
            ScreenInstruction::NewTab(_) => ScreenContext::NewTab,
            ScreenInstruction::SwitchTabNext => ScreenContext::SwitchTabNext,
            ScreenInstruction::SwitchTabPrev => ScreenContext::SwitchTabPrev,
            ScreenInstruction::CloseTab => ScreenContext::CloseTab,
            ScreenInstruction::Exit => ScreenContext::Exit,
        }
    }
}

impl AppContext {
    /// The number that stands for the kind where chains are written down.
    pub open spec fn number(self) -> u8 {
        match self {
            AppContext::GetState => 0,
            AppContext::SetState => 1,
            AppContext::Exit => 2,
            AppContext::Error => 3,
            AppContext::ToPty => 4,
            AppContext::ToPlugin => 5,
            AppContext::ToScreen => 6,
        }
    }

    /// The kind that a number stands for, if it stands for one.
    pub open spec fn numbered(number: u8) -> Option<AppContext> {
        if number == 0 {
            Some(AppContext::GetState)
        } else if number == 1 {
            Some(AppContext::SetState)
        } else if number == 2 {
            Some(AppContext::Exit)
        } else if number == 3 {
            Some(AppContext::Error)
        } else if number == 4 {
            Some(AppContext::ToPty)
        } else if number == 5 {
            Some(AppContext::ToPlugin)
        } else if number == 6 {
            Some(AppContext::ToScreen)
        } else {
            None
        }
    }

    /// The number that stands for the kind where chains are written down.
    /// The kind is read back from its number, and from no other.
    pub fn code(&self) -> (r: u8)
        ensures
            r == self.number(),
            Self::numbered(r) == Some(*self),
    {
        match self {
            AppContext::GetState => 0,
            AppContext::SetState => 1,
            AppContext::Exit => 2,
            AppContext::Error => 3,
            AppContext::ToPty => 4,
            AppContext::ToPlugin => 5,
            AppContext::ToScreen => 6,
        }
    }

    /// The kind that a number stands for, if it stands for one.
    pub fn from_code(code: u8) -> (r: Option<AppContext>)
        ensures
            r == Self::numbered(code),
            r matches Some(kind) ==> kind.number() == code,
    {
        if code == 0 {
            Some(AppContext::GetState)
        } else if code == 1 {
            Some(AppContext::SetState)
        } else if code == 2 {
            Some(AppContext::Exit)
        } else if code == 3 {
            Some(AppContext::Error)
        } else if code == 4 {
            Some(AppContext::ToPty)
        } else if code == 5 {
            Some(AppContext::ToPlugin)
        } else if code == 6 {
            Some(AppContext::ToScreen)
        } else {
            None
        }
    }
}

impl ScreenContext {
    /// The number that stands for the kind where chains are written down.
    pub open spec fn number(self) -> u8 {
        match self {
            ScreenContext::Pty => 0,
            ScreenContext::Render => 1,
            ScreenContext::NewPane => 2,
            ScreenContext::HorizontalSplit => 3,
            ScreenContext::VerticalSplit => 4,
            ScreenContext::WriteCharacter => 5,
            ScreenContext::ResizeLeft => 6,
            ScreenContext::ResizeRight => 7,
            ScreenContext::ResizeDown => 8,
            ScreenContext::ResizeUp => 9,
            ScreenContext::MoveFocus => 10,
            ScreenContext::MoveFocusLeft => 11,
            ScreenContext::MoveFocusDown => 12,
            ScreenContext::MoveFocusUp => 13,
            ScreenContext::MoveFocusRight => 14,
            ScreenContext::ScrollUp => 15,
            ScreenContext::ScrollDown => 16,
            ScreenContext::ClearScroll => 17,
            ScreenContext::CloseFocusedPane => 18,
            ScreenContext::ToggleActiveTerminalFullscreen => 19,
            ScreenContext::SetSelectable => 20,
            ScreenContext::SetInvisibleBorders => 21,
            ScreenContext::SetMaxHeight => 22,
            ScreenContext::ClosePane => 23,
            ScreenContext::ApplyLayout => 24,
            ScreenContext::NewTab => 25,
            ScreenContext::SwitchTabNext => 26,
            ScreenContext::SwitchTabPrev => 27,
            ScreenContext::CloseTab => 28,
            ScreenContext::Exit => 29,
        }
    }

    /// The kind that a number stands for, if it stands for one.
    pub open spec fn numbered(number: u8) -> Option<ScreenContext> {
        if number == 0 {
            Some(ScreenContext::Pty)
        } else if number == 1 {
            Some(ScreenContext::Render)
        } else if number == 2 {
            Some(ScreenContext::NewPane)
        } else if number == 3 {
            Some(ScreenContext::HorizontalSplit)
        } else if number == 4 {
            Some(ScreenContext::VerticalSplit)
        } else if number == 5 {
            Some(ScreenContext::WriteCharacter)
        } else if number == 6 {
            Some(ScreenContext::ResizeLeft)
        } else if number == 7 {
            Some(ScreenContext::ResizeRight)
        } else if number == 8 {
            Some(ScreenContext::ResizeDown)
        } else if number == 9 {
            Some(ScreenContext::ResizeUp)
        } else if number == 10 {
            Some(ScreenContext::MoveFocus)
        } else if number == 11 {
            Some(ScreenContext::MoveFocusLeft)
        } else if number == 12 {
            Some(ScreenContext::MoveFocusDown)
        } else if number == 13 {
            Some(ScreenContext::MoveFocusUp)
        } else if number == 14 {
            Some(ScreenContext::MoveFocusRight)
        } else if number == 15 {
            Some(ScreenContext::ScrollUp)
        } else if number == 16 {
            Some(ScreenContext::ScrollDown)
        } else if number == 17 {
            Some(ScreenContext::ClearScroll)
        } else if number == 18 {
            Some(ScreenContext::CloseFocusedPane)
        } else if number == 19 {
            Some(ScreenContext::ToggleActiveTerminalFullscreen)
        } else if number == 20 {
            Some(ScreenContext::SetSelectable)
        } else if number == 21 {
            Some(ScreenContext::SetInvisibleBorders)
        } else if number == 22 {
            Some(ScreenContext::SetMaxHeight)
        } else if number == 23 {
            Some(ScreenContext::ClosePane)
        } else if number == 24 {
            Some(ScreenContext::ApplyLayout)
        } else if number == 25 {
            Some(ScreenContext::NewTab)
        } else if number == 26 {
            Some(ScreenContext::SwitchTabNext)
        } else if number == 27 {
            Some(ScreenContext::SwitchTabPrev)
        } else if number == 28 {
            Some(ScreenContext::CloseTab)
        } else if number == 29 {
            Some(ScreenContext::Exit)
        } else {
            None
        }
    }

    /// The number that stands for the kind where chains are written down.
    /// The kind is read back from its number, and from no other.
    pub fn code(&self) -> (r: u8)
        ensures
            r == self.number(),
            Self::numbered(r) == Some(*self),
    {
        match self {
            ScreenContext::Pty => 0,
            ScreenContext::Render => 1,
            ScreenContext::NewPane => 2,
            ScreenContext::HorizontalSplit => 3,
            ScreenContext::VerticalSplit => 4,
            ScreenContext::WriteCharacter => 5,
            ScreenContext::ResizeLeft => 6,
            ScreenContext::ResizeRight => 7,
            ScreenContext::ResizeDown => 8,
            ScreenContext::ResizeUp => 9,
            ScreenContext::MoveFocus => 10,
            ScreenContext::MoveFocusLeft => 11,
            ScreenContext::MoveFocusDown => 12,
            ScreenContext::MoveFocusUp => 13,
            ScreenContext::MoveFocusRight => 14,
            ScreenContext::ScrollUp => 15,
            ScreenContext::ScrollDown => 16,
            ScreenContext::ClearScroll => 17,
            ScreenContext::CloseFocusedPane => 18,
            ScreenContext::ToggleActiveTerminalFullscreen => 19,
            ScreenContext::SetSelectable => 20,
            ScreenContext::SetInvisibleBorders => 21,
            ScreenContext::SetMaxHeight => 22,
            ScreenContext::ClosePane => 23,
            ScreenContext::ApplyLayout => 24,
            ScreenContext::NewTab => 25,
            ScreenContext::SwitchTabNext => 26,
            ScreenContext::SwitchTabPrev => 27,
            ScreenContext::CloseTab => 28,
            ScreenContext::Exit => 29,
        }
    }

    /// The kind that a number stands for, if it stands for one.
    pub fn from_code(code: u8) -> (r: Option<ScreenContext>)
        ensures
            r == Self::numbered(code),
            r matches Some(kind) ==> kind.number() == code,
    {
        if code == 0 {
            Some(ScreenContext::Pty)
        } else if code == 1 {
            Some(ScreenContext::Render)
        } else if code == 2 {
            Some(ScreenContext::NewPane)
        } else if code == 3 {
            Some(ScreenContext::HorizontalSplit)
        } else if code == 4 {
            Some(ScreenContext::VerticalSplit)
        } else if code == 5 {
            Some(ScreenContext::WriteCharacter)
        } else if code == 6 {
            Some(ScreenContext::ResizeLeft)
        } else if code == 7 {
            Some(ScreenContext::ResizeRight)
        } else if code == 8 {
            Some(ScreenContext::ResizeDown)
        } else if code == 9 {
            Some(ScreenContext::ResizeUp)
        } else if code == 10 {
            Some(ScreenContext::MoveFocus)
        } else if code == 11 {
            Some(ScreenContext::MoveFocusLeft)
        } else if code == 12 {
            Some(ScreenContext::MoveFocusDown)
        } else if code == 13 {
            Some(ScreenContext::MoveFocusUp)
        } else if code == 14 {
            Some(ScreenContext::MoveFocusRight)
        } else if code == 15 {
            Some(ScreenContext::ScrollUp)
        } else if code == 16 {
            Some(ScreenContext::ScrollDown)
        } else if code == 17 {
            Some(ScreenContext::ClearScroll)
        } else if code == 18 {
            Some(ScreenContext::CloseFocusedPane)
        } else if code == 19 {
            Some(ScreenContext::ToggleActiveTerminalFullscreen)
        } else if code == 20 {
            Some(ScreenContext::SetSelectable)
        } else if code == 21 {
            Some(ScreenContext::SetInvisibleBorders)
        } else if code == 22 {
            Some(ScreenContext::SetMaxHeight)
        } else if code == 23 {
            Some(ScreenContext::ClosePane)
        } else if code == 24 {
            Some(ScreenContext::ApplyLayout)
        } else if code == 25 {
            Some(ScreenContext::NewTab)
        } else if code == 26 {
            Some(ScreenContext::SwitchTabNext)
        } else if code == 27 {
            Some(ScreenContext::SwitchTabPrev)
        } else if code == 28 {
            Some(ScreenContext::CloseTab)
        } else if code == 29 {
            Some(ScreenContext::Exit)
        } else {
            None
        }
    }
}

impl PtyContext {
    /// The number that stands for the kind where chains are written down.
    pub open spec fn number(self) -> u8 {
        match self {
            PtyContext::SpawnTerminal => 0,
            PtyContext::SpawnTerminalVertically => 1,
            PtyContext::SpawnTerminalHorizontally => 2,
            PtyContext::NewTab => 3,
            PtyContext::ClosePane => 4,
            PtyContext::CloseTab => 5,
            PtyContext::Exit => 6,
        }
    }

    /// The kind that a number stands for, if it stands for one.
    pub open spec fn numbered(number: u8) -> Option<PtyContext> {
        if number == 0 {
            Some(PtyContext::SpawnTerminal)
        } else if number == 1 {
            Some(PtyContext::SpawnTerminalVertically)
        } else if number == 2 {
            Some(PtyContext::SpawnTerminalHorizontally)
        } else if number == 3 {
            Some(PtyContext::NewTab)
        } else if number == 4 {
            Some(PtyContext::ClosePane)
        } else if number == 5 {
            Some(PtyContext::CloseTab)
        } else if number == 6 {
            Some(PtyContext::Exit)
        } else {
            None
        }
    }

    /// The number that stands for the kind where chains are written down.
    /// The kind is read back from its number, and from no other.
    pub fn code(&self) -> (r: u8)
        ensures
            r == self.number(),
            Self::numbered(r) == Some(*self),
    {
        match self {
            PtyContext::SpawnTerminal => 0,
            PtyContext::SpawnTerminalVertically => 1,
            PtyContext::SpawnTerminalHorizontally => 2,
            PtyContext::NewTab => 3,
            PtyContext::ClosePane => 4,
            PtyContext::CloseTab => 5,
            PtyContext::Exit => 6,
        }
    }

    /// The kind that a number stands for, if it stands for one.
    pub fn from_code(code: u8) -> (r: Option<PtyContext>)
        ensures
            r == Self::numbered(code),
            r matches Some(kind) ==> kind.number() == code,
    {
        if code == 0 {
            Some(PtyContext::SpawnTerminal)
        } else if code == 1 {
            Some(PtyContext::SpawnTerminalVertically)
        } else if code == 2 {
            Some(PtyContext::SpawnTerminalHorizontally)
        } else if code == 3 {
            Some(PtyContext::NewTab)
        } else if code == 4 {
            Some(PtyContext::ClosePane)
        } else if code == 5 {
            Some(PtyContext::CloseTab)
        } else if code == 6 {
            Some(PtyContext::Exit)
        } else {
            None
        }
    }
}

impl PluginContext {
    /// The number that stands for the kind where chains are written down.
    pub open spec fn number(self) -> u8 {
        match self {
            PluginContext::Load => 0,
            PluginContext::Draw => 1,
            PluginContext::Input => 2,
            PluginContext::GlobalInput => 3,
            PluginContext::Unload => 4,
            PluginContext::Exit => 5,
        }
    }

    /// The kind that a number stands for, if it stands for one.
    pub open spec fn numbered(number: u8) -> Option<PluginContext> {
        if number == 0 {
            Some(PluginContext::Load)
        } else if number == 1 {
            Some(PluginContext::Draw)
        } else if number == 2 {
            Some(PluginContext::Input)
        } else if number == 3 {
            Some(PluginContext::GlobalInput)
        } else if number == 4 {
            Some(PluginContext::Unload)
        } else if number == 5 {
            Some(PluginContext::Exit)
        } else {
            None
        }
    }

    /// The number that stands for the kind where chains are written down.
    /// The kind is read back from its number, and from no other.
    pub fn code(&self) -> (r: u8)
        ensures
            r == self.number(),
            Self::numbered(r) == Some(*self),
    {
        match self {
            PluginContext::Load => 0,
            PluginContext::Draw => 1,
            PluginContext::Input => 2,
            PluginContext::GlobalInput => 3,
            PluginContext::Unload => 4,
            PluginContext::Exit => 5,
        }
    }

    /// The kind that a number stands for, if it stands for one.
    pub fn from_code(code: u8) -> (r: Option<PluginContext>)
        ensures
            r == Self::numbered(code),
            r matches Some(kind) ==> kind.number() == code,
    {
        if code == 0 {
            Some(PluginContext::Load)
        } else if code == 1 {
            Some(PluginContext::Draw)
        } else if code == 2 {
            Some(PluginContext::Input)
        } else if code == 3 {
            Some(PluginContext::GlobalInput)
        } else if code == 4 {
            Some(PluginContext::Unload)
        } else if code == 5 {
            Some(PluginContext::Exit)
        } else {
            None
        }
    }
}

impl ContextType {
    /// The two numbers that stand for the call where chains are written
    /// down: one for the bus, one for the kind of the instruction.
    pub open spec fn number(self) -> (u8, u8) {
        match self {
            ContextType::App(kind) => (0, kind.number()),
            ContextType::Screen(kind) => (1, kind.number()),
            ContextType::Pty(kind) => (2, kind.number()),
            ContextType::Plugin(kind) => (3, kind.number()),
            ContextType::IPCServer => (4, 0),
        }
    }

    /// The call that two numbers stand for, if they stand for one.
    pub open spec fn numbered(bus: u8, kind: u8) -> Option<ContextType> {
        if bus == 0 {
            match AppContext::numbered(kind) {
                Some(kind) => Some(ContextType::App(kind)),
                None => None,
            }
        } else if bus == 1 {
            match ScreenContext::numbered(kind) {
                Some(kind) => Some(ContextType::Screen(kind)),
                None => None,
            }
        } else if bus == 2 {
            match PtyContext::numbered(kind) {
                Some(kind) => Some(ContextType::Pty(kind)),
                None => None,
            }
        } else if bus == 3 {
            match PluginContext::numbered(kind) {
                Some(kind) => Some(ContextType::Plugin(kind)),
                None => None,
            }
        } else if bus == 4 && kind == 0 {
            Some(ContextType::IPCServer)
        } else {
            None
        }
    }

    /// The two numbers that stand for the call where chains are written
    /// down. The call is read back from its numbers, and from no others.
    pub fn code(&self) -> (r: (u8, u8))
        ensures
            r == self.number(),
            Self::numbered(r.0, r.1) == Some(*self),
    {
        match self {
            ContextType::App(kind) => (0, kind.code()),
            ContextType::Screen(kind) => (1, kind.code()),
            ContextType::Pty(kind) => (2, kind.code()),
            ContextType::Plugin(kind) => (3, kind.code()),
            ContextType::IPCServer => (4, 0),
        }
    }

    /// The call that two numbers stand for, if they stand for one.
    pub fn from_code(bus: u8, kind: u8) -> (r: Option<ContextType>)
        ensures
            r == Self::numbered(bus, kind),
            r matches Some(call) ==> call.number() == (bus, kind),
    {
        if bus == 0 {
            match AppContext::from_code(kind) {
                Some(kind) => Some(ContextType::App(kind)),
                None => None,
            }
        } else if bus == 1 {
            match ScreenContext::from_code(kind) {
                Some(kind) => Some(ContextType::Screen(kind)),
                None => None,
            }
        } else if bus == 2 {
            match PtyContext::from_code(kind) {
                Some(kind) => Some(ContextType::Pty(kind)),
                None => None,
            }
        } else if bus == 3 {
            match PluginContext::from_code(kind) {
                Some(kind) => Some(ContextType::Plugin(kind)),
                None => None,
            }
        } else if bus == 4 && kind == 0 {
            Some(ContextType::IPCServer)
        } else {
            None
        }
    }
}

/// Whether the chain `after` is the chain `before` with the handling of an
/// instruction by `bus` recorded last.
pub open spec fn delivered_to(before: Seq<ContextType>, after: Seq<ContextType>, bus: Bus) -> bool {
    &&& after.len() > 0
    &&& after.last().bus() == bus
    &&& after == chain_with(before, after.last())
}

/// A chain to which a call has been added is not empty, is no longer than
/// a chain may be, ends with that call, and holds before it the calls it
/// held, but for the oldest where there was no room.
pub proof fn lemma_chain_with(calls: Seq<ContextType>, call: ContextType)
    requires
        calls.len() <= MAX_CALLS,
    ensures
        chain_with(calls, call).len() > 0,
        chain_with(calls, call).len() <= MAX_CALLS,
        chain_with(calls, call).last() == call,
        calls.len() < MAX_CALLS ==> chain_with(calls, call).drop_last() == calls,
        calls.len() == MAX_CALLS ==> chain_with(calls, call).drop_last() == calls.drop_first(),
        delivered_to(calls, chain_with(calls, call), call.bus()),
{
    if calls.len() < MAX_CALLS {
        assert(chain_with(calls, call).drop_last() =~= calls);
    } else {
        assert(chain_with(calls, call).drop_last() =~= calls.drop_first());
    }
}

/// The chain of calls an instruction has flowed through, oldest first.
///
/// The chain has room for [`MAX_CALLS`] entries. Once it is full, recording a
/// further call forgets the oldest one, so the last entry always names the
/// call recorded last.
#[derive(Clone, Copy, Debug, PartialEq, Eq)]
pub struct ErrorContext {
    calls: [Option<ContextType>; 6],
    len: usize,
}

impl View for ErrorContext {
    type V = Seq<ContextType>;

    closed spec fn view(&self) -> Seq<ContextType> {
        Seq::new(self.len as nat, |i: int| self.calls@[i].unwrap())
    }
}

/// The chain that results from recording `call` after `calls`.
pub open spec fn chain_with(calls: Seq<ContextType>, call: ContextType) -> Seq<ContextType> {
    if calls.len() < MAX_CALLS {
        calls.push(call)
    } else {
        calls.subrange(1, calls.len() as int).push(call)
    }
}

impl Default for ErrorContext {
    fn default() -> (r: Self)
        ensures
            r@ == Seq::<ContextType>::empty(),
    {
        ErrorContext::new()
    }
}

impl ErrorContext {
    #[verifier::type_invariant]
    spec fn inv(self) -> bool {
        &&& self.len <= 6
        &&& forall|i: int| 0 <= i < self.len ==> (#[trigger] self.calls@[i]) is Some
        &&& forall|i: int| self.len <= i < 6 ==> (#[trigger] self.calls@[i]) is None
    }

    /// The empty chain.
    pub fn new() -> (r: Self)
        ensures
            r@ == Seq::<ContextType>::empty(),
    {
        let r = ErrorContext { calls: [None, None, None, None, None, None], len: 0 };
        assert(r@ =~= Seq::<ContextType>::empty());
        r
    }

    /// Records `call` as the newest entry.
    pub fn add_call(&mut self, call: ContextType)
        ensures
            final(self)@ == chain_with(old(self)@, call),
            delivered_to(old(self)@, final(self)@, call.bus()),
    {
        proof {
            use_type_invariant(&*self);
        }
        let mut calls = self.calls;
        let mut len = self.len;
        if len == 6 {
            let mut i: usize = 0;
            while i < 5
                invariant
                    0 <= i <= 5,
                    forall|k: int| 0 <= k < i ==> calls@[k] == old(self).calls@[k + 1],
                    forall|k: int| i <= k < 6 ==> calls@[k] == old(self).calls@[k],
                decreases 5 - i,
            {
                calls[i] = calls[i + 1];
                i += 1;
            }
            len = 5;
        }
        calls[len] = Some(call);
        let next = ErrorContext { calls, len: len + 1 };
        assert(next@ =~= chain_with(old(self)@, call));
        proof {
            lemma_chain_with(old(self)@, call);
        }
        *self = next;
    }

    /// The call recorded last, if any call was recorded.
    pub fn last_call(&self) -> (r: Option<ContextType>)
        ensures
            self@.len() == 0 ==> r is None,
            self@.len() > 0 ==> r == Some(self@.last()),
    {
        proof {
            use_type_invariant(self);
        }
        if self.len == 0 {
            None
        } else {
            self.calls[self.len - 1]
        }
    }

    /// The calls of the chain, oldest first.
    pub fn calls(&self) -> (r: Vec<ContextType>)
        ensures
            r@ == self@,
    {
        proof {
            use_type_invariant(self);
        }
        let mut out: Vec<ContextType> = Vec::new();
        let mut i: usize = 0;
        while i < self.len
            invariant
                0 <= i <= self.len <= 6,
                out@ == self@.take(i as int),
                forall|k: int| 0 <= k < self.len ==> (#[trigger] self.calls@[k]) is Some,
            decreases self.len - i,
        {
            match self.calls[i] {
                Some(call) => out.push(call),
                None => {},
            }
            i += 1;
            assert(out@ =~= self@.take(i as int));
        }
        assert(self@.take(self.len as int) =~= self@);
        out
    }

    /// How many calls the chain holds.
    pub fn len(&self) -> (r: usize)
        ensures
            r == self@.len(),
            r <= MAX_CALLS,
    {
        proof {
            use_type_invariant(self);
        }
        self.len
    }
}

} // verus!
