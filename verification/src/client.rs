//! The client: what an invocation of the program starts as, and where the
//! instructions of the server are passed on.

use crate::common::{AppInstruction, ClientInstruction, ServerInstruction};
use crate::wasm_vm::PluginInstruction;
use vstd::prelude::*;

verus! {

/// What an invocation of the program is to do.
#[derive(Debug, PartialEq, Eq)]
pub enum Startup {
    /// Send the instruction to the server of the running session, and end.
    DriveBy(ServerInstruction),
    /// End at once.
    Nothing,
    /// Start a session.
    Session,
}

/// What the command line asks for.
pub open spec fn asked(split: Option<char>, move_focus: bool, open_file: Option<String>) -> Startup {
    match split {
        Some(direction) => if direction == 'h' {
            Startup::DriveBy(ServerInstruction::SplitHorizontally)
        } else if direction == 'v' {
            Startup::DriveBy(ServerInstruction::SplitVertically)
        } else {
            Startup::Nothing
        },
        None => if move_focus {
            Startup::DriveBy(ServerInstruction::MoveFocus)
        } else {
            match open_file {
                Some(file) => Startup::DriveBy(ServerInstruction::OpenFile(file)),
                None => Startup::Session,
            }
        },
    }
}

/// Decides what an invocation of the program is to do: with a split, a
/// move of the focus or a file to open on the command line it delivers one
/// instruction to the running session; else it starts a session.
pub fn startup(split: Option<char>, move_focus: bool, open_file: Option<String>) -> (r: Startup)
    ensures
        r == asked(split, move_focus, open_file),
{
    match split {
        Some(direction) => {
            if direction == 'h' {
                Startup::DriveBy(ServerInstruction::SplitHorizontally)
            } else if direction == 'v' {
                Startup::DriveBy(ServerInstruction::SplitVertically)
            } else {
                Startup::Nothing
            }
        },
        None => {
            if move_focus {
                Startup::DriveBy(ServerInstruction::MoveFocus)
            } else {
                match open_file {
                    Some(file) => Startup::DriveBy(ServerInstruction::OpenFile(file)),
                    None => Startup::Session,
                }
            }
        },
    }
}

/// What the dispatcher of the session is asked when the server asks
/// `instruction` of the client: the same of the screen, the end of a
/// plugin, or to fail; nothing when the server bids the client stop.
pub open spec fn passed_on(instruction: ClientInstruction) -> Option<AppInstruction> {
    match instruction {
        ClientInstruction::ToScreen(s) => Some(AppInstruction::ToScreen(s)),
        ClientInstruction::Error(e) => Some(AppInstruction::Error(e)),
        ClientInstruction::ClosePluginPane(p) => Some(
            AppInstruction::ToPlugin(PluginInstruction::Unload(p)),
        ),
        ClientInstruction::Exit => None,
    }
}

/// Passes an instruction of the server on to the dispatcher of the session;
/// `None` when the server bids the client stop.
pub fn route(instruction: ClientInstruction) -> (r: Option<AppInstruction>)
    ensures
        r == passed_on(instruction),
{
    match instruction {
        ClientInstruction::Exit => None,
        other => Some(AppInstruction::from(other)),
    }
}

} // verus!
