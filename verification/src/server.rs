//! The server: where the instructions of the client, and of other
//! invocations of the program, are passed on.

use crate::common::{ClientInstruction, ServerInstruction};
use crate::errors::{delivered_to, Bus, ContextType, ErrorContext};
use crate::pty_bus::PtyInstruction;
use crate::screen::ScreenInstruction;
use vstd::prelude::*;

verus! {

/// The largest number of bytes that one message between client and server
/// may take: the size of the ring buffer that carries it.
pub const RING_BUFFER_SIZE: u32 = 8192;

/// What the caller is to do for the server, in this order.
#[derive(Debug, PartialEq, Eq)]
pub struct ServerOutcome {
    /// Open the buffer at this path for the messages to the client.
    pub connect: Option<String>,
    /// Send this to the PTY bus.
    pub pty: Option<PtyInstruction>,
    /// Send this to the client.
    pub client: Option<ClientInstruction>,
    /// Wait for the PTY bus to stop, then stop.
    pub stop: bool,
}

/// The server.
///
/// It serves one client: the one that made itself known last.
#[derive(Debug, PartialEq, Eq)]
pub struct Server {
    /// The path of the buffer of the client, once a client is known.
    pub client: Option<String>,
}

/// What follows from an instruction.
pub open spec fn routed(instruction: ServerInstruction) -> ServerOutcome {
    match instruction {
        ServerInstruction::OpenFile(file) => ServerOutcome {
            connect: None,
            pty: Some(PtyInstruction::SpawnTerminal(Some(file))),
            client: None,
            stop: false,
        },
        ServerInstruction::SplitHorizontally => ServerOutcome {
            connect: None,
            pty: Some(PtyInstruction::SpawnTerminalHorizontally(None)),
            client: None,
            stop: false,
        },
        ServerInstruction::SplitVertically => ServerOutcome {
            connect: None,
            pty: Some(PtyInstruction::SpawnTerminalVertically(None)),
            client: None,
            stop: false,
        },
        ServerInstruction::MoveFocus => ServerOutcome {
            connect: None,
            pty: None,
            client: Some(ClientInstruction::ToScreen(ScreenInstruction::MoveFocus)),
            stop: false,
        },
        ServerInstruction::NewClient(path) => ServerOutcome {
            connect: Some(path),
            pty: Some(PtyInstruction::NewTab),
            client: None,
            stop: false,
        },
        ServerInstruction::ToPty(instruction) => ServerOutcome {
            connect: None,
            pty: Some(instruction),
            client: None,
            stop: false,
        },
        ServerInstruction::ToScreen(instruction) => ServerOutcome {
            connect: None,
            pty: None,
            client: Some(ClientInstruction::ToScreen(instruction)),
            stop: false,
        },
        ServerInstruction::ClosePluginPane(plugin) => ServerOutcome {
            connect: None,
            pty: None,
            client: Some(ClientInstruction::ClosePluginPane(plugin)),
            stop: false,
        },
        ServerInstruction::Exit => ServerOutcome {
            connect: None,
            pty: Some(PtyInstruction::Exit),
            client: Some(ClientInstruction::Exit),
            stop: true,
        },
    }
}

/// Whether a message of so many bytes fits the buffer between client and
/// server.
pub fn fits_buffer(length: usize) -> (r: bool)
    ensures
        r == (length <= RING_BUFFER_SIZE),
{
    length <= RING_BUFFER_SIZE as usize
}

impl Server {
    /// A server that knows no client yet.
    pub fn new() -> (r: Server)
        ensures
            r.client is None,
    {
        Server { client: None }
    }

    /// Takes an instruction and says what the caller is to do. A client
    /// that makes itself known takes the place of the one known before.
    pub fn handle(&mut self, instruction: ServerInstruction) -> (outcome: ServerOutcome)
        ensures
            outcome == routed(instruction),
            final(self).client == (match instruction {
                ServerInstruction::NewClient(path) => Some(path),
                _ => old(self).client,
            }),
    {
        match instruction {
            ServerInstruction::OpenFile(file) => ServerOutcome {
                connect: None,
                pty: Some(PtyInstruction::SpawnTerminal(Some(file))),
                client: None,
                stop: false,
            },
            ServerInstruction::SplitHorizontally => ServerOutcome {
                connect: None,
                pty: Some(PtyInstruction::SpawnTerminalHorizontally(None)),
                client: None,
                stop: false,
            },
            ServerInstruction::SplitVertically => ServerOutcome {
                connect: None,
                pty: Some(PtyInstruction::SpawnTerminalVertically(None)),
                client: None,
                stop: false,
            },
            ServerInstruction::MoveFocus => ServerOutcome {
                connect: None,
                pty: None,
                client: Some(ClientInstruction::ToScreen(ScreenInstruction::MoveFocus)),
                stop: false,
            },
            ServerInstruction::NewClient(path) => {
                self.client = Some(path.clone());
                ServerOutcome {
                    connect: Some(path),
                    pty: Some(PtyInstruction::NewTab),
                    client: None,
                    stop: false,
                }
            },
            ServerInstruction::ToPty(instruction) => ServerOutcome {
                connect: None,
                pty: Some(instruction),
                client: None,
                stop: false,
            },
            ServerInstruction::ToScreen(instruction) => ServerOutcome {
                connect: None,
                pty: None,
                client: Some(ClientInstruction::ToScreen(instruction)),
                stop: false,
            },
            ServerInstruction::ClosePluginPane(plugin) => ServerOutcome {
                connect: None,
                pty: None,
                client: Some(ClientInstruction::ClosePluginPane(plugin)),
                stop: false,
            },
            ServerInstruction::Exit => ServerOutcome {
                connect: None,
                pty: Some(PtyInstruction::Exit),
                client: Some(ClientInstruction::Exit),
                stop: true,
            },
        }
    }

    /// Takes an instruction that has arrived with the chain `err_ctx`:
    /// records the arrival in the chain, which whatever is sent on is to
    /// carry, and says what the caller is to do.
    pub fn deliver(&mut self, instruction: ServerInstruction, err_ctx: &mut ErrorContext) -> (outcome:
        ServerOutcome)
        ensures
            outcome == routed(instruction),
            final(self).client == (match instruction {
                ServerInstruction::NewClient(path) => Some(path),
                _ => old(self).client,
            }),
            delivered_to(old(err_ctx)@, final(err_ctx)@, Bus::IpcServer),
    {
        err_ctx.add_call(ContextType::IPCServer);
        self.handle(instruction)
    }
}

} // verus!
