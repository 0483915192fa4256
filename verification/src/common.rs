//! The instructions that cross between the buses, and the senders that
//! carry them.

use crate::pty_bus::PtyInstruction;
use crate::screen::ScreenInstruction;
use crate::wasm_vm::PluginInstruction;
use crate::channels::{
    open_channel, receive_from, send_on, send_on_bounded, try_send_on_bounded, Refusal,
};
use crate::errors::{delivered_to, AppContext, Bus, ContextType, ErrorContext};
use std::sync::mpsc::{Sender, SyncSender};
use vstd::prelude::*;

verus! {

/// What the server can be asked to do, by its own client or by another
/// invocation of the program.
#[derive(Clone, Debug, PartialEq, Eq)]
pub enum ServerInstruction {
    OpenFile(String),
    SplitHorizontally,
    SplitVertically,
    MoveFocus,
    NewClient(String),
    ToPty(PtyInstruction),
    ToScreen(ScreenInstruction),
    ClosePluginPane(u32),
    Exit,
}

/// What the server can ask of its client.
#[derive(Clone, Debug, PartialEq, Eq)]
pub enum ClientInstruction {
    ToScreen(ScreenInstruction),
    ClosePluginPane(u32),
    Error(String),
    Exit,
}

/// The mode in which keys are read.
#[derive(Clone, Copy, Debug, PartialEq, Eq, Structural)]
pub enum InputMode {
    Normal,
    Command,
    CommandPersistent,
    Exiting,
}

/// The state that the whole session shares.
#[derive(Clone, Copy, Debug, PartialEq, Eq, Structural)]
pub struct AppState {
    pub input_mode: InputMode,
}

/// What the dispatcher of the session can be asked to do.
#[derive(Clone, Debug)]
pub enum AppInstruction {
    GetState(Sender<AppState>),
    SetState(AppState),
    Exit,
    Error(String),
    ToPty(PtyInstruction),
    ToScreen(ScreenInstruction),
    ToPlugin(PluginInstruction),
}

impl From<ClientInstruction> for AppInstruction {
    fn from(item: ClientInstruction) -> (r: Self)
    {
        match item {
            ClientInstruction::ToScreen(s) => AppInstruction::ToScreen(s),
            ClientInstruction::Error(e) => AppInstruction::Error(e),
            ClientInstruction::ClosePluginPane(p) => AppInstruction::ToPlugin(
                PluginInstruction::Unload(p),
            ),
            ClientInstruction::Exit => AppInstruction::Exit,
        }
    }
}

impl vstd::std_specs::convert::FromSpecImpl<ClientInstruction> for AppInstruction {
    open spec fn obeys_from_spec() -> bool {
        true
    }

    open spec fn from_spec(item: ClientInstruction) -> Self {
        match item {
            ClientInstruction::ToScreen(s) => AppInstruction::ToScreen(s),
            ClientInstruction::Error(e) => AppInstruction::Error(e),
            ClientInstruction::ClosePluginPane(p) => AppInstruction::ToPlugin(
                PluginInstruction::Unload(p),
            ),
            ClientInstruction::Exit => AppInstruction::Exit,
        }
    }
}

/// How many instructions the bus of the dispatcher holds before it takes no
/// more.
pub const APP_BUS_CAPACITY: usize = 500;

/// The sending half of a bus: of an unbounded channel, or of a bounded one.
#[derive(Clone)]
#[verifier::reject_recursive_types(T)]
pub enum SenderType<T: Clone> {
    Sender(Sender<(T, ErrorContext)>),
    SyncSender(SyncSender<(T, ErrorContext)>),
}

/// A sender that attaches its causal chain to whatever it sends.
#[derive(Clone)]
#[verifier::reject_recursive_types(T)]
pub struct SenderWithContext<T: Clone> {
    err_ctx: ErrorContext,
    sender: SenderType<T>,
}

/// An instruction that could not be delivered, with the chain it carried.
#[derive(Debug, PartialEq, Eq)]
pub struct SendFailure<T> {
    pub event: T,
    pub err_ctx: ErrorContext,
}

/// An instruction that a bounded bus did not take at once, with the chain
/// it carried.
#[derive(Debug, PartialEq, Eq)]
pub enum TrySendFailure<T> {
    /// The bus holds as many instructions as it has room for.
    Full(T, ErrorContext),
    /// Nobody listens on the bus any more.
    Disconnected(T, ErrorContext),
}

/// What the channel's answer to a send means for the sender.
pub fn send_result<T>(answer: Result<(), (T, ErrorContext)>) -> (r: Result<(), SendFailure<T>>)
    ensures
        answer is Ok <==> r is Ok,
        answer matches Err(back) ==> r == Err::<(), SendFailure<T>>(
            SendFailure { event: back.0, err_ctx: back.1 },
        ),
{
    match answer {
        Ok(()) => Ok(()),
        Err(back) => Err(SendFailure { event: back.0, err_ctx: back.1 }),
    }
}

/// What the channel's answer to a send without waiting means for the sender.
pub fn try_send_result<T>(answer: Result<(), Refusal<(T, ErrorContext)>>) -> (r: Result<
    (),
    TrySendFailure<T>,
>)
    ensures
        answer is Ok <==> r is Ok,
        answer matches Err(Refusal::Full(back)) ==> r == Err::<(), TrySendFailure<T>>(
            TrySendFailure::Full(back.0, back.1),
        ),
        answer matches Err(Refusal::Disconnected(back)) ==> r == Err::<(), TrySendFailure<T>>(
            TrySendFailure::Disconnected(back.0, back.1),
        ),
{
    match answer {
        Ok(()) => Ok(()),
        Err(Refusal::Full(back)) => Err(TrySendFailure::Full(back.0, back.1)),
        Err(Refusal::Disconnected(back)) => Err(TrySendFailure::Disconnected(back.0, back.1)),
    }
}

impl<T: Clone> SenderWithContext<T> {
    /// The chain that the sender attaches.
    pub closed spec fn context(&self) -> ErrorContext {
        self.err_ctx
    }

    /// The channel that the sender feeds.
    pub closed spec fn channel(&self) -> SenderType<T> {
        self.sender
    }

    /// Whether the sender feeds a bounded bus.
    pub open spec fn is_bounded(&self) -> bool {
        self.channel() is SyncSender
    }

    /// A sender on `sender` that attaches `err_ctx`.
    pub fn new(err_ctx: ErrorContext, sender: SenderType<T>) -> (r: Self)
        ensures
            r.context() == err_ctx,
            r.channel() == sender,
    {
        Self { err_ctx, sender }
    }

    /// What goes on the channel for `event`: the event and the chain.
    pub fn envelope(&self, event: T) -> (r: (T, ErrorContext))
        ensures
            r == (event, self.context()),
    {
        (event, self.err_ctx)
    }

    /// The chain that the sender attaches.
    pub fn err_ctx(&self) -> (r: ErrorContext)
        ensures
            r == self.context(),
    {
        self.err_ctx
    }

    /// Whether the sender feeds a bounded bus.
    pub fn bounded(&self) -> (r: bool)
        ensures
            r == self.is_bounded(),
    {
        match self.sender {
            SenderType::Sender(_) => false,
            SenderType::SyncSender(_) => true,
        }
    }

    /// Sends `event` with the chain of the sender, waiting for room on a
    /// bounded bus. An event that cannot be delivered comes back with the
    /// chain.
    pub fn send(&self, event: T) -> (r: Result<(), SendFailure<T>>)
        ensures
            r matches Err(failure) ==> failure == (SendFailure {
                event,
                err_ctx: self.context(),
            }),
    {
        let message = self.envelope(event);
        match &self.sender {
            SenderType::Sender(s) => send_result(send_on(s, message)),
            SenderType::SyncSender(s) => send_result(send_on_bounded(s, message)),
        }
    }

    /// Sends `event` with the chain of the sender on a bounded bus, without
    /// waiting. An event that is not taken comes back with the chain and
    /// the reason. Only a sender that feeds a bounded bus can send this
    /// way.
    pub fn try_send(&self, event: T) -> (r: Result<(), TrySendFailure<T>>)
        requires
            self.is_bounded(),
        ensures
            r matches Err(failure) ==> failure == TrySendFailure::Full(event, self.context())
                || failure == TrySendFailure::Disconnected(event, self.context()),
    {
        let message = self.envelope(event);
        match &self.sender {
            SenderType::SyncSender(s) => try_send_result(try_send_on_bounded(s, message)),
            SenderType::Sender(_) => Err(TrySendFailure::Disconnected(message.0, message.1)),
        }
    }

    /// Replaces the chain that the sender attaches.
    pub fn update(&mut self, new_ctx: ErrorContext)
        ensures
            final(self).context() == new_ctx,
            final(self).channel() == old(self).channel(),
    {
        self.err_ctx = new_ctx;
    }
}

/// The instruction that asks the dispatcher for the state of the session,
/// to be answered on `reply`.
pub fn state_request(reply: Sender<AppState>) -> (r: AppInstruction)
    ensures
        r == AppInstruction::GetState(reply),
{
    AppInstruction::GetState(reply)
}

/// The instruction that follows the answer to a request for the state:
/// none without an answer, else to set the state that `update_fn` makes of
/// the state that was answered.
pub fn state_change<F: FnOnce(AppState) -> AppState>(answer: Option<AppState>, update_fn: F) -> (r:
    Option<AppInstruction>)
    requires
        forall|state: AppState| update_fn.requires((state,)),
    ensures
        answer is None ==> r is None,
        answer matches Some(state) ==> (r matches Some(AppInstruction::SetState(next))
            && update_fn.ensures((state,), next)),
{
    match answer {
        None => None,
        Some(state) => Some(AppInstruction::SetState(update_fn(state))),
    }
}

/// The state that an instruction has the dispatcher set, if it has it set
/// one.
pub fn state_set(instruction: &AppInstruction) -> (r: Option<AppState>)
    ensures
        r == (match *instruction {
            AppInstruction::SetState(next) => Some(next),
            _ => None,
        }),
{
    match instruction {
        AppInstruction::SetState(next) => Some(*next),
        _ => None,
    }
}

/// Asks the dispatcher behind `app_tx` for the state of the session, and
/// has it set the state that `update_fn` makes of it: the request of
/// `state_request` is sent, with a channel of its own for the answer, and
/// then, once the answer is there, the instruction of `state_change`.
/// Gives the state that was sent to be set; `None` where the dispatcher
/// was gone before it answered.
pub fn update_state<F: FnOnce(AppState) -> AppState>(
    app_tx: &SenderWithContext<AppInstruction>,
    update_fn: F,
) -> (r: Option<AppState>)
    requires
        forall|state: AppState| update_fn.requires((state,)),
    ensures
        r matches Some(next) ==> exists|state: AppState| update_fn.ensures((state,), next),
{
    let (state_tx, state_rx) = open_channel::<AppState>();
    if app_tx.send(state_request(state_tx)).is_err() {
        return None;
    }
    match state_change(receive_from(&state_rx), update_fn) {
        None => None,
        Some(change) => {
            let next = state_set(&change);
            let _ = app_tx.send(change);
            next
        },
    }
}

impl Default for AppState {
    fn default() -> (r: Self)
        ensures
            r == (AppState { input_mode: InputMode::Normal }),
    {
        AppState { input_mode: InputMode::Normal }
    }
}

/// What the caller is to do for the dispatcher of the session.
#[derive(Debug)]
pub enum AppAction {
    /// Nothing.
    Nothing,
    /// Answer the request for the state with this state.
    Reply(Sender<AppState>, AppState),
    /// Send this to the screen.
    ToScreen(ScreenInstruction),
    /// Send this to the plugin host.
    ToPlugin(PluginInstruction),
    /// Send this to the server.
    ToServer(ServerInstruction),
    /// Bid the buses stop and wait for them, restore the terminal and write
    /// the parting text, with the report of the error if there is one; then
    /// end the process with the code.
    Leave { code: i32, error: Option<String> },
}

/// What the caller is to do for an instruction when the state of the
/// session is `state`.
pub open spec fn acted(state: AppState, instruction: AppInstruction) -> AppAction {
    match instruction {
        AppInstruction::GetState(reply) => AppAction::Reply(reply, state),
        AppInstruction::SetState(_) => AppAction::Nothing,
        AppInstruction::Exit => AppAction::Leave { code: 0, error: None },
        AppInstruction::Error(report) => AppAction::Leave { code: 1, error: Some(report) },
        AppInstruction::ToScreen(instruction) => AppAction::ToScreen(instruction),
        AppInstruction::ToPlugin(instruction) => AppAction::ToPlugin(instruction),
        AppInstruction::ToPty(instruction) => AppAction::ToServer(
            ServerInstruction::ToPty(instruction),
        ),
    }
}

/// The state of the session after an instruction.
pub open spec fn state_after(state: AppState, instruction: AppInstruction) -> AppState {
    match instruction {
        AppInstruction::SetState(next) => next,
        _ => state,
    }
}

/// Takes an instruction for the dispatcher of the session: sets the state
/// where it is asked to, and says what the caller is to do.
pub fn dispatch(state: &mut AppState, instruction: AppInstruction) -> (action: AppAction)
    ensures
        *final(state) == state_after(*old(state), instruction),
        action == acted(*old(state), instruction),
{
    match instruction {
        AppInstruction::GetState(reply) => AppAction::Reply(reply, *state),
        AppInstruction::SetState(next) => {
            *state = next;
            AppAction::Nothing
        },
        AppInstruction::Exit => AppAction::Leave { code: 0, error: None },
        AppInstruction::Error(report) => AppAction::Leave { code: 1, error: Some(report) },
        AppInstruction::ToScreen(instruction) => AppAction::ToScreen(instruction),
        AppInstruction::ToPlugin(instruction) => AppAction::ToPlugin(instruction),
        AppInstruction::ToPty(instruction) => AppAction::ToServer(
            ServerInstruction::ToPty(instruction),
        ),
    }
}

/// Takes an instruction that has arrived at the dispatcher with the chain
/// `err_ctx`: records the arrival in the chain, which whatever is sent on
/// is to carry, and does as `dispatch` does.
pub fn deliver(state: &mut AppState, instruction: AppInstruction, err_ctx: &mut ErrorContext) -> (action:
    AppAction)
    ensures
        *final(state) == state_after(*old(state), instruction),
        action == acted(*old(state), instruction),
        final(err_ctx)@ == crate::errors::chain_with(
            old(err_ctx)@,
            ContextType::App(AppContext::kind(instruction)),
        ),
        delivered_to(old(err_ctx)@, final(err_ctx)@, Bus::App),
{
    err_ctx.add_call(ContextType::App(AppContext::of(&instruction)));
    dispatch(state, instruction)
}

/// What bids the buses stop, in the order in which it is sent: to the
/// screen, to the plugin host, and to the server, which passes it on to the
/// PTY bus and to the client.
pub fn farewells() -> (r: (ScreenInstruction, PluginInstruction, ServerInstruction))
    ensures
        r == (ScreenInstruction::Exit, PluginInstruction::Exit, ServerInstruction::Exit),
{
    (ScreenInstruction::Exit, PluginInstruction::Exit, ServerInstruction::Exit)
}

} // verus!
