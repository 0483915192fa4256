use mosaic::client::{route, startup, Startup};
use mosaic::common::{
    deliver, dispatch, farewells, send_result, state_change, state_request, state_set,
    try_send_result, update_state,
    AppAction, AppInstruction, AppState, ClientInstruction, InputMode, SendFailure, SenderType,
    SenderWithContext, ServerInstruction, TrySendFailure, APP_BUS_CAPACITY,
};
use mosaic::errors::{
    AppContext, Bus, ContextType, ErrorContext, PluginContext, PtyContext, ScreenContext,
    MAX_CALLS,
};
use mosaic::layout::{Layout, PaneSettings};
use mosaic::geometry::SplitDirection;
use mosaic::panes::PaneId;
use mosaic::pty_bus::{
    program_for, Placement, Program, PtyAction, PtyBus, PtyInstruction, VteEvent,
};
use mosaic::screen::{Acknowledgement, PaneCommand, Screen, ScreenInstruction};
use mosaic::server::{fits_buffer, Server, ServerOutcome, RING_BUFFER_SIZE};
use mosaic::terminal::{entering_text, parting_text};
use mosaic::wasm_vm::{PluginHost, PluginInstruction};
use std::sync::mpsc::{channel, sync_channel};

fn context_of(calls: &[ContextType]) -> ErrorContext {
    let mut ctx = ErrorContext::new();
    for call in calls {
        ctx.add_call(*call);
    }
    ctx
}

#[test]
fn a_new_chain_is_empty() {
    let ctx = ErrorContext::new();
    assert_eq!(ctx, ErrorContext::default());
    assert_eq!(ctx.len(), 0);
    assert_eq!(ctx.last_call(), None);
    assert_eq!(ctx.calls(), Vec::<ContextType>::new());
    assert_eq!(MAX_CALLS, 6);
}

#[test]
fn a_chain_keeps_its_calls_in_order() {
    let mut ctx = ErrorContext::new();
    ctx.add_call(ContextType::IPCServer);
    ctx.add_call(ContextType::Pty(PtyContext::SpawnTerminal));
    ctx.add_call(ContextType::Screen(ScreenContext::NewPane));
    assert_eq!(ctx.len(), 3);
    assert_eq!(
        ctx.calls(),
        vec![
            ContextType::IPCServer,
            ContextType::Pty(PtyContext::SpawnTerminal),
            ContextType::Screen(ScreenContext::NewPane)
        ]
    );
    assert_eq!(ctx.last_call(), Some(ContextType::Screen(ScreenContext::NewPane)));
    assert_eq!(ctx.last_call().unwrap().handler(), Bus::Screen);
}

#[test]
fn a_full_chain_forgets_its_oldest_call() {
    let mut ctx = ErrorContext::new();
    let calls = [
        ContextType::IPCServer,
        ContextType::Pty(PtyContext::NewTab),
        ContextType::App(AppContext::ToScreen),
        ContextType::Screen(ScreenContext::NewTab),
        ContextType::App(AppContext::ToPlugin),
        ContextType::Plugin(PluginContext::Input),
    ];
    for call in calls {
        ctx.add_call(call);
    }
    assert_eq!(ctx.len(), 6);
    assert_eq!(ctx.calls(), calls.to_vec());
    ctx.add_call(ContextType::Screen(ScreenContext::Render));
    assert_eq!(ctx.len(), 6);
    let mut expected = calls[1..].to_vec();
    expected.push(ContextType::Screen(ScreenContext::Render));
    assert_eq!(ctx.calls(), expected);
    assert_eq!(ctx.last_call(), Some(ContextType::Screen(ScreenContext::Render)));
    assert_eq!(ctx, context_of(&expected));
}

#[test]
fn every_delivery_names_its_bus_last() {
    let mut ctx = ErrorContext::new();

    let mut server = Server::new();
    server.deliver(ServerInstruction::SplitVertically, &mut ctx);
    assert_eq!(ctx.last_call(), Some(ContextType::IPCServer));
    assert_eq!(ctx.last_call().unwrap().handler(), Bus::IpcServer);

    let mut pty = PtyBus::new(None);
    pty.deliver(PtyInstruction::SpawnTerminalVertically(None), &mut ctx);
    assert_eq!(ctx.last_call(), Some(ContextType::Pty(PtyContext::SpawnTerminalVertically)));
    assert_eq!(ctx.last_call().unwrap().handler(), Bus::Pty);

    let mut state = AppState::default();
    deliver(
        &mut state,
        AppInstruction::ToScreen(ScreenInstruction::VerticalSplit(PaneId::Terminal(4))),
        &mut ctx,
    );
    assert_eq!(ctx.last_call(), Some(ContextType::App(AppContext::ToScreen)));
    assert_eq!(ctx.last_call().unwrap().handler(), Bus::App);

    let mut screen = Screen::new(24, 80);
    screen.deliver(ScreenInstruction::VerticalSplit(PaneId::Terminal(4)), &mut ctx);
    assert_eq!(ctx.last_call(), Some(ContextType::Screen(ScreenContext::VerticalSplit)));
    assert_eq!(ctx.last_call().unwrap().handler(), Bus::Screen);
    assert!(screen.is_open(PaneId::Terminal(4)));

    let mut host = PluginHost::new(String::from("/home/u/plugins"), String::from("/usr/plugins"));
    host.deliver(PluginInstruction::GlobalInput(vec![b'a']), &mut ctx);
    assert_eq!(ctx.last_call(), Some(ContextType::Plugin(PluginContext::GlobalInput)));
    assert_eq!(ctx.last_call().unwrap().handler(), Bus::Plugin);

    assert_eq!(
        ctx.calls(),
        vec![
            ContextType::IPCServer,
            ContextType::Pty(PtyContext::SpawnTerminalVertically),
            ContextType::App(AppContext::ToScreen),
            ContextType::Screen(ScreenContext::VerticalSplit),
            ContextType::Plugin(PluginContext::GlobalInput),
        ]
    );
}

#[test]
fn calls_are_read_back_from_their_numbers() {
    let mut seen = Vec::new();
    for bus in 0..=255u8 {
        for kind in 0..=255u8 {
            if let Some(call) = ContextType::from_code(bus, kind) {
                assert_eq!(call.code(), (bus, kind));
                seen.push(call);
            }
        }
    }
    assert_eq!(seen.len(), 7 + 30 + 7 + 6 + 1);
    assert_eq!(ContextType::App(AppContext::GetState).code(), (0, 0));
    assert_eq!(ContextType::App(AppContext::ToScreen).code(), (0, 6));
    assert_eq!(ContextType::Screen(ScreenContext::Pty).code(), (1, 0));
    assert_eq!(ContextType::Screen(ScreenContext::Exit).code(), (1, 29));
    assert_eq!(ContextType::Pty(PtyContext::Exit).code(), (2, 6));
    assert_eq!(ContextType::Plugin(PluginContext::Exit).code(), (3, 5));
    assert_eq!(ContextType::IPCServer.code(), (4, 0));
    assert_eq!(ContextType::from_code(1, 30), None);
    assert_eq!(ContextType::from_code(4, 1), None);
    assert_eq!(ContextType::from_code(5, 0), None);
    assert_eq!(ScreenContext::from_code(4), Some(ScreenContext::VerticalSplit));
    assert_eq!(ScreenContext::VerticalSplit.code(), 4);
    assert_eq!(PluginContext::from_code(6), None);
}

#[test]
fn kinds_of_instructions() {
    assert_eq!(ScreenContext::of(&ScreenInstruction::Render), ScreenContext::Render);
    assert_eq!(
        ScreenContext::of(&ScreenInstruction::Pty(PaneId::Terminal(1), VteEvent::Unhook)),
        ScreenContext::Pty
    );
    assert_eq!(
        ScreenContext::of(&ScreenInstruction::SetMaxHeight(PaneId::Plugin(1), 2)),
        ScreenContext::SetMaxHeight
    );
    assert_eq!(ScreenContext::of(&ScreenInstruction::Exit), ScreenContext::Exit);
    assert_eq!(PtyContext::of(&PtyInstruction::CloseTab(vec![])), PtyContext::CloseTab);
    assert_eq!(PtyContext::of(&PtyInstruction::Exit), PtyContext::Exit);
    assert_eq!(PluginContext::of(&PluginInstruction::Unload(3)), PluginContext::Unload);
    assert_eq!(AppContext::of(&AppInstruction::Exit), AppContext::Exit);
    assert_eq!(
        AppContext::of(&AppInstruction::ToPty(PtyInstruction::NewTab)),
        AppContext::ToPty
    );
}

#[test]
fn a_sender_attaches_its_chain() {
    let (tx, rx) = channel();
    let ctx = context_of(&[ContextType::IPCServer]);
    let mut sender = SenderWithContext::new(ctx, SenderType::Sender(tx));
    assert!(!sender.bounded());
    assert_eq!(sender.err_ctx(), ctx);
    assert_eq!(sender.envelope(7u32), (7, ctx));
    assert_eq!(sender.send(7u32), Ok(()));
    assert_eq!(rx.recv().unwrap(), (7, ctx));

    let later = context_of(&[ContextType::IPCServer, ContextType::Pty(PtyContext::NewTab)]);
    sender.update(later);
    let copy = sender.clone();
    assert_eq!(copy.send(8), Ok(()));
    assert_eq!(rx.recv().unwrap(), (8, later));

    drop(rx);
    assert_eq!(sender.send(9), Err(SendFailure { event: 9, err_ctx: later }));
}

#[test]
fn a_bounded_sender_waits_or_reports() {
    let (tx, rx) = sync_channel(1);
    let ctx = ErrorContext::new();
    let sender = SenderWithContext::new(ctx, SenderType::SyncSender(tx));
    assert!(sender.bounded());
    assert_eq!(sender.send(1u8), Ok(()));
    assert_eq!(sender.try_send(2), Err(TrySendFailure::Full(2, ctx)));
    assert_eq!(rx.recv().unwrap(), (1, ctx));
    assert_eq!(sender.try_send(3), Ok(()));
    assert_eq!(rx.recv().unwrap(), (3, ctx));
    drop(rx);
    assert_eq!(sender.try_send(4), Err(TrySendFailure::Disconnected(4, ctx)));
    assert_eq!(sender.send(5), Err(SendFailure { event: 5, err_ctx: ctx }));
}

#[test]
fn backpressure() {
    assert_eq!(APP_BUS_CAPACITY, 500);
    let (tx, rx) = sync_channel(APP_BUS_CAPACITY);
    let ctx = context_of(&[ContextType::App(AppContext::Error)]);
    let sender = SenderWithContext::new(ctx, SenderType::SyncSender(tx));
    for n in 0..500u32 {
        assert!(sender.try_send(AppInstruction::Error(n.to_string())).is_ok());
    }
    for _ in 0..10 {
        match sender.try_send(AppInstruction::Error(String::from("late"))) {
            Err(TrySendFailure::Full(AppInstruction::Error(report), back)) => {
                assert_eq!(report, "late");
                assert_eq!(back, ctx);
            }
            _ => panic!("a full bus takes no instruction"),
        }
    }
    match rx.recv().unwrap() {
        (AppInstruction::Error(report), back) => {
            assert_eq!(report, "0");
            assert_eq!(back, ctx);
        }
        _ => panic!("the first instruction comes first"),
    }
    assert!(sender.try_send(AppInstruction::Exit).is_ok());
}

#[test]
fn answers_of_channels() {
    let ctx = ErrorContext::new();
    assert_eq!(send_result::<u8>(Ok(())), Ok(()));
    assert_eq!(send_result(Err((3u8, ctx))), Err(SendFailure { event: 3, err_ctx: ctx }));
    assert_eq!(try_send_result::<u8>(Ok(())), Ok(()));
}

#[test]
fn the_state_changes_by_request_and_answer() {
    let normal = AppState { input_mode: InputMode::Normal };
    let command = AppState { input_mode: InputMode::Command };
    assert!(state_change(None, |_: AppState| command).is_none());
    assert!(matches!(
        state_change(Some(normal), |_: AppState| command),
        Some(AppInstruction::SetState(next)) if next == command
    ));
    assert!(matches!(
        state_change(Some(command), |state: AppState| state),
        Some(AppInstruction::SetState(next)) if next == command
    ));
    assert_eq!(state_set(&AppInstruction::SetState(command)), Some(command));
    assert_eq!(state_set(&AppInstruction::Exit), None);
    let (reply, answer) = channel();
    match state_request(reply) {
        AppInstruction::GetState(reply) => reply.send(normal).unwrap(),
        _ => panic!("a request for the state"),
    }
    assert_eq!(answer.recv().unwrap(), normal);

    // without a dispatcher there is no answer
    let (tx, rx) = channel();
    drop(rx);
    let gone = SenderWithContext::new(ErrorContext::new(), SenderType::Sender(tx));
    assert_eq!(update_state(&gone, |_: AppState| command), None);
}

#[test]
fn the_dispatcher_passes_instructions_on() {
    let mut state = AppState::default();
    assert_eq!(state, AppState { input_mode: InputMode::Normal });
    match dispatch(&mut state, AppInstruction::ToScreen(ScreenInstruction::Render)) {
        AppAction::ToScreen(ScreenInstruction::Render) => {}
        _ => panic!("to the screen"),
    }
    match dispatch(&mut state, AppInstruction::ToPlugin(PluginInstruction::Unload(2))) {
        AppAction::ToPlugin(PluginInstruction::Unload(2)) => {}
        _ => panic!("to the plugin host"),
    }
    match dispatch(&mut state, AppInstruction::ToPty(PtyInstruction::NewTab)) {
        AppAction::ToServer(ServerInstruction::ToPty(PtyInstruction::NewTab)) => {}
        _ => panic!("to the server"),
    }
    let command = AppState { input_mode: InputMode::CommandPersistent };
    match dispatch(&mut state, AppInstruction::SetState(command)) {
        AppAction::Nothing => {}
        _ => panic!("nothing"),
    }
    assert_eq!(state, command);
    let (tx, rx) = channel();
    match dispatch(&mut state, AppInstruction::GetState(tx)) {
        AppAction::Reply(reply, answer) => {
            assert_eq!(answer, command);
            reply.send(answer).unwrap();
        }
        _ => panic!("a reply"),
    }
    assert_eq!(rx.recv().unwrap(), command);
    match dispatch(&mut state, AppInstruction::Exit) {
        AppAction::Leave { code: 0, error: None } => {}
        _ => panic!("an orderly end"),
    }
    assert_eq!(state, command);
    assert!(matches!(
        farewells(),
        (ScreenInstruction::Exit, PluginInstruction::Exit, ServerInstruction::Exit)
    ));
}

#[test]
fn panic_recovery() {
    let mut state = AppState::default();
    let report = String::from("thread 'screen' panicked at 'boom'");
    let action = dispatch(&mut state, AppInstruction::Error(report.clone()));
    match action {
        AppAction::Leave { code, error } => {
            assert_eq!(code, 1);
            assert_eq!(error, Some(report.clone()));
            let text = parting_text(24, &error);
            assert_eq!(
                text,
                "\u{1b}[24;1H\n\u{1b}[?1049l\u{1b}[m\u{1b}[?25hthread 'screen' panicked at 'boom'"
            );
            assert!(text.ends_with(&format!("\u{1b}[?1049l\u{1b}[m\u{1b}[?25h{}", report)));
        }
        _ => panic!("an error ends the session"),
    }
}

#[test]
fn texts_for_the_terminal() {
    assert_eq!(entering_text(), "\u{1b}[?1049h");
    assert_eq!(
        parting_text(24, &None),
        "\u{1b}[24;1H\n\u{1b}[?1049l\u{1b}[m\u{1b}[?25hBye from Mosaic!"
    );
    assert!(parting_text(0, &None).starts_with("\u{1b}[0;1H\n"));
    assert!(parting_text(7, &None).starts_with("\u{1b}[7;1H\n"));
    assert!(parting_text(100, &None).starts_with("\u{1b}[100;1H\n"));
    assert!(parting_text(65535, &None).starts_with("\u{1b}[65535;1H\n"));
    assert!(parting_text(1001, &Some(String::new())).ends_with("\u{1b}[1001;1H\n\u{1b}[?1049l\u{1b}[m\u{1b}[?25h"));
}

#[test]
fn the_command_line_decides_what_an_invocation_does() {
    assert_eq!(startup(None, false, None), Startup::Session);
    assert_eq!(
        startup(Some('h'), false, None),
        Startup::DriveBy(ServerInstruction::SplitHorizontally)
    );
    assert_eq!(
        startup(Some('v'), true, Some(String::from("f"))),
        Startup::DriveBy(ServerInstruction::SplitVertically)
    );
    assert_eq!(startup(Some('x'), true, None), Startup::Nothing);
    assert_eq!(startup(None, true, Some(String::from("f"))), Startup::DriveBy(ServerInstruction::MoveFocus));
    assert_eq!(
        startup(None, false, Some(String::from("notes.txt"))),
        Startup::DriveBy(ServerInstruction::OpenFile(String::from("notes.txt")))
    );
}

#[test]
fn drive_by_split() {
    // the second invocation
    let instruction = match startup(Some('h'), false, None) {
        Startup::DriveBy(instruction) => instruction,
        _ => panic!("one instruction for the running session"),
    };
    // the running session
    let mut server = Server::new();
    let mut pty = PtyBus::new(None);
    let mut state = AppState::default();
    let mut screen = Screen::new(24, 80);
    screen.handle(ScreenInstruction::NewTab(PaneId::Terminal(3)));

    let outcome = server.handle(instruction);
    assert!(!outcome.stop);
    assert_eq!(outcome.client, None);
    let action = pty.handle(outcome.pty.unwrap());
    assert_eq!(action, PtyAction::Spawn { file: None, placement: Placement::Horizontal });
    let to_server = pty.spawned(4, Placement::Horizontal).unwrap();
    let outcome = server.handle(to_server);
    assert_eq!(outcome.pty, None);
    let to_app = route(outcome.client.unwrap()).unwrap();
    let to_screen = match dispatch(&mut state, to_app) {
        AppAction::ToScreen(instruction) => instruction,
        _ => panic!("to the screen"),
    };
    assert_eq!(to_screen, ScreenInstruction::HorizontalSplit(PaneId::Terminal(4)));
    let outcome = screen.handle(to_screen);
    assert_eq!(outcome.acknowledge, Some(Acknowledgement::OpenedPane));
    let shown = screen.visible_panes();
    assert_eq!(shown.len(), 2);
    assert_eq!((shown[0].area.y, shown[0].area.rows, shown[0].area.cols), (0, 12, 80));
    assert_eq!((shown[1].area.y, shown[1].area.rows, shown[1].area.cols), (12, 12, 80));
    assert_eq!(shown[1].pane.id, PaneId::Terminal(4));
}

#[test]
fn the_server_passes_instructions_on() {
    let mut server = Server::new();
    assert_eq!(server.client, None);
    let quiet = |pty: Option<PtyInstruction>, client: Option<ClientInstruction>| ServerOutcome {
        connect: None,
        pty,
        client,
        stop: false,
    };
    assert_eq!(
        server.handle(ServerInstruction::OpenFile(String::from("a.txt"))),
        quiet(Some(PtyInstruction::SpawnTerminal(Some(String::from("a.txt")))), None)
    );
    assert_eq!(
        server.handle(ServerInstruction::SplitVertically),
        quiet(Some(PtyInstruction::SpawnTerminalVertically(None)), None)
    );
    assert_eq!(
        server.handle(ServerInstruction::MoveFocus),
        quiet(None, Some(ClientInstruction::ToScreen(ScreenInstruction::MoveFocus)))
    );
    assert_eq!(
        server.handle(ServerInstruction::ToPty(PtyInstruction::ClosePane(PaneId::Terminal(1)))),
        quiet(Some(PtyInstruction::ClosePane(PaneId::Terminal(1))), None)
    );
    assert_eq!(
        server.handle(ServerInstruction::ToScreen(ScreenInstruction::Render)),
        quiet(None, Some(ClientInstruction::ToScreen(ScreenInstruction::Render)))
    );
    assert_eq!(
        server.handle(ServerInstruction::ClosePluginPane(5)),
        quiet(None, Some(ClientInstruction::ClosePluginPane(5)))
    );
    assert_eq!(server.client, None);
    assert_eq!(
        server.handle(ServerInstruction::NewClient(String::from("/tmp/one"))),
        ServerOutcome {
            connect: Some(String::from("/tmp/one")),
            pty: Some(PtyInstruction::NewTab),
            client: None,
            stop: false
        }
    );
    assert_eq!(server.client, Some(String::from("/tmp/one")));
    server.handle(ServerInstruction::NewClient(String::from("/tmp/two")));
    assert_eq!(server.client, Some(String::from("/tmp/two")));
    assert_eq!(
        server.handle(ServerInstruction::Exit),
        ServerOutcome {
            connect: None,
            pty: Some(PtyInstruction::Exit),
            client: Some(ClientInstruction::Exit),
            stop: true
        }
    );
    assert!(fits_buffer(0));
    assert!(fits_buffer(8192));
    assert!(!fits_buffer(8193));
    assert_eq!(RING_BUFFER_SIZE, 8192);
}

#[test]
fn the_client_passes_instructions_on() {
    assert!(route(ClientInstruction::Exit).is_none());
    assert!(matches!(
        route(ClientInstruction::ToScreen(ScreenInstruction::MoveFocus)),
        Some(AppInstruction::ToScreen(ScreenInstruction::MoveFocus))
    ));
    assert!(matches!(
        route(ClientInstruction::ClosePluginPane(3)),
        Some(AppInstruction::ToPlugin(PluginInstruction::Unload(3)))
    ));
    match AppInstruction::from(ClientInstruction::Error(String::from("bad"))) {
        AppInstruction::Error(report) => assert_eq!(report, "bad"),
        _ => panic!("an error stays an error"),
    }
    assert!(matches!(AppInstruction::from(ClientInstruction::Exit), AppInstruction::Exit));
}

#[test]
fn the_pty_bus_keeps_count_of_its_children() {
    let mut pty = PtyBus::new(None);
    assert_eq!(
        pty.handle(PtyInstruction::SpawnTerminal(Some(String::from("f")))),
        PtyAction::Spawn { file: Some(String::from("f")), placement: Placement::NewPane }
    );
    assert_eq!(
        pty.handle(PtyInstruction::SpawnTerminalVertically(None)),
        PtyAction::Spawn { file: None, placement: Placement::Vertical }
    );
    assert_eq!(
        pty.handle(PtyInstruction::NewTab),
        PtyAction::Spawn { file: None, placement: Placement::NewTab }
    );
    assert_eq!(
        pty.spawned(5, Placement::NewTab),
        Some(ServerInstruction::ToScreen(ScreenInstruction::NewTab(PaneId::Terminal(5))))
    );
    assert_eq!(
        pty.spawned(6, Placement::NewPane),
        Some(ServerInstruction::ToScreen(ScreenInstruction::NewPane(PaneId::Terminal(6))))
    );
    assert_eq!(
        pty.spawned(7, Placement::Vertical),
        Some(ServerInstruction::ToScreen(ScreenInstruction::VerticalSplit(PaneId::Terminal(7))))
    );
    assert_eq!(pty.spawned(6, Placement::Horizontal), None);
    assert_eq!(pty.spawned(8, Placement::Horizontal).is_some(), true);
    assert_eq!(pty.children(), vec![5, 6, 7, 8]);

    let action = pty.handle(PtyInstruction::ClosePane(PaneId::Plugin(6)));
    assert_eq!(action, PtyAction::Close { fds: vec![] });
    assert_eq!(action.acknowledges(), Some(Acknowledgement::ClosedPane));
    assert_eq!(
        pty.handle(PtyInstruction::ClosePane(PaneId::Terminal(6))),
        PtyAction::Close { fds: vec![6] }
    );
    assert_eq!(pty.children(), vec![5, 7, 8]);
    assert_eq!(
        pty.handle(PtyInstruction::CloseTab(vec![
            PaneId::Terminal(8),
            PaneId::Plugin(5),
            PaneId::Terminal(9),
            PaneId::Terminal(5)
        ])),
        PtyAction::Close { fds: vec![5, 8] }
    );
    assert_eq!(pty.children(), vec![7]);
    assert_eq!(pty.child_ended(3), None);
    assert_eq!(
        pty.child_ended(7),
        Some(ServerInstruction::ToScreen(ScreenInstruction::ClosePane(PaneId::Terminal(7))))
    );
    assert_eq!(pty.children(), Vec::<u32>::new());
    pty.spawned(1, Placement::NewPane);
    pty.spawned(2, Placement::NewPane);
    let action = pty.handle(PtyInstruction::Exit);
    assert_eq!(action, PtyAction::Exit { fds: vec![1, 2] });
    assert_eq!(action.acknowledges(), None);
    assert_eq!(pty.children(), Vec::<u32>::new());
}

#[test]
fn a_child_runs_a_pager_on_a_file_that_can_be_read() {
    assert_eq!(program_for(None, false), Program::Shell);
    assert_eq!(program_for(None, true), Program::Shell);
    assert_eq!(program_for(Some(String::from("a.txt")), false), Program::Shell);
    assert_eq!(
        program_for(Some(String::from("a.txt")), true),
        Program::Pager(String::from("a.txt"))
    );
}

#[test]
fn a_new_tab_follows_the_layout() {
    let layout = Layout::Split {
        direction: SplitDirection::Vertical,
        ratio: 300,
        first: Box::new(Layout::Pane(PaneSettings::new())),
        second: Box::new(Layout::Pane(PaneSettings::new())),
    };
    let mut pty = PtyBus::new(Some(layout.duplicate()));
    assert_eq!(pty.handle(PtyInstruction::NewTab), PtyAction::SpawnForLayout { count: 2 });
    assert_eq!(pty.spawned_for_layout(vec![4]), None);
    assert_eq!(pty.spawned_for_layout(vec![4, 4]), None);
    assert!(!pty.fits_layout(&vec![4, 5, 6]));
    assert!(pty.fits_layout(&vec![4, 5]));
    let told = pty.spawned_for_layout(vec![4, 5]).unwrap();
    assert_eq!(
        told,
        ServerInstruction::ToScreen(ScreenInstruction::ApplyLayout(
            layout.duplicate(),
            vec![PaneId::Terminal(4), PaneId::Terminal(5)]
        ))
    );
    assert_eq!(pty.children(), vec![4, 5]);
    assert_eq!(pty.spawned_for_layout(vec![5, 6]), None);
    assert_eq!(pty.children(), vec![4, 5]);

    let mut screen = Screen::new(10, 100);
    if let ServerInstruction::ToScreen(instruction) = told {
        screen.handle(instruction);
    }
    let shown = screen.visible_panes();
    assert_eq!(shown[0].area.cols, 30);
    assert_eq!(shown[1].area.cols, 70);

    let bad = Layout::Split {
        direction: SplitDirection::Vertical,
        ratio: 3000,
        first: Box::new(Layout::Pane(PaneSettings::new())),
        second: Box::new(Layout::Pane(PaneSettings::new())),
    };
    let mut pty = PtyBus::new(Some(bad));
    assert_eq!(
        pty.handle(PtyInstruction::NewTab),
        PtyAction::Spawn { file: None, placement: Placement::NewTab }
    );
    assert_eq!(Layout::single(), Layout::Pane(PaneSettings::new()));
}

#[test]
fn the_screen_asks_for_the_end_of_what_the_user_closes() {
    let mut screen = Screen::new(24, 80);
    screen.handle(ScreenInstruction::NewTab(PaneId::Terminal(1)));
    screen.handle(ScreenInstruction::VerticalSplit(PaneId::Plugin(9)));
    let outcome = screen.handle(ScreenInstruction::WriteCharacter(vec![b'k']));
    assert_eq!(outcome.pane, None);
    match outcome.message {
        Some(AppInstruction::ToPlugin(PluginInstruction::Input(9, bytes))) => {
            assert_eq!(bytes, vec![b'k'])
        }
        _ => panic!("keys for the focused plugin"),
    }
    screen.handle(ScreenInstruction::SetSelectable(PaneId::Plugin(9), false));
    screen.handle(ScreenInstruction::MoveFocusRight);
    assert_eq!(screen.get_active_tab().unwrap().focus, PaneId::Terminal(1));
    screen.handle(ScreenInstruction::SetSelectable(PaneId::Terminal(1), false));
    // no pane is selectable: the focus stays
    assert_eq!(screen.get_active_tab().unwrap().focus, PaneId::Terminal(1));
    screen.handle(ScreenInstruction::HorizontalSplit(PaneId::Plugin(8)));
    screen.handle(ScreenInstruction::SetSelectable(PaneId::Plugin(8), false));
    assert_eq!(screen.get_active_tab().unwrap().focus, PaneId::Plugin(8));
    let outcome = screen.handle(ScreenInstruction::WriteCharacter(vec![b'k']));
    assert!(outcome.pane.is_none() && outcome.message.is_none());

    let outcome = screen.handle(ScreenInstruction::CloseFocusedPane);
    assert!(matches!(
        outcome.message,
        Some(AppInstruction::ToPlugin(PluginInstruction::Unload(8)))
    ));
    assert_eq!(screen.get_active_tab().unwrap().focus, PaneId::Terminal(1));
    let outcome = screen.handle(ScreenInstruction::CloseFocusedPane);
    assert!(matches!(
        outcome.message,
        Some(AppInstruction::ToPty(PtyInstruction::ClosePane(PaneId::Terminal(1))))
    ));
    let outcome = screen.handle(ScreenInstruction::ClosePane(PaneId::Plugin(9)));
    assert!(outcome.message.is_none());
    assert_eq!(screen.tab_count(), 0);

    screen.handle(ScreenInstruction::NewTab(PaneId::Terminal(1)));
    screen.handle(ScreenInstruction::VerticalSplit(PaneId::Plugin(9)));
    screen.handle(ScreenInstruction::HorizontalSplit(PaneId::Terminal(2)));
    let outcome = screen.handle(ScreenInstruction::CloseTab);
    match outcome.message {
        Some(AppInstruction::ToPty(PtyInstruction::CloseTab(ids))) => assert_eq!(
            ids,
            vec![PaneId::Terminal(1), PaneId::Plugin(9), PaneId::Terminal(2)]
        ),
        _ => panic!("the children of the tab are to end"),
    }
}

#[test]
fn events_reach_open_panes_only() {
    let mut screen = Screen::new(24, 80);
    screen.handle(ScreenInstruction::NewTab(PaneId::Terminal(1)));
    screen.handle(ScreenInstruction::NewTab(PaneId::Terminal(2)));
    let outcome = screen.handle(ScreenInstruction::Pty(PaneId::Terminal(1), VteEvent::Print('a')));
    assert_eq!(outcome.pane, Some(PaneCommand::Event(PaneId::Terminal(1), VteEvent::Print('a'))));
    let outcome = screen.handle(ScreenInstruction::Pty(PaneId::Terminal(3), VteEvent::Execute(7)));
    assert_eq!(outcome.pane, None);
    let outcome = screen.handle(ScreenInstruction::Exit);
    assert!(outcome.exit);
    assert_eq!(screen.tab_count(), 2);
}
