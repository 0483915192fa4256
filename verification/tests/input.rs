use mosaic::common::{AppInstruction, AppState, InputMode};
use mosaic::input::{command_for, handle_keys, Command, CTRL_G, ESC};
use mosaic::panes::PaneId;
use mosaic::pty_bus::PtyInstruction;
use mosaic::screen::{Acknowledgement, Screen, ScreenInstruction};
use mosaic::wasm_vm::PluginInstruction;

fn in_mode(input_mode: InputMode) -> AppState {
    AppState { input_mode }
}

#[test]
fn typed_keys_go_to_the_plugins_and_to_the_focused_pane() {
    let outcome = handle_keys(in_mode(InputMode::Normal), b"ls\n".to_vec());
    assert_eq!(outcome.mode, InputMode::Normal);
    assert_eq!(outcome.wait_for, None);
    assert_eq!(outcome.sends.len(), 3);
    assert!(matches!(
        &outcome.sends[0],
        AppInstruction::ToPlugin(PluginInstruction::GlobalInput(keys)) if keys == b"ls\n"
    ));
    assert!(matches!(
        &outcome.sends[1],
        AppInstruction::ToScreen(ScreenInstruction::ClearScroll)
    ));
    assert!(matches!(
        &outcome.sends[2],
        AppInstruction::ToScreen(ScreenInstruction::WriteCharacter(keys)) if keys == b"ls\n"
    ));
    // a command key is a key like any other
    let outcome = handle_keys(in_mode(InputMode::Normal), vec![b'q']);
    assert_eq!(outcome.mode, InputMode::Normal);
    assert_eq!(outcome.sends.len(), 3);
    let outcome = handle_keys(in_mode(InputMode::Normal), vec![ESC]);
    assert_eq!(outcome.sends.len(), 3);
}

#[test]
fn ctrl_g_changes_the_mode() {
    assert_eq!((CTRL_G, ESC), (7, 27));
    let outcome = handle_keys(in_mode(InputMode::Normal), vec![CTRL_G]);
    assert_eq!(outcome.mode, InputMode::Command);
    assert!(outcome.sends.is_empty());
    let outcome = handle_keys(in_mode(InputMode::Command), vec![CTRL_G]);
    assert_eq!(outcome.mode, InputMode::CommandPersistent);
    assert!(outcome.sends.is_empty());
    let outcome = handle_keys(in_mode(InputMode::CommandPersistent), vec![CTRL_G]);
    assert_eq!(outcome.mode, InputMode::Normal);
    let outcome = handle_keys(in_mode(InputMode::Command), vec![ESC]);
    assert_eq!(outcome.mode, InputMode::Normal);
    assert!(outcome.sends.is_empty());
    let outcome = handle_keys(in_mode(InputMode::CommandPersistent), vec![ESC]);
    assert_eq!(outcome.mode, InputMode::Normal);
    let outcome = handle_keys(in_mode(InputMode::Normal), vec![CTRL_G, CTRL_G]);
    assert_eq!(outcome.mode, InputMode::Normal);
    assert_eq!(outcome.sends.len(), 3);
}

#[test]
fn a_command_is_sent_and_the_mode_falls_back() {
    let outcome = handle_keys(in_mode(InputMode::Command), vec![b'n']);
    assert_eq!(outcome.mode, InputMode::Normal);
    assert_eq!(outcome.wait_for, Some(Acknowledgement::OpenedPane));
    assert_eq!(outcome.sends.len(), 1);
    assert!(matches!(
        outcome.sends[0],
        AppInstruction::ToPty(PtyInstruction::SpawnTerminalVertically(None))
    ));
    let outcome = handle_keys(in_mode(InputMode::CommandPersistent), vec![b'x']);
    assert_eq!(outcome.mode, InputMode::CommandPersistent);
    assert_eq!(outcome.wait_for, Some(Acknowledgement::ClosedPane));
    assert!(matches!(
        outcome.sends[0],
        AppInstruction::ToScreen(ScreenInstruction::CloseFocusedPane)
    ));
    let outcome = handle_keys(in_mode(InputMode::CommandPersistent), vec![b'l']);
    assert_eq!(outcome.wait_for, None);
    assert!(matches!(outcome.sends[0], AppInstruction::ToScreen(ScreenInstruction::ResizeRight)));
    // a key that is bound to nothing
    let outcome = handle_keys(in_mode(InputMode::Command), vec![b'?']);
    assert_eq!(outcome.mode, InputMode::Command);
    assert!(outcome.sends.is_empty());
    let outcome = handle_keys(in_mode(InputMode::Command), vec![b'n', b'n']);
    assert_eq!(outcome.mode, InputMode::Command);
    assert!(outcome.sends.is_empty());
}

#[test]
fn quitting_ends_the_reading_of_keys() {
    for mode in [InputMode::Command, InputMode::CommandPersistent] {
        let outcome = handle_keys(in_mode(mode), vec![b'q']);
        assert_eq!(outcome.mode, InputMode::Exiting);
        assert!(matches!(outcome.sends[0], AppInstruction::Exit));
    }
    let outcome = handle_keys(in_mode(InputMode::Exiting), vec![b'a']);
    assert_eq!(outcome.mode, InputMode::Exiting);
    assert!(outcome.sends.is_empty());
    let outcome = handle_keys(in_mode(InputMode::Exiting), vec![CTRL_G]);
    assert_eq!(outcome.mode, InputMode::Exiting);
}

#[test]
fn every_command_has_its_key() {
    let bindings: Vec<(&[u8], Command)> = vec![
        (b"h", Command::ResizeLeft),
        (b"j", Command::ResizeDown),
        (b"k", Command::ResizeUp),
        (b"l", Command::ResizeRight),
        (b"p", Command::MoveFocus),
        (b"y", Command::MoveFocusLeft),
        (b"u", Command::MoveFocusDown),
        (b"i", Command::MoveFocusUp),
        (b"o", Command::MoveFocusRight),
        (b"\x1b[5~", Command::ScrollUp),
        (b"\x1b[6~", Command::ScrollDown),
        (b"z", Command::NewPane),
        (b"n", Command::SplitVertically),
        (b"b", Command::SplitHorizontally),
        (b"x", Command::CloseFocusedPane),
        (b"e", Command::ToggleFullscreen),
        (b"1", Command::NewTab),
        (b"2", Command::NextTab),
        (b"3", Command::PreviousTab),
        (b"4", Command::CloseTab),
        (b"q", Command::Quit),
    ];
    for (keys, command) in bindings {
        assert_eq!(command_for(&keys.to_vec()), Some(command));
    }
    assert_eq!(command_for(&vec![]), None);
    assert_eq!(command_for(&b"\x1b[7~".to_vec()), None);
    assert_eq!(command_for(&b"\x1b[5".to_vec()), None);
    assert_eq!(command_for(&b"H".to_vec()), None);
    assert_eq!(Command::NewTab.waits_for(), Some(Acknowledgement::OpenedPane));
    assert_eq!(Command::CloseTab.waits_for(), Some(Acknowledgement::ClosedPane));
    assert_eq!(Command::Quit.waits_for(), None);
    assert!(matches!(
        Command::NewPane.instruction(),
        AppInstruction::ToPty(PtyInstruction::SpawnTerminal(None))
    ));
    assert!(matches!(
        Command::NewTab.instruction(),
        AppInstruction::ToPty(PtyInstruction::NewTab)
    ));
    assert!(matches!(
        Command::ToggleFullscreen.instruction(),
        AppInstruction::ToScreen(ScreenInstruction::ToggleActiveTerminalFullscreen)
    ));
}

#[test]
fn instructions_that_arrive_together_are_drawn_once() {
    let mut screen = Screen::new(24, 80);
    let batch = screen.handle_all(vec![
        ScreenInstruction::NewTab(PaneId::Terminal(1)),
        ScreenInstruction::Render,
        ScreenInstruction::VerticalSplit(PaneId::Terminal(2)),
        ScreenInstruction::Render,
        ScreenInstruction::Render,
    ]);
    assert_eq!(batch.outcomes.len(), 5);
    assert!(batch.render);
    assert!(!batch.exit);
    assert_eq!(batch.outcomes[0].acknowledge, Some(Acknowledgement::OpenedPane));
    assert!(batch.outcomes[1].render && !batch.outcomes[2].render);
    assert_eq!(screen.visible_panes().len(), 2);

    let batch = screen.handle_all(vec![ScreenInstruction::MoveFocus, ScreenInstruction::ResizeLeft]);
    assert!(!batch.render);
    assert_eq!(batch.outcomes.len(), 2);
    let batch = screen.handle_all(vec![]);
    assert!(!batch.render && !batch.exit);
    assert!(batch.outcomes.is_empty());
}

#[test]
fn nothing_is_handled_after_the_screen_is_bid_to_stop() {
    let mut screen = Screen::new(24, 80);
    let batch = screen.handle_all(vec![
        ScreenInstruction::NewTab(PaneId::Terminal(1)),
        ScreenInstruction::Exit,
        ScreenInstruction::VerticalSplit(PaneId::Terminal(2)),
        ScreenInstruction::Render,
    ]);
    assert!(batch.exit);
    assert!(!batch.render);
    assert_eq!(batch.outcomes.len(), 2);
    assert!(batch.outcomes[1].exit);
    assert!(screen.is_open(PaneId::Terminal(1)));
    assert!(!screen.is_open(PaneId::Terminal(2)));
}

#[test]
fn drawing_twice_shows_the_same() {
    let mut screen = Screen::new(30, 90);
    screen.handle(ScreenInstruction::NewTab(PaneId::Terminal(1)));
    screen.handle(ScreenInstruction::NewPane(PaneId::Terminal(2)));
    screen.handle(ScreenInstruction::NewPane(PaneId::Plugin(0)));
    let first = screen.handle(ScreenInstruction::Render);
    let shown = screen.visible_panes();
    let second = screen.handle(ScreenInstruction::Render);
    assert!(first.render && second.render);
    assert_eq!(screen.visible_panes(), shown);
}
