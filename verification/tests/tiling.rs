use mosaic::focus::Side;
use mosaic::geometry::{first_length, Rect, SplitDirection};
use mosaic::layout::{Enclosing, Layout, Pane, PaneSettings, PaneTree, PlacedPane};
use mosaic::panes::PaneId;
use mosaic::screen::{Acknowledgement, PaneCommand, Screen, ScreenInstruction};
use mosaic::tab::Tab;

fn t(n: u32) -> PaneId {
    PaneId::Terminal(n)
}

fn rect(x: u16, y: u16, cols: u16, rows: u16) -> Rect {
    Rect { x, y, cols, rows }
}

fn ids(screen: &Screen) -> Vec<PaneId> {
    match screen.get_active_tab() {
        Some(tab) => tab.tree.panes().iter().map(|pane| pane.id).collect(),
        None => Vec::new(),
    }
}

fn covers_exactly(placed: &[PlacedPane], area: Rect) -> bool {
    for y in area.y..area.y + area.rows {
        for x in area.x..area.x + area.cols {
            let owners = placed
                .iter()
                .filter(|p| {
                    p.area.x <= x
                        && x < p.area.x + p.area.cols
                        && p.area.y <= y
                        && y < p.area.y + p.area.rows
                })
                .count();
            if owners != 1 {
                return false;
            }
        }
    }
    placed.iter().all(|p| {
        area.x <= p.area.x
            && p.area.x + p.area.cols <= area.x + area.cols
            && area.y <= p.area.y
            && p.area.y + p.area.rows <= area.y + area.rows
    })
}

#[test]
fn split_and_close() {
    let a = t(1);
    let b = t(2);
    let mut screen = Screen::new(24, 80);
    screen.handle(ScreenInstruction::NewTab(a));
    let shown = screen.visible_panes();
    assert_eq!(shown.len(), 1);
    assert_eq!(shown[0].area, rect(0, 0, 80, 24));

    let outcome = screen.handle(ScreenInstruction::VerticalSplit(b));
    assert_eq!(outcome.acknowledge, Some(Acknowledgement::OpenedPane));
    let shown = screen.visible_panes();
    assert_eq!(shown.len(), 2);
    assert_eq!(shown[0].pane.id, a);
    assert_eq!(shown[0].area, rect(0, 0, 40, 24));
    assert_eq!(shown[1].pane.id, b);
    assert_eq!(shown[1].area, rect(40, 0, 40, 24));
    assert_eq!(screen.get_active_tab().unwrap().focus, b);

    let outcome = screen.handle(ScreenInstruction::CloseFocusedPane);
    assert_eq!(outcome.acknowledge, Some(Acknowledgement::ClosedPane));
    assert!(outcome.render);
    let shown = screen.visible_panes();
    assert_eq!(shown.len(), 1);
    assert_eq!(shown[0].pane.id, a);
    assert_eq!(shown[0].area, rect(0, 0, 80, 24));
    assert_eq!(screen.get_active_tab().unwrap().focus, a);
}

#[test]
fn horizontal_split_stacks_the_panes() {
    let mut screen = Screen::new(24, 80);
    screen.handle(ScreenInstruction::NewTab(t(1)));
    screen.handle(ScreenInstruction::HorizontalSplit(t(2)));
    let shown = screen.visible_panes();
    assert_eq!(shown[0].area, rect(0, 0, 80, 12));
    assert_eq!(shown[1].area, rect(0, 12, 80, 12));
}

#[test]
fn odd_sizes_round_the_first_part_down() {
    assert_eq!(first_length(80, 500), 40);
    assert_eq!(first_length(81, 500), 40);
    assert_eq!(first_length(1, 500), 0);
    assert_eq!(first_length(65535, 1000), 65535);
    assert_eq!(first_length(24, 550), 13);
    let (first, second) = rect(3, 5, 81, 7).divide(SplitDirection::Vertical, 500);
    assert_eq!(first, rect(3, 5, 40, 7));
    assert_eq!(second, rect(43, 5, 41, 7));
}

#[test]
fn focus_cycling_skips_non_selectable() {
    let (a, b, c) = (t(1), t(2), t(3));
    let mut screen = Screen::new(24, 80);
    screen.handle(ScreenInstruction::NewTab(a));
    screen.handle(ScreenInstruction::VerticalSplit(b));
    screen.handle(ScreenInstruction::VerticalSplit(c));
    assert_eq!(ids(&screen), vec![a, b, c]);
    let outcome = screen.handle(ScreenInstruction::SetSelectable(b, false));
    assert!(outcome.render);
    assert_eq!(screen.get_active_tab().unwrap().focus, c);
    screen.handle(ScreenInstruction::MoveFocusLeft);
    assert_eq!(screen.get_active_tab().unwrap().focus, a);
    screen.handle(ScreenInstruction::MoveFocusRight);
    assert_eq!(screen.get_active_tab().unwrap().focus, c);
    screen.handle(ScreenInstruction::MoveFocus);
    assert_eq!(screen.get_active_tab().unwrap().focus, a);
    screen.handle(ScreenInstruction::MoveFocus);
    assert_eq!(screen.get_active_tab().unwrap().focus, c);
}

#[test]
fn focus_stays_where_nothing_lies_on_that_side() {
    let mut screen = Screen::new(24, 80);
    screen.handle(ScreenInstruction::NewTab(t(1)));
    screen.handle(ScreenInstruction::VerticalSplit(t(2)));
    screen.handle(ScreenInstruction::MoveFocusRight);
    assert_eq!(screen.get_active_tab().unwrap().focus, t(2));
    screen.handle(ScreenInstruction::MoveFocusUp);
    assert_eq!(screen.get_active_tab().unwrap().focus, t(2));
    screen.handle(ScreenInstruction::MoveFocusDown);
    assert_eq!(screen.get_active_tab().unwrap().focus, t(2));
    screen.handle(ScreenInstruction::MoveFocusLeft);
    assert_eq!(screen.get_active_tab().unwrap().focus, t(1));
}

#[test]
fn focus_moves_to_the_nearest_pane_above_and_below() {
    let mut screen = Screen::new(24, 80);
    screen.handle(ScreenInstruction::NewTab(t(1)));
    screen.handle(ScreenInstruction::HorizontalSplit(t(2)));
    screen.handle(ScreenInstruction::HorizontalSplit(t(3)));
    assert_eq!(screen.get_active_tab().unwrap().focus, t(3));
    screen.handle(ScreenInstruction::MoveFocusUp);
    assert_eq!(screen.get_active_tab().unwrap().focus, t(2));
    screen.handle(ScreenInstruction::MoveFocusUp);
    assert_eq!(screen.get_active_tab().unwrap().focus, t(1));
    screen.handle(ScreenInstruction::MoveFocusDown);
    assert_eq!(screen.get_active_tab().unwrap().focus, t(2));
}

#[test]
fn open_panes_are_those_opened_and_not_closed() {
    let mut screen = Screen::new(40, 120);
    let mut expected: Vec<PaneId> = Vec::new();
    let mut live = |screen: &Screen, expected: &Vec<PaneId>| {
        for n in 0..12 {
            for id in [PaneId::Terminal(n), PaneId::Plugin(n)] {
                assert_eq!(screen.is_open(id), expected.contains(&id));
            }
        }
    };
    screen.handle(ScreenInstruction::NewPane(t(1)));
    expected.push(t(1));
    live(&screen, &expected);
    screen.handle(ScreenInstruction::VerticalSplit(t(2)));
    expected.push(t(2));
    screen.handle(ScreenInstruction::HorizontalSplit(PaneId::Plugin(2)));
    expected.push(PaneId::Plugin(2));
    screen.handle(ScreenInstruction::NewTab(t(3)));
    expected.push(t(3));
    screen.handle(ScreenInstruction::NewPane(t(4)));
    expected.push(t(4));
    live(&screen, &expected);
    // opening what is open changes nothing
    screen.handle(ScreenInstruction::NewTab(t(1)));
    screen.handle(ScreenInstruction::VerticalSplit(t(4)));
    live(&screen, &expected);
    assert_eq!(screen.tab_count(), 2);
    // a pane of a tab in the background closes too
    screen.handle(ScreenInstruction::ClosePane(t(2)));
    expected.retain(|id| *id != t(2));
    live(&screen, &expected);
    screen.handle(ScreenInstruction::ClosePane(t(9)));
    live(&screen, &expected);
    screen.handle(ScreenInstruction::CloseFocusedPane);
    expected.retain(|id| *id != t(4));
    live(&screen, &expected);
    screen.handle(ScreenInstruction::MoveFocus);
    screen.handle(ScreenInstruction::ResizeLeft);
    screen.handle(ScreenInstruction::Render);
    screen.handle(ScreenInstruction::Exit);
    live(&screen, &expected);
    screen.handle(ScreenInstruction::CloseTab);
    expected.retain(|id| *id != t(3));
    live(&screen, &expected);
    assert_eq!(screen.tab_count(), 1);
    screen.handle(ScreenInstruction::CloseTab);
    expected.clear();
    live(&screen, &expected);
    assert_eq!(screen.tab_count(), 0);
    screen.handle(ScreenInstruction::CloseTab);
    screen.handle(ScreenInstruction::CloseFocusedPane);
    live(&screen, &expected);
}

#[test]
fn split_then_close_gives_the_tree_back() {
    let mut screen = Screen::new(24, 80);
    screen.handle(ScreenInstruction::NewTab(t(1)));
    screen.handle(ScreenInstruction::VerticalSplit(t(2)));
    screen.handle(ScreenInstruction::HorizontalSplit(t(3)));
    screen.handle(ScreenInstruction::ResizeUp);
    screen.handle(ScreenInstruction::MoveFocusLeft);
    let before = screen.get_active_tab().unwrap().tree.duplicate();
    let focus = screen.get_active_tab().unwrap().focus;
    for open in [
        ScreenInstruction::HorizontalSplit(t(7)),
        ScreenInstruction::VerticalSplit(t(7)),
        ScreenInstruction::NewPane(t(7)),
    ] {
        for close in [ScreenInstruction::CloseFocusedPane, ScreenInstruction::ClosePane(t(7))] {
            let shown = screen.visible_panes();
            screen.handle(open.clone());
            assert!(screen.is_open(t(7)));
            assert!(screen.get_active_tab().unwrap().tree != before);
            screen.handle(close);
            assert_eq!(screen.get_active_tab().unwrap().tree, before);
            assert_eq!(screen.visible_panes(), shown);
        }
    }
    screen.handle(ScreenInstruction::VerticalSplit(t(7)));
    screen.handle(ScreenInstruction::CloseFocusedPane);
    assert_eq!(screen.get_active_tab().unwrap().focus, focus);
}

#[test]
fn panes_tile_the_screen_after_every_instruction() {
    let mut screen = Screen::new(23, 79);
    let area = rect(0, 0, 79, 23);
    let steps = vec![
        ScreenInstruction::NewTab(t(1)),
        ScreenInstruction::VerticalSplit(t(2)),
        ScreenInstruction::HorizontalSplit(t(3)),
        ScreenInstruction::NewPane(t(4)),
        ScreenInstruction::ResizeLeft,
        ScreenInstruction::ResizeDown,
        ScreenInstruction::NewPane(t(5)),
        ScreenInstruction::MoveFocusLeft,
        ScreenInstruction::ResizeRight,
        ScreenInstruction::ResizeRight,
        ScreenInstruction::ToggleActiveTerminalFullscreen,
        ScreenInstruction::ToggleActiveTerminalFullscreen,
        ScreenInstruction::ClosePane(t(2)),
        ScreenInstruction::CloseFocusedPane,
        ScreenInstruction::HorizontalSplit(t(6)),
        ScreenInstruction::ResizeUp,
    ];
    for step in steps {
        screen.handle(step);
        assert!(covers_exactly(&screen.visible_panes(), area));
    }
    assert_eq!(screen.visible_panes().len(), 4);
}

#[test]
fn fullscreen_shows_the_focused_pane_alone_and_keeps_the_tree() {
    let mut screen = Screen::new(24, 80);
    screen.handle(ScreenInstruction::NewTab(t(1)));
    screen.handle(ScreenInstruction::VerticalSplit(t(2)));
    let tree = screen.get_active_tab().unwrap().tree.duplicate();
    screen.handle(ScreenInstruction::ToggleActiveTerminalFullscreen);
    let shown = screen.visible_panes();
    assert_eq!(shown.len(), 1);
    assert_eq!(shown[0].pane.id, t(2));
    assert_eq!(shown[0].area, rect(0, 0, 80, 24));
    assert_eq!(screen.get_active_tab().unwrap().tree, tree);
    screen.handle(ScreenInstruction::ToggleActiveTerminalFullscreen);
    assert_eq!(screen.visible_panes().len(), 2);
}

#[test]
fn resize_moves_the_nearest_divider_by_a_twentieth() {
    let mut screen = Screen::new(24, 80);
    screen.handle(ScreenInstruction::NewTab(t(1)));
    screen.handle(ScreenInstruction::VerticalSplit(t(2)));
    screen.handle(ScreenInstruction::ResizeLeft);
    let shown = screen.visible_panes();
    assert_eq!(shown[0].area, rect(0, 0, 36, 24));
    assert_eq!(shown[1].area, rect(36, 0, 44, 24));
    assert_eq!(
        screen.get_active_tab().unwrap().tree.nearest_split(t(2), SplitDirection::Vertical),
        Enclosing::Ratio(450)
    );
    screen.handle(ScreenInstruction::ResizeRight);
    screen.handle(ScreenInstruction::ResizeRight);
    let shown = screen.visible_panes();
    assert_eq!(shown[0].area, rect(0, 0, 44, 24));
    // no divider lies above or below
    screen.handle(ScreenInstruction::ResizeUp);
    screen.handle(ScreenInstruction::ResizeDown);
    assert_eq!(screen.visible_panes(), shown);
}

#[test]
fn resize_stops_where_a_pane_would_lose_its_last_cell() {
    let mut screen = Screen::new(24, 12);
    screen.handle(ScreenInstruction::NewTab(t(1)));
    screen.handle(ScreenInstruction::VerticalSplit(t(2)));
    // 12 columns, six each; a framed pane needs three, which the first has from 250 thousandths on
    for _ in 0..10 {
        screen.handle(ScreenInstruction::ResizeLeft);
    }
    let shown = screen.visible_panes();
    assert_eq!(shown[0].area.cols, 3);
    assert_eq!(shown[1].area.cols, 9);
    assert_eq!(
        screen.get_active_tab().unwrap().tree.nearest_split(t(2), SplitDirection::Vertical),
        Enclosing::Ratio(250)
    );
    for _ in 0..20 {
        screen.handle(ScreenInstruction::ResizeRight);
    }
    let shown = screen.visible_panes();
    assert_eq!(shown[0].area.cols, 9);
    assert_eq!(shown[1].area.cols, 3);
    assert!(shown[0].is_roomy() && shown[1].is_roomy());
    // a pane without a frame needs one cell only
    screen.handle(ScreenInstruction::SetInvisibleBorders(t(2), true));
    for _ in 0..20 {
        screen.handle(ScreenInstruction::ResizeRight);
    }
    let shown = screen.visible_panes();
    assert_eq!(shown[0].area.cols, 11);
    assert_eq!(shown[1].area.cols, 1);
    // the last step stops one thousandth short of leaving the second pane nothing
    assert_eq!(
        screen.get_active_tab().unwrap().tree.nearest_split(t(2), SplitDirection::Vertical),
        Enclosing::Ratio(999)
    );
}

#[test]
fn resize_does_nothing_where_the_panes_lack_room_already() {
    let mut screen = Screen::new(24, 4);
    screen.handle(ScreenInstruction::NewTab(t(1)));
    screen.handle(ScreenInstruction::VerticalSplit(t(2)));
    let shown = screen.visible_panes();
    assert!(!shown[0].is_roomy());
    screen.handle(ScreenInstruction::ResizeLeft);
    screen.handle(ScreenInstruction::ResizeRight);
    assert_eq!(screen.visible_panes(), shown);
    assert_eq!(shown[0].content_area(), rect(1, 1, 0, 22));
    assert_eq!(shown[1].content_area(), rect(3, 1, 0, 22));
}

#[test]
fn new_pane_divides_the_largest_pane_along_its_longer_side() {
    let mut screen = Screen::new(24, 80);
    screen.handle(ScreenInstruction::NewPane(t(1)));
    assert_eq!(screen.tab_count(), 1);
    screen.handle(ScreenInstruction::NewPane(t(2)));
    let shown = screen.visible_panes();
    assert_eq!(shown[0].area, rect(0, 0, 40, 24));
    assert_eq!(shown[1].area, rect(40, 0, 40, 24));
    screen.handle(ScreenInstruction::NewPane(t(3)));
    let shown = screen.visible_panes();
    assert_eq!(shown.len(), 3);
    assert_eq!(shown[0].pane.id, t(1));
    assert_eq!(shown[0].area, rect(0, 0, 40, 12));
    assert_eq!(shown[1].pane.id, t(3));
    assert_eq!(shown[1].area, rect(0, 12, 40, 12));
    assert_eq!(shown[2].area, rect(40, 0, 40, 24));
    assert_eq!(screen.get_active_tab().unwrap().focus, t(3));
}

#[test]
fn tabs_switch_round_and_close() {
    let mut screen = Screen::new(24, 80);
    assert!(screen.get_active_tab().is_none());
    screen.handle(ScreenInstruction::SwitchTabNext);
    screen.handle(ScreenInstruction::NewTab(t(1)));
    screen.handle(ScreenInstruction::NewTab(t(2)));
    screen.handle(ScreenInstruction::NewTab(t(3)));
    assert_eq!(screen.active_index(), 2);
    screen.handle(ScreenInstruction::SwitchTabNext);
    assert_eq!(screen.active_index(), 0);
    screen.handle(ScreenInstruction::SwitchTabPrev);
    assert_eq!(screen.active_index(), 2);
    screen.handle(ScreenInstruction::SwitchTabPrev);
    assert_eq!(screen.active_index(), 1);
    let outcome = screen.handle(ScreenInstruction::CloseTab);
    assert_eq!(outcome.acknowledge, Some(Acknowledgement::ClosedPane));
    assert_eq!(screen.tab_count(), 2);
    assert_eq!(screen.active_index(), 0);
    assert_eq!(ids(&screen), vec![t(1)]);
    // the last pane of a tab takes the tab with it
    screen.handle(ScreenInstruction::ClosePane(t(1)));
    assert_eq!(screen.tab_count(), 1);
    assert_eq!(ids(&screen), vec![t(3)]);
}

#[test]
fn keys_go_to_the_child_of_the_focused_terminal() {
    let mut screen = Screen::new(24, 80);
    let outcome = screen.handle(ScreenInstruction::WriteCharacter(vec![b'x']));
    assert_eq!(outcome.pane, None);
    screen.handle(ScreenInstruction::NewTab(t(5)));
    let outcome = screen.handle(ScreenInstruction::WriteCharacter(vec![b'l', b's']));
    assert_eq!(outcome.pane, Some(PaneCommand::Write(5, vec![b'l', b's'])));
    assert!(outcome.message.is_none());
    assert!(!outcome.render);
    let outcome = screen.handle(ScreenInstruction::ScrollUp);
    assert_eq!(outcome.pane, Some(PaneCommand::ScrollUp(t(5))));
    let outcome = screen.handle(ScreenInstruction::ScrollDown);
    assert_eq!(outcome.pane, Some(PaneCommand::ScrollDown(t(5))));
    let outcome = screen.handle(ScreenInstruction::ClearScroll);
    assert_eq!(outcome.pane, Some(PaneCommand::ClearScroll(t(5))));
}

#[test]
fn settings_of_a_pane_change_one_at_a_time() {
    let mut screen = Screen::new(24, 80);
    screen.handle(ScreenInstruction::NewTab(t(1)));
    screen.handle(ScreenInstruction::VerticalSplit(PaneId::Plugin(0)));
    screen.handle(ScreenInstruction::SetMaxHeight(PaneId::Plugin(0), 1));
    screen.handle(ScreenInstruction::SetInvisibleBorders(PaneId::Plugin(0), true));
    let pane = screen.get_active_tab().unwrap().tree.get(PaneId::Plugin(0)).unwrap();
    assert_eq!(
        pane,
        Pane {
            id: PaneId::Plugin(0),
            settings: PaneSettings {
                selectable: true,
                max_height: Some(1),
                invisible_borders: true
            }
        }
    );
    // the focus leaves a pane that is no longer selectable
    assert_eq!(screen.get_active_tab().unwrap().focus, PaneId::Plugin(0));
    screen.handle(ScreenInstruction::SetSelectable(PaneId::Plugin(0), false));
    assert_eq!(screen.get_active_tab().unwrap().focus, t(1));
    // a pane that is not open has no settings
    let before = screen.get_active_tab().unwrap().tree.duplicate();
    screen.handle(ScreenInstruction::SetSelectable(t(9), false));
    assert_eq!(screen.get_active_tab().unwrap().tree, before);
}

#[test]
fn a_layout_opens_a_tab_of_its_panes() {
    let status = PaneSettings { selectable: false, max_height: Some(1), invisible_borders: true };
    let layout = Layout::Split {
        direction: SplitDirection::Horizontal,
        ratio: 900,
        first: Box::new(Layout::Split {
            direction: SplitDirection::Vertical,
            ratio: 500,
            first: Box::new(Layout::Pane(PaneSettings::new())),
            second: Box::new(Layout::Pane(PaneSettings::new())),
        }),
        second: Box::new(Layout::Pane(status)),
    };
    assert_eq!(layout.count_within(10), Some(3));
    assert_eq!(layout.count_within(2), None);
    let mut screen = Screen::new(20, 80);
    screen.handle(ScreenInstruction::ApplyLayout(layout.duplicate(), vec![t(1), t(2)]));
    assert_eq!(screen.tab_count(), 0);
    screen.handle(ScreenInstruction::ApplyLayout(layout.duplicate(), vec![t(1), t(2), t(1)]));
    assert_eq!(screen.tab_count(), 0);
    let outcome =
        screen.handle(ScreenInstruction::ApplyLayout(layout.duplicate(), vec![t(1), t(2), t(3)]));
    assert_eq!(outcome.acknowledge, Some(Acknowledgement::OpenedPane));
    let shown = screen.visible_panes();
    assert_eq!(shown.len(), 3);
    assert_eq!(shown[0], PlacedPane { pane: Pane::new(t(1)), area: rect(0, 0, 40, 18) });
    assert_eq!(shown[1], PlacedPane { pane: Pane::new(t(2)), area: rect(40, 0, 40, 18) });
    assert_eq!(
        shown[2],
        PlacedPane { pane: Pane { id: t(3), settings: status }, area: rect(0, 18, 80, 2) }
    );
    assert_eq!(screen.get_active_tab().unwrap().focus, t(1));
    // panes that are open cannot open again
    screen.handle(ScreenInstruction::ApplyLayout(layout, vec![t(4), t(5), t(3)]));
    assert_eq!(screen.tab_count(), 1);
    let bad = Layout::Split {
        direction: SplitDirection::Vertical,
        ratio: 1001,
        first: Box::new(Layout::Pane(PaneSettings::new())),
        second: Box::new(Layout::Pane(PaneSettings::new())),
    };
    assert!(!bad.is_valid());
    screen.handle(ScreenInstruction::ApplyLayout(bad, vec![t(4), t(5)]));
    assert_eq!(screen.tab_count(), 1);
}

#[test]
fn a_new_size_places_the_panes_anew() {
    let mut screen = Screen::new(24, 80);
    screen.handle(ScreenInstruction::NewTab(t(1)));
    screen.handle(ScreenInstruction::VerticalSplit(t(2)));
    screen.set_size(50, 201);
    let outcome = screen.handle(ScreenInstruction::Render);
    assert!(outcome.render);
    let shown = screen.visible_panes();
    assert_eq!(shown[0].area, rect(0, 0, 100, 50));
    assert_eq!(shown[1].area, rect(100, 0, 101, 50));
    assert_eq!(screen.visible_panes(), shown);
}

#[test]
fn closing_the_focused_pane_hands_the_focus_to_its_neighbour() {
    let mut tab = Tab::new(t(1));
    tab.vertical_split(t(2));
    tab.vertical_split(t(3));
    tab.set_pane_selectable(t(2), false);
    // the pane before the closed one is not selectable: the next selectable one gets the focus
    let tab = tab.close_pane(t(3)).unwrap();
    assert_eq!(tab.focus, t(1));
    let tab = tab.close_pane(t(1)).unwrap();
    assert_eq!(tab.focus, t(2));
    assert_eq!(tab.tree, PaneTree::Leaf(Pane {
        id: t(2),
        settings: PaneSettings { selectable: false, max_height: None, invisible_borders: false }
    }));
    assert!(tab.close_pane(t(2)).is_none());
}

#[test]
fn focus_toward_a_side_prefers_the_nearest_then_the_first() {
    let mut tab = Tab::new(t(1));
    let area = rect(0, 0, 80, 24);
    tab.vertical_split(t(2));
    tab.horizontal_split(t(3));
    // 1 | 2 over 3: from 1, both 2 and 3 lie to the right at no distance
    tab.move_focus_toward(Side::Left, area);
    assert_eq!(tab.focus, t(1));
    tab.move_focus_toward(Side::Right, area);
    assert_eq!(tab.focus, t(2));
}
