use mosaic::geometry::Rect;
use mosaic::layout::{Pane, PaneSettings, PlacedPane};
use mosaic::panes::PaneId;
use mosaic::render::{draw, draw_pane};
use mosaic::screen::{Screen, ScreenInstruction};

fn chars(text: &str) -> Vec<char> {
    text.chars().collect()
}

fn lines(text: &[&str]) -> Vec<Vec<char>> {
    text.iter().map(|line| chars(line)).collect()
}

fn placed(id: u32, x: u16, y: u16, cols: u16, rows: u16, framed: bool) -> PlacedPane {
    PlacedPane {
        pane: Pane {
            id: PaneId::Terminal(id),
            settings: PaneSettings { selectable: true, max_height: None, invisible_borders: !framed },
        },
        area: Rect { x, y, cols, rows },
    }
}

fn drawn(pane: &PlacedPane, text: &[&str]) -> String {
    let mut out = Vec::new();
    draw_pane(&mut out, pane, &lines(text));
    out.into_iter().collect()
}

#[test]
fn a_pane_without_a_frame_shows_its_text_in_all_its_cells() {
    let pane = placed(1, 0, 0, 5, 3, false);
    assert_eq!(
        drawn(&pane, &["ab", "abcdefg"]),
        "\u{1b}[1;1Hab   \u{1b}[2;1Habcde\u{1b}[3;1H     "
    );
    let pane = placed(1, 10, 99, 2, 2, false);
    assert_eq!(drawn(&pane, &["xyz"]), "\u{1b}[100;11Hxy\u{1b}[101;11H  ");
    assert_eq!(pane.content_area(), pane.area);
}

#[test]
fn a_framed_pane_shows_its_text_within_the_frame() {
    let pane = placed(1, 2, 4, 6, 4, true);
    assert_eq!(
        drawn(&pane, &["hello world", "x"]),
        "\u{1b}[5;3H┌────┐\u{1b}[6;3H│hell│\u{1b}[7;3H│x   │\u{1b}[8;3H└────┘"
    );
    assert_eq!(pane.content_area(), Rect { x: 3, y: 5, cols: 4, rows: 2 });
    let pane = placed(1, 0, 0, 2, 2, true);
    assert_eq!(drawn(&pane, &["a"]), "\u{1b}[1;1H┌┐\u{1b}[2;1H└┘");
    assert!(!pane.is_roomy());
    assert!(placed(1, 0, 0, 3, 3, true).is_roomy());
}

#[test]
fn a_pane_too_small_for_a_frame_is_blank() {
    assert_eq!(drawn(&placed(1, 0, 0, 1, 2, true), &["a"]), "\u{1b}[1;1H \u{1b}[2;1H ");
    assert_eq!(drawn(&placed(1, 0, 0, 3, 1, true), &["a"]), "\u{1b}[1;1H   ");
    assert_eq!(drawn(&placed(1, 7, 7, 0, 2, true), &["a"]), "\u{1b}[8;8H\u{1b}[9;8H");
    assert_eq!(drawn(&placed(1, 7, 7, 4, 0, false), &["a"]), "");
}

#[test]
fn the_panes_are_drawn_one_after_the_other() {
    let panes = vec![placed(1, 0, 0, 2, 1, false), placed(2, 2, 0, 2, 1, false)];
    let frame: String = draw(&panes, &vec![lines(&["ab"]), lines(&["cd"])]).into_iter().collect();
    assert_eq!(frame, "\u{1b}[1;1Hab\u{1b}[1;3Hcd");
    // a pane for which no text is given is drawn empty
    let frame: String = draw(&panes, &vec![lines(&["ab"])]).into_iter().collect();
    assert_eq!(frame, "\u{1b}[1;1Hab\u{1b}[1;3H  ");
    assert_eq!(draw(&vec![], &vec![lines(&["ab"])]), Vec::<char>::new());
}

#[test]
fn drawing_the_same_twice_writes_the_same() {
    let mut screen = Screen::new(6, 20);
    screen.handle(ScreenInstruction::NewTab(PaneId::Terminal(1)));
    screen.handle(ScreenInstruction::VerticalSplit(PaneId::Terminal(2)));
    let texts = vec![lines(&["$ ls", "a b c"]), lines(&["$ top"])];
    screen.handle(ScreenInstruction::Render);
    let first = draw(&screen.visible_panes(), &texts);
    screen.handle(ScreenInstruction::Render);
    let second = draw(&screen.visible_panes(), &texts);
    assert_eq!(first, second);
    let frame: String = first.into_iter().collect();
    assert!(frame.starts_with("\u{1b}[1;1H┌────────┐\u{1b}[2;1H│$ ls    │\u{1b}[3;1H│a b c   │"));
    assert!(frame.ends_with("\u{1b}[6;11H└────────┘"));
}
