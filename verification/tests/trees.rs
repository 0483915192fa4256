use mosaic::focus::{
    every_pane_has_room, find_pane, largest_index, measure_gap, nearest_index,
    next_selectable_index, Side,
};
use mosaic::geometry::{Rect, SplitDirection, RATIO_HALF, RATIO_ONE};
use mosaic::layout::{Enclosing, Layout, Pane, PaneSettings, PaneTree, PlacedPane};
use mosaic::panes::PaneId;
use mosaic::screen::{all_distinct, ids_in_order};
use mosaic::tab::{Tab, RESIZE_STEP};

fn t(n: u32) -> PaneId {
    PaneId::Terminal(n)
}

fn leaf(n: u32) -> PaneTree {
    PaneTree::Leaf(Pane::new(t(n)))
}

fn split(direction: SplitDirection, ratio: u16, first: PaneTree, second: PaneTree) -> PaneTree {
    PaneTree::Split { direction, ratio, first: Box::new(first), second: Box::new(second) }
}

fn rect(x: u16, y: u16, cols: u16, rows: u16) -> Rect {
    Rect { x, y, cols, rows }
}

fn sample() -> PaneTree {
    // 1 | (2 over (3 | 4))
    split(
        SplitDirection::Vertical,
        250,
        leaf(1),
        split(
            SplitDirection::Horizontal,
            500,
            leaf(2),
            split(SplitDirection::Vertical, 800, leaf(3), leaf(4)),
        ),
    )
}

fn ids(tree: &PaneTree) -> Vec<PaneId> {
    ids_in_order(&tree.panes())
}

#[test]
fn the_panes_of_a_tree_come_first_part_first() {
    let tree = sample();
    assert_eq!(ids(&tree), vec![t(1), t(2), t(3), t(4)]);
    assert!(tree.contains(t(3)));
    assert!(!tree.contains(t(5)));
    assert!(!tree.contains(PaneId::Plugin(3)));
    assert_eq!(tree.get(t(4)), Some(Pane::new(t(4))));
    assert_eq!(tree.get(t(9)), None);
    assert_eq!(tree.duplicate(), tree);
    assert_eq!(tree.clone(), tree);
    assert_eq!(PaneTree::single(Pane::new(t(7))), leaf(7));
    assert_eq!((RATIO_HALF, RATIO_ONE, RESIZE_STEP), (500, 1000, 50));
}

#[test]
fn a_tree_places_its_panes() {
    let placed = sample().place(rect(0, 0, 100, 40));
    let areas: Vec<Rect> = placed.iter().map(|p| p.area).collect();
    assert_eq!(
        areas,
        vec![rect(0, 0, 25, 40), rect(25, 0, 75, 20), rect(25, 20, 60, 20), rect(85, 20, 15, 20)]
    );
    let placed = sample().place(rect(5, 7, 3, 1));
    let areas: Vec<Rect> = placed.iter().map(|p| p.area).collect();
    assert_eq!(
        areas,
        vec![rect(5, 7, 0, 1), rect(5, 7, 3, 0), rect(5, 7, 2, 1), rect(7, 7, 1, 1)]
    );
    let placed = leaf(1).place(Rect::screen(24, 80));
    assert_eq!(placed, vec![PlacedPane { pane: Pane::new(t(1)), area: rect(0, 0, 80, 24) }]);
}

#[test]
fn a_split_puts_the_new_pane_after_the_one_that_made_room() {
    let tree = sample().split(t(2), SplitDirection::Vertical, Pane::new(t(9)));
    assert_eq!(ids(&tree), vec![t(1), t(2), t(9), t(3), t(4)]);
    assert_eq!(tree.nearest_split(t(9), SplitDirection::Vertical), Enclosing::Ratio(500));
    assert_eq!(tree.nearest_split(t(9), SplitDirection::Horizontal), Enclosing::Ratio(500));
    assert_eq!(tree.remove(t(9)), Some(sample()));
    // a pane that the tree does not have makes no room
    assert_eq!(sample().split(t(8), SplitDirection::Vertical, Pane::new(t(9))), sample());
}

#[test]
fn a_pane_leaves_its_space_to_its_sibling() {
    let tree = sample().remove(t(2)).unwrap();
    assert_eq!(
        tree,
        split(
            SplitDirection::Vertical,
            250,
            leaf(1),
            split(SplitDirection::Vertical, 800, leaf(3), leaf(4)),
        )
    );
    let tree = tree.remove(t(1)).unwrap();
    assert_eq!(tree, split(SplitDirection::Vertical, 800, leaf(3), leaf(4)));
    assert_eq!(tree.remove(t(7)), Some(tree.duplicate()));
    let tree = tree.remove(t(4)).unwrap();
    assert_eq!(tree, leaf(3));
    assert_eq!(tree.remove(t(3)), None);
}

#[test]
fn the_nearest_split_of_a_direction_is_found_and_set() {
    let tree = sample();
    assert_eq!(tree.nearest_split(t(1), SplitDirection::Vertical), Enclosing::Ratio(250));
    assert_eq!(tree.nearest_split(t(1), SplitDirection::Horizontal), Enclosing::Unsplit);
    assert_eq!(tree.nearest_split(t(2), SplitDirection::Horizontal), Enclosing::Ratio(500));
    assert_eq!(tree.nearest_split(t(2), SplitDirection::Vertical), Enclosing::Ratio(250));
    assert_eq!(tree.nearest_split(t(4), SplitDirection::Vertical), Enclosing::Ratio(800));
    assert_eq!(tree.nearest_split(t(4), SplitDirection::Horizontal), Enclosing::Ratio(500));
    assert_eq!(tree.nearest_split(t(5), SplitDirection::Horizontal), Enclosing::Absent);
    assert_eq!(leaf(1).nearest_split(t(1), SplitDirection::Vertical), Enclosing::Unsplit);

    let changed = tree.set_ratio(t(2), SplitDirection::Vertical, 300);
    assert_eq!(changed.nearest_split(t(1), SplitDirection::Vertical), Enclosing::Ratio(300));
    assert_eq!(changed.nearest_split(t(4), SplitDirection::Vertical), Enclosing::Ratio(800));
    let changed = tree.set_ratio(t(3), SplitDirection::Vertical, 700);
    assert_eq!(changed.nearest_split(t(4), SplitDirection::Vertical), Enclosing::Ratio(700));
    assert_eq!(changed.nearest_split(t(1), SplitDirection::Vertical), Enclosing::Ratio(250));
    assert_eq!(tree.set_ratio(t(1), SplitDirection::Horizontal, 700), tree);
    assert_eq!(tree.set_ratio(t(9), SplitDirection::Vertical, 700), tree);
}

#[test]
fn a_pane_is_replaced_by_one_of_the_same_id() {
    let quiet = Pane {
        id: t(3),
        settings: PaneSettings { selectable: false, max_height: Some(2), invisible_borders: true },
    };
    let tree = sample().replace(quiet);
    assert_eq!(tree.get(t(3)), Some(quiet));
    assert_eq!(tree.get(t(4)), Some(Pane::new(t(4))));
    assert_eq!(ids(&tree), ids(&sample()));
    let stranger = Pane { id: t(9), settings: quiet.settings };
    assert_eq!(sample().replace(stranger), sample());
    assert_eq!(
        PaneSettings::new(),
        PaneSettings { selectable: true, max_height: None, invisible_borders: false }
    );
}

#[test]
fn a_layout_is_populated_in_order() {
    let layout = Layout::Split {
        direction: SplitDirection::Horizontal,
        ratio: 100,
        first: Box::new(Layout::Pane(PaneSettings::new())),
        second: Box::new(Layout::Split {
            direction: SplitDirection::Vertical,
            ratio: 600,
            first: Box::new(Layout::Pane(PaneSettings::new())),
            second: Box::new(Layout::Pane(PaneSettings::new())),
        }),
    };
    assert!(layout.is_valid());
    assert_eq!(layout.count_within(3), Some(3));
    assert_eq!(layout.count_within(usize::MAX), Some(3));
    assert_eq!(layout.count_within(0), None);
    assert_eq!(layout.clone(), layout);
    let tree = layout.populate(&vec![t(5), t(6), t(7)]);
    assert_eq!(
        tree,
        split(
            SplitDirection::Horizontal,
            100,
            leaf(5),
            split(SplitDirection::Vertical, 600, leaf(6), leaf(7)),
        )
    );
    let (part, next) = layout.populate_from(&vec![t(1), t(5), t(6), t(7), t(8)], 1);
    assert_eq!(part, tree);
    assert_eq!(next, 4);
    assert_eq!(Layout::single().populate(&vec![t(1)]), leaf(1));
}

#[test]
fn the_focus_of_a_laid_out_tab_rests_on_the_first_selectable_pane() {
    let bar = PaneSettings { selectable: false, max_height: Some(1), invisible_borders: true };
    let layout = Layout::Split {
        direction: SplitDirection::Horizontal,
        ratio: 100,
        first: Box::new(Layout::Pane(bar)),
        second: Box::new(Layout::Pane(PaneSettings::new())),
    };
    let tab = Tab::from_layout(&layout, &vec![PaneId::Plugin(0), t(1)]);
    assert_eq!(tab.focus, t(1));
    assert!(!tab.fullscreen);
    assert_eq!(tab.focused_pane(), Pane::new(t(1)));
    let tab = Tab::from_layout(&Layout::Pane(bar), &vec![PaneId::Plugin(0)]);
    assert_eq!(tab.focus, PaneId::Plugin(0));
    let shown = tab.visible_panes(rect(0, 0, 10, 5));
    assert_eq!(shown.len(), 1);
    assert_eq!(shown[0].pane.settings, bar);
}

#[test]
fn panes_are_found_by_id_and_by_turn() {
    let mut panes: Vec<Pane> = (1..=4).map(|n| Pane::new(t(n))).collect();
    assert_eq!(find_pane(&panes, t(3)), Some(2));
    assert_eq!(find_pane(&panes, t(5)), None);
    assert_eq!(find_pane(&vec![], t(1)), None);
    assert_eq!(next_selectable_index(&panes, 0), 1);
    assert_eq!(next_selectable_index(&panes, 3), 0);
    panes[1].settings.selectable = false;
    panes[2].settings.selectable = false;
    assert_eq!(next_selectable_index(&panes, 0), 3);
    assert_eq!(next_selectable_index(&panes, 1), 3);
    assert_eq!(next_selectable_index(&panes, 3), 0);
    panes[0].settings.selectable = false;
    panes[3].settings.selectable = false;
    assert_eq!(next_selectable_index(&panes, 2), 2);
    assert_eq!(next_selectable_index(&panes[..1].to_vec(), 0), 0);
}

#[test]
fn gaps_are_measured_between_panes_that_are_level() {
    let from = rect(10, 10, 10, 10);
    assert_eq!(measure_gap(&from, &rect(20, 10, 5, 10), Side::Right), Some(0));
    assert_eq!(measure_gap(&from, &rect(25, 19, 5, 10), Side::Right), Some(5));
    assert_eq!(measure_gap(&from, &rect(25, 20, 5, 10), Side::Right), None);
    assert_eq!(measure_gap(&from, &rect(19, 10, 5, 10), Side::Right), None);
    assert_eq!(measure_gap(&from, &rect(0, 0, 10, 11), Side::Left), Some(0));
    assert_eq!(measure_gap(&from, &rect(0, 0, 4, 11), Side::Left), Some(6));
    assert_eq!(measure_gap(&from, &rect(0, 0, 11, 11), Side::Left), None);
    assert_eq!(measure_gap(&from, &rect(19, 0, 5, 7), Side::Up), Some(3));
    assert_eq!(measure_gap(&from, &rect(20, 0, 5, 7), Side::Up), None);
    assert_eq!(measure_gap(&from, &rect(0, 30, 11, 1), Side::Down), Some(10));
    assert_eq!(measure_gap(&from, &rect(0, 19, 11, 1), Side::Down), None);
    assert_eq!(
        measure_gap(&rect(0, 0, 1, 65535), &rect(65535, 65534, 65535, 1), Side::Right),
        Some(65534)
    );
}

#[test]
fn the_nearest_and_the_largest_pane_are_found() {
    let placed = sample().place(rect(0, 0, 100, 40));
    assert_eq!(nearest_index(&placed, 0, Side::Right), Some(1));
    assert_eq!(nearest_index(&placed, 0, Side::Left), None);
    assert_eq!(nearest_index(&placed, 1, Side::Down), Some(2));
    assert_eq!(nearest_index(&placed, 3, Side::Up), Some(1));
    assert_eq!(nearest_index(&placed, 3, Side::Left), Some(2));
    assert_eq!(nearest_index(&placed, 2, Side::Left), Some(0));
    assert_eq!(largest_index(&placed), 1);
    assert!(every_pane_has_room(&placed));
    let placed = sample().place(rect(0, 0, 100, 4));
    assert!(!every_pane_has_room(&placed));
    assert!(every_pane_has_room(&vec![]));
    let equal = split(SplitDirection::Vertical, 500, leaf(1), leaf(2)).place(rect(0, 0, 10, 10));
    assert_eq!(largest_index(&equal), 0);
}

#[test]
fn ids_are_told_apart() {
    assert!(all_distinct(&vec![]));
    assert!(all_distinct(&vec![t(1), PaneId::Plugin(1), t(2)]));
    assert!(!all_distinct(&vec![t(1), t(2), t(1)]));
    assert!(!all_distinct(&vec![t(2), t(2)]));
    assert_eq!(ids_in_order(&vec![]), Vec::<PaneId>::new());
}
