//! What holds of the screen whatever it is asked: the panes that are shown
//! tile the terminal, and a pane that opens and closes again leaves every
//! tiling as it was.

use crate::client::{asked, passed_on, Startup};
use crate::common::{
    acted, state_after, AppAction, AppInstruction, AppState, ClientInstruction, ServerInstruction,
};
use crate::geometry::{Rect, SplitDirection};
use crate::layout::Pane;
use crate::ledger::{lemma_step, lemma_tab_of};
use crate::panes::PaneId;
use crate::pty_bus::{Placement, PtyAction, PtyBusState, PtyInstruction};
use crate::screen::{ScreenInstruction, ScreenState};
use crate::server::routed;
use crate::tab::{lemma_tab_with_new_pane, lemma_tab_with_split, Tab};
use crate::tiling::{
    lemma_index_of_pane, lemma_leaves, lemma_leaves_distinct, lemma_placed_leaves,
    lemma_split_leaves, lemma_split_then_close, lemma_tree_tiles, tiles,
};
use vstd::prelude::*;

verus! {

/// The panes that a tab shows tile the space of the tab, whether it shows
/// all of them or the focused one alone.
pub proof fn lemma_tab_tiles(tab: Tab, area: Rect)
    requires
        tab.wf(),
        area.fits(),
    ensures
        tiles(tab.visible(area), area),
{
    if tab.fullscreen {
        let shown = tab.visible(area);
        assert forall|x: int, y: int| #[trigger] area.contains(x, y) implies exists|i: int|
            0 <= i < shown.len() && (#[trigger] shown[i]).area.contains(x, y) by {
            assert(shown[0].area.contains(x, y));
        }
    } else {
        lemma_tree_tiles(tab.tree, area);
    }
}

/// The panes that the screen shows tile the terminal: none reaches outside
/// it, no two share a cell, and no cell is left out.
pub proof fn lemma_screen_tiles(screen: ScreenState)
    requires
        screen.wf(),
        screen.tabs.len() > 0,
    ensures
        tiles(screen.visible(), screen.area()),
{
    lemma_tab_tiles(screen.active_tab(), screen.area());
}

/// After every instruction the panes that the screen shows tile the
/// terminal.
pub proof fn lemma_tiles_after(screen: ScreenState, instruction: ScreenInstruction)
    requires
        screen.wf(),
        screen.step(instruction).tabs.len() > 0,
    ensures
        tiles(screen.step(instruction).visible(), screen.step(instruction).area()),
{
    lemma_step(screen, instruction);
    lemma_screen_tiles(screen.step(instruction));
}

/// Whether the instruction opens the pane `id` by dividing a pane of the
/// active tab.
pub open spec fn splits_for(instruction: ScreenInstruction, id: PaneId) -> bool {
    instruction == ScreenInstruction::NewPane(id) || instruction
        == ScreenInstruction::HorizontalSplit(id) || instruction == ScreenInstruction::VerticalSplit(
        id,
    )
}

/// Whether the instruction closes the pane `id` right after it was opened,
/// when it has the focus.
pub open spec fn closes_again(instruction: ScreenInstruction, id: PaneId) -> bool {
    instruction == ScreenInstruction::ClosePane(id) || instruction
        == ScreenInstruction::CloseFocusedPane
}

/// A pane that opens in a tab by a split and closes again leaves the tiling
/// of the tab as it was; and the focus too, where it was on a selectable
/// pane and the focused pane was the one divided.
pub proof fn lemma_tab_split_then_close(tab: Tab, target: PaneId, direction: SplitDirection, id: PaneId)
    requires
        tab.wf(),
        !tab.pane_ids().contains(id),
    ensures
        ({
            let opened = Tab {
                tree: tab.tree.with_split(target, direction, Pane::fresh(id)),
                focus: id,
                fullscreen: false,
            };
            &&& tab.tree.pane_ids().contains(target) ==> (opened.without(id) matches Some(closed)
                && closed.tree == tab.tree)
            &&& target == tab.focus && tab.focused().settings.selectable ==> opened.without(id)
                == Some(Tab { tree: tab.tree, focus: tab.focus, fullscreen: false })
        }),
{
    let pane = Pane::fresh(id);
    let tree = tab.tree.with_split(target, direction, pane);
    let opened = Tab { tree, focus: id, fullscreen: false };
    lemma_split_then_close(tab.tree, target, direction, pane);
    crate::tiling::lemma_split(tab.tree, target, direction, pane);
    if target == tab.focus {
        lemma_leaves(tab.tree);
        lemma_leaves_distinct(tab.tree);
        let panes = tab.tree.leaves();
        let at = choose|i: int| 0 <= i < panes.len() && (#[trigger] panes[i]).id == tab.focus;
        lemma_index_of_pane(panes, tab.focus, at);
        lemma_split_leaves(tab.tree, target, direction, pane, at);
        lemma_leaves(tree);
        lemma_leaves_distinct(tree);
        assert(tree.leaves()[at + 1] == pane);
        lemma_index_of_pane(tree.leaves(), id, at + 1);
    }
}

/// A pane that opens by a split and closes again leaves the tiling of every
/// tab as it was.
pub proof fn lemma_split_then_close_restores(
    screen: ScreenState,
    id: PaneId,
    open: ScreenInstruction,
    close: ScreenInstruction,
)
    requires
        screen.wf(),
        !screen.pane_ids().contains(id),
        splits_for(open, id),
        closes_again(close, id),
    ensures
        ({
            let after = screen.step(open).step(close);
            &&& after.tabs.len() == screen.tabs.len()
            &&& after.active == screen.active
            &&& forall|i: int|
                0 <= i < screen.tabs.len() ==> (#[trigger] after.tabs[i]).tree
                    == screen.tabs[i].tree
        }),
{
    let opened = screen.step(open);
    let after = opened.step(close);
    lemma_step(screen, open);
    if screen.tabs.len() == 0 {
        let tab = Tab::opened(id);
        assert(opened.tabs =~= seq![tab]);
        assert(tab.pane_ids().contains(id));
        lemma_tab_of(opened, 0, id);
        crate::tiling::lemma_without(tab.tree, id);
        assert(opened.without_pane(id).tabs =~= Seq::<Tab>::empty());
    } else {
        let tab = screen.active_tab();
        let area = screen.area();
        assert(!tab.pane_ids().contains(id)) by {
            if tab.pane_ids().contains(id) {
                lemma_tab_of(screen, screen.active, id);
            }
        }
        let changed = opened.tabs[screen.active];
        let target = if open is NewPane {
            let placed = tab.tree.placed(area);
            placed[crate::focus::largest(placed, placed.len() as int)].pane.id
        } else {
            tab.focus
        };
        let direction = if open is NewPane {
            let placed = tab.tree.placed(area);
            crate::tab::roomier_direction(
                placed[crate::focus::largest(placed, placed.len() as int)].area,
            )
        } else if open is HorizontalSplit {
            SplitDirection::Horizontal
        } else {
            SplitDirection::Vertical
        };
        if open is NewPane {
            let placed = tab.tree.placed(area);
            lemma_leaves(tab.tree);
            lemma_placed_leaves(tab.tree, area);
            crate::focus::lemma_largest(placed, placed.len() as int);
            let at = crate::focus::largest(placed, placed.len() as int);
            assert(placed[at].pane == tab.tree.leaves()[at]);
            lemma_tab_with_new_pane(tab, id, area);
        } else {
            lemma_tab_with_split(tab, direction, id);
        }
        assert(changed == Tab {
            tree: tab.tree.with_split(target, direction, Pane::fresh(id)),
            focus: id,
            fullscreen: false,
        });
        lemma_tab_split_then_close(tab, target, direction, id);
        assert(changed.pane_ids().contains(id));
        lemma_tab_of(opened, screen.active, id);
        let closed = changed.without(id).unwrap();
        assert(after.tabs =~= screen.tabs.update(screen.active, closed));
    }
}

/// Drawing the screen changes nothing: whatever is drawn next shows the
/// same panes in the same cells.
pub proof fn lemma_render_changes_nothing(screen: ScreenState)
    ensures
        screen.step(ScreenInstruction::Render) == screen,
        screen.step(ScreenInstruction::Render).visible() == screen.visible(),
{
}

/// The instruction that a split asked for on the command line becomes:
/// for `h` a split into panes one above the other, else side by side.
pub open spec fn split_asked(direction: char) -> ServerInstruction {
    if direction == 'h' {
        ServerInstruction::SplitHorizontally
    } else {
        ServerInstruction::SplitVertically
    }
}

/// What the PTY bus is asked for such a split.
pub open spec fn spawn_asked(direction: char) -> PtyInstruction {
    if direction == 'h' {
        PtyInstruction::SpawnTerminalHorizontally(None)
    } else {
        PtyInstruction::SpawnTerminalVertically(None)
    }
}

/// Where the pane of the new child opens.
pub open spec fn placement_asked(direction: char) -> Placement {
    if direction == 'h' {
        Placement::Horizontal
    } else {
        Placement::Vertical
    }
}

/// What the screen is asked once the child with the terminal `fd` lives.
pub open spec fn split_told(direction: char, fd: u32) -> ScreenInstruction {
    if direction == 'h' {
        ScreenInstruction::HorizontalSplit(PaneId::Terminal(fd))
    } else {
        ScreenInstruction::VerticalSplit(PaneId::Terminal(fd))
    }
}

/// How the focused pane is divided.
pub open spec fn direction_asked(direction: char) -> SplitDirection {
    if direction == 'h' {
        SplitDirection::Horizontal
    } else {
        SplitDirection::Vertical
    }
}

/// A split that another invocation of the program asks for, with `h` or
/// `v` on its command line, gives the running session one pane more. The
/// invocation delivers one instruction. The server passes it to the PTY
/// bus, which asks for one child and changes nothing. Once the child lives,
/// the bus counts it and tells the server of it; the server passes that to
/// the client, the client to the dispatcher and the dispatcher to the
/// screen, each unchanged. The screen then has the pane of the child open,
/// in the second part of what was the focused pane, and with the focus.
/// Of a terminal that a living child has already the bus tells nothing and
/// counts nothing; and a pane that is open already the screen leaves as it
/// is.
pub proof fn lemma_drive_by_split(
    direction: char,
    move_focus: bool,
    open_file: Option<String>,
    bus: PtyBusState,
    action: PtyAction,
    fd: u32,
    state: AppState,
    screen: ScreenState,
)
    requires
        direction == 'h' || direction == 'v',
        bus.wf(),
        screen.wf(),
        bus.asks(spawn_asked(direction), action),
    ensures
        asked(Some(direction), move_focus, open_file) == Startup::DriveBy(split_asked(direction)),
        routed(split_asked(direction)).pty == Some(spawn_asked(direction)),
        routed(split_asked(direction)).client is None,
        !routed(split_asked(direction)).stop,
        action == (PtyAction::Spawn { file: None, placement: placement_asked(direction) }),
        bus.step(spawn_asked(direction)) == bus,
        bus.children.contains(fd) ==> bus.tells(fd, placement_asked(direction)) is None
            && bus.with_child(fd) == bus,
        !bus.children.contains(fd) ==> bus.tells(fd, placement_asked(direction)) == Some(
            ServerInstruction::ToScreen(split_told(direction, fd)),
        ) && bus.with_child(fd).children == bus.children.push(fd),
        bus.with_child(fd).wf(),
        routed(ServerInstruction::ToScreen(split_told(direction, fd))).client == Some(
            ClientInstruction::ToScreen(split_told(direction, fd)),
        ),
        routed(ServerInstruction::ToScreen(split_told(direction, fd))).pty is None,
        passed_on(ClientInstruction::ToScreen(split_told(direction, fd))) == Some(
            AppInstruction::ToScreen(split_told(direction, fd)),
        ),
        acted(state, AppInstruction::ToScreen(split_told(direction, fd))) == AppAction::ToScreen(
            split_told(direction, fd),
        ),
        state_after(state, AppInstruction::ToScreen(split_told(direction, fd))) == state,
        screen.step(split_told(direction, fd)).wf(),
        screen.step(split_told(direction, fd)).pane_ids() == screen.pane_ids().insert(
            PaneId::Terminal(fd),
        ),
        screen.pane_ids().contains(PaneId::Terminal(fd)) ==> screen.step(split_told(direction, fd))
            == screen,
        !screen.pane_ids().contains(PaneId::Terminal(fd)) && screen.tabs.len() == 0 ==> screen.step(
            split_told(direction, fd),
        ).tabs == seq![Tab::opened(PaneId::Terminal(fd))],
        !screen.pane_ids().contains(PaneId::Terminal(fd)) && screen.tabs.len() > 0 ==> screen.step(
            split_told(direction, fd),
        ).tabs == screen.tabs.update(
            screen.active,
            Tab {
                tree: screen.active_tab().tree.with_split(
                    screen.active_tab().focus,
                    direction_asked(direction),
                    Pane::fresh(PaneId::Terminal(fd)),
                ),
                focus: PaneId::Terminal(fd),
                fullscreen: false,
            },
        ),
{
    let told = split_told(direction, fd);
    lemma_step(screen, told);
    assert(screen.step(told).pane_ids() =~= screen.pane_ids().insert(PaneId::Terminal(fd)));
    if !screen.pane_ids().contains(PaneId::Terminal(fd)) {
        if screen.tabs.len() == 0 {
            assert(screen.step(told).tabs =~= seq![Tab::opened(PaneId::Terminal(fd))]);
        } else {
            let tab = screen.active_tab();
            assert(!tab.pane_ids().contains(PaneId::Terminal(fd))) by {
                if tab.pane_ids().contains(PaneId::Terminal(fd)) {
                    lemma_tab_of(screen, screen.active, PaneId::Terminal(fd));
                }
            }
        }
    }
}

} // verus!
