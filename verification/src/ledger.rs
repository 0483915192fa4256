//! Which panes are open: every instruction changes the open panes by
//! exactly the panes that it opens and the panes that it closes.

use crate::focus::Side;
use crate::geometry::SplitDirection;
use crate::layout::PaneSettings;
use crate::panes::PaneId;
use crate::screen::{ScreenInstruction, ScreenState};
use crate::tab::{
    lemma_tab_focus, lemma_tab_planned, lemma_tab_resized, lemma_tab_with_new_pane,
    lemma_tab_with_settings, lemma_tab_with_split, lemma_tab_without, Tab,
};
use vstd::prelude::*;

verus! {

/// A pane is in one tab only.
pub proof fn lemma_tab_of(screen: ScreenState, at: int, id: PaneId)
    requires
        screen.wf(),
        0 <= at < screen.tabs.len(),
        screen.tabs[at].pane_ids().contains(id),
    ensures
        screen.pane_ids().contains(id),
        screen.tab_of(id) == at,
{
    let found = screen.tab_of(id);
    if found < at {
        assert(screen.tabs[found].pane_ids().disjoint(screen.tabs[at].pane_ids()));
    } else if at < found {
        assert(screen.tabs[at].pane_ids().disjoint(screen.tabs[found].pane_ids()));
    }
}

/// A tab may take the place of another if it is well-formed and holds no
/// pane of the other tabs: the open panes are then those of the other tabs
/// and its own.
pub proof fn lemma_with_tab(screen: ScreenState, at: int, tab: Tab)
    requires
        screen.wf(),
        0 <= at < screen.tabs.len(),
        tab.wf(),
        forall|id: PaneId| #[trigger]
            tab.pane_ids().contains(id) ==> screen.tabs[at].pane_ids().contains(id)
                || !screen.pane_ids().contains(id),
    ensures
        screen.with_tab(at, tab).wf(),
        screen.with_tab(at, tab).pane_ids() == screen.pane_ids().difference(
            screen.tabs[at].pane_ids(),
        ).union(tab.pane_ids()),
{
    let after = screen.with_tab(at, tab);
    assert forall|i: int, j: int| 0 <= i < j < after.tabs.len() implies (
    #[trigger] after.tabs[i]).pane_ids().disjoint((#[trigger] after.tabs[j]).pane_ids()) by {
        assert(screen.tabs[i].pane_ids().disjoint(screen.tabs[j].pane_ids()));
        assert forall|id: PaneId|
            !(after.tabs[i].pane_ids().contains(id) && after.tabs[j].pane_ids().contains(id)) by {
            if after.tabs[i].pane_ids().contains(id) && after.tabs[j].pane_ids().contains(id) {
                if i == at {
                    assert(screen.tabs[j].pane_ids().contains(id));
                } else if j == at {
                    assert(screen.tabs[i].pane_ids().contains(id));
                }
            }
        }
    }
    let expected = screen.pane_ids().difference(screen.tabs[at].pane_ids()).union(tab.pane_ids());
    assert forall|id: PaneId| after.pane_ids().contains(id) <==> expected.contains(id) by {
        if after.pane_ids().contains(id) {
            let i = choose|i: int|
                0 <= i < after.tabs.len() && (#[trigger] after.tabs[i]).pane_ids().contains(id);
            if i != at {
                assert(screen.tabs[i].pane_ids().contains(id));
                lemma_tab_of(screen, i, id);
                if screen.tabs[at].pane_ids().contains(id) {
                    lemma_tab_of(screen, at, id);
                }
            }
        }
        if expected.contains(id) {
            if tab.pane_ids().contains(id) {
                assert(after.tabs[at].pane_ids().contains(id));
            } else {
                let i = choose|i: int|
                    0 <= i < screen.tabs.len() && (#[trigger] screen.tabs[i]).pane_ids().contains(
                        id,
                    );
                assert(after.tabs[i].pane_ids().contains(id));
            }
        }
    }
    assert(after.pane_ids() =~= expected);
}

/// Without one of its tabs the screen is well-formed, and the open panes
/// are those of the other tabs.
pub proof fn lemma_without_tab(screen: ScreenState, at: int)
    requires
        screen.wf(),
        0 <= at < screen.tabs.len(),
    ensures
        screen.without_tab(at).wf(),
        screen.without_tab(at).pane_ids() == screen.pane_ids().difference(
            screen.tabs[at].pane_ids(),
        ),
{
    let after = screen.without_tab(at);
    assert forall|i: int| 0 <= i < after.tabs.len() implies (#[trigger] after.tabs[i]).wf() by {
        if i < at {
            assert(after.tabs[i] == screen.tabs[i]);
        } else {
            assert(after.tabs[i] == screen.tabs[i + 1]);
        }
    }
    assert forall|i: int, j: int| 0 <= i < j < after.tabs.len() implies (
    #[trigger] after.tabs[i]).pane_ids().disjoint((#[trigger] after.tabs[j]).pane_ids()) by {
        let a = if i < at {
            i
        } else {
            i + 1
        };
        let b = if j < at {
            j
        } else {
            j + 1
        };
        assert(after.tabs[i] == screen.tabs[a]);
        assert(after.tabs[j] == screen.tabs[b]);
        assert(screen.tabs[a].pane_ids().disjoint(screen.tabs[b].pane_ids()));
    }
    let expected = screen.pane_ids().difference(screen.tabs[at].pane_ids());
    assert forall|id: PaneId| after.pane_ids().contains(id) <==> expected.contains(id) by {
        if after.pane_ids().contains(id) {
            let i = choose|i: int|
                0 <= i < after.tabs.len() && (#[trigger] after.tabs[i]).pane_ids().contains(id);
            let a = if i < at {
                i
            } else {
                i + 1
            };
            assert(after.tabs[i] == screen.tabs[a]);
            lemma_tab_of(screen, a, id);
            if screen.tabs[at].pane_ids().contains(id) {
                lemma_tab_of(screen, at, id);
            }
        }
        if expected.contains(id) {
            let a = choose|i: int|
                0 <= i < screen.tabs.len() && (#[trigger] screen.tabs[i]).pane_ids().contains(id);
            let i = if a < at {
                a
            } else {
                a - 1
            };
            assert(after.tabs[i] == screen.tabs[a]);
        }
    }
    assert(after.pane_ids() =~= expected);
}

/// A well-formed tab of panes that are not open may become the last tab:
/// the open panes are then those that were open and its own.
pub proof fn lemma_with_new_tab(screen: ScreenState, tab: Tab)
    requires
        screen.wf(),
        tab.wf(),
        forall|id: PaneId| #[trigger] tab.pane_ids().contains(id) ==> !screen.pane_ids().contains(id),
    ensures
        screen.with_new_tab(tab).wf(),
        screen.with_new_tab(tab).pane_ids() == screen.pane_ids().union(tab.pane_ids()),
{
    let after = screen.with_new_tab(tab);
    let count = screen.tabs.len() as int;
    assert forall|i: int| 0 <= i < after.tabs.len() implies (#[trigger] after.tabs[i]).wf() by {
        if i < count {
            assert(after.tabs[i] == screen.tabs[i]);
        }
    }
    assert forall|i: int, j: int| 0 <= i < j < after.tabs.len() implies (
    #[trigger] after.tabs[i]).pane_ids().disjoint((#[trigger] after.tabs[j]).pane_ids()) by {
        assert(after.tabs[i] == screen.tabs[i]);
        if j < count {
            assert(after.tabs[j] == screen.tabs[j]);
            assert(screen.tabs[i].pane_ids().disjoint(screen.tabs[j].pane_ids()));
        } else {
            assert forall|id: PaneId|
                !(after.tabs[i].pane_ids().contains(id) && after.tabs[j].pane_ids().contains(
                    id,
                )) by {
                if screen.tabs[i].pane_ids().contains(id) {
                    lemma_tab_of(screen, i, id);
                }
            }
        }
    }
    let expected = screen.pane_ids().union(tab.pane_ids());
    assert forall|id: PaneId| after.pane_ids().contains(id) <==> expected.contains(id) by {
        if after.pane_ids().contains(id) {
            let i = choose|i: int|
                0 <= i < after.tabs.len() && (#[trigger] after.tabs[i]).pane_ids().contains(id);
            if i < count {
                assert(after.tabs[i] == screen.tabs[i]);
                lemma_tab_of(screen, i, id);
            }
        }
        if expected.contains(id) {
            if tab.pane_ids().contains(id) {
                assert(after.tabs[count].pane_ids().contains(id));
            } else {
                let i = choose|i: int|
                    0 <= i < screen.tabs.len() && (#[trigger] screen.tabs[i]).pane_ids().contains(
                        id,
                    );
                assert(after.tabs[i] == screen.tabs[i]);
            }
        }
    }
    assert(after.pane_ids() =~= expected);
}

/// A change to a tab that neither opens nor closes a pane leaves the open
/// panes as they are.
pub proof fn lemma_with_same_panes(screen: ScreenState, at: int, tab: Tab)
    requires
        screen.wf(),
        0 <= at < screen.tabs.len(),
        tab.wf(),
        tab.pane_ids() == screen.tabs[at].pane_ids(),
    ensures
        screen.with_tab(at, tab).wf(),
        screen.with_tab(at, tab).pane_ids() == screen.pane_ids(),
{
    lemma_with_tab(screen, at, tab);
    assert forall|id: PaneId| screen.tabs[at].pane_ids().contains(id) implies screen.pane_ids().contains(
        id,
    ) by {
        lemma_tab_of(screen, at, id);
    }
    assert(screen.with_tab(at, tab).pane_ids() =~= screen.pane_ids());
}

/// A tab that has gained the pane `id`, which was not open, may take the
/// place of the tab it was: the pane is then open too.
pub proof fn lemma_with_one_more(screen: ScreenState, at: int, tab: Tab, id: PaneId)
    requires
        screen.wf(),
        0 <= at < screen.tabs.len(),
        tab.wf(),
        !screen.pane_ids().contains(id),
        tab.pane_ids() == screen.tabs[at].pane_ids().insert(id),
    ensures
        screen.with_tab(at, tab).wf(),
        screen.with_tab(at, tab).pane_ids() == screen.pane_ids().insert(id),
{
    lemma_with_tab(screen, at, tab);
    assert forall|other: PaneId|
        screen.tabs[at].pane_ids().contains(other) implies screen.pane_ids().contains(other) by {
        lemma_tab_of(screen, at, other);
    }
    assert(screen.with_tab(at, tab).pane_ids() =~= screen.pane_ids().insert(id));
}

/// Closing a pane leaves a well-formed screen on which every other pane is
/// still open.
pub proof fn lemma_without_pane(screen: ScreenState, id: PaneId)
    requires
        screen.wf(),
    ensures
        screen.without_pane(id).wf(),
        screen.without_pane(id).pane_ids() == screen.pane_ids().remove(id),
{
    if !screen.pane_ids().contains(id) {
        assert(screen.pane_ids().remove(id) =~= screen.pane_ids());
    } else {
        let at = screen.tab_of(id);
        let tab = screen.tabs[at];
        lemma_tab_without(tab, id);
        assert forall|other: PaneId| tab.pane_ids().contains(other) implies screen.pane_ids().contains(
            other,
        ) by {
            lemma_tab_of(screen, at, other);
        }
        match tab.without(id) {
            Some(rest) => {
                lemma_with_tab(screen, at, rest);
                assert(screen.without_pane(id).pane_ids() =~= screen.pane_ids().remove(id));
            },
            None => {
                lemma_without_tab(screen, at);
                assert(screen.without_pane(id).pane_ids() =~= screen.pane_ids().remove(id));
            },
        }
    }
}

/// New settings for a pane leave a well-formed screen with the same panes
/// open.
pub proof fn lemma_with_settings(screen: ScreenState, id: PaneId, settings: PaneSettings)
    requires
        screen.wf(),
    ensures
        screen.with_settings(id, settings).wf(),
        screen.with_settings(id, settings).pane_ids() == screen.pane_ids(),
{
    if screen.pane_ids().contains(id) {
        let at = screen.tab_of(id);
        lemma_tab_with_settings(screen.tabs[at], id, settings);
        lemma_with_same_panes(screen, at, screen.tabs[at].with_settings(id, settings));
    }
}

/// A new pane leaves a well-formed screen on which it is open too.
pub proof fn lemma_with_pane(screen: ScreenState, id: PaneId, changed: Tab)
    requires
        screen.wf(),
        screen.tabs.len() > 0 ==> changed.wf() && changed.pane_ids()
            == screen.active_tab().pane_ids().insert(id),
    ensures
        screen.with_pane(id, changed).wf(),
        screen.with_pane(id, changed).pane_ids() == screen.pane_ids().insert(id),
{
    if screen.pane_ids().contains(id) {
        assert(screen.pane_ids().insert(id) =~= screen.pane_ids());
    } else if screen.tabs.len() == 0 {
        let tab = Tab::opened(id);
        assert(tab.pane_ids() =~= set![id]);
        lemma_with_new_tab(screen, tab);
        assert(screen.pane_ids().union(tab.pane_ids()) =~= screen.pane_ids().insert(id));
    } else {
        lemma_with_one_more(screen, screen.active, changed, id);
    }
}

/// Every instruction leaves the screen well-formed, and the panes that are
/// open after it are those that were open or that it opened, less those
/// that it closed.
pub proof fn lemma_step(screen: ScreenState, instruction: ScreenInstruction)
    requires
        screen.wf(),
    ensures
        screen.step(instruction).wf(),
        screen.step(instruction).pane_ids() == screen.pane_ids().union(
            screen.opened_by(instruction),
        ).difference(screen.closed_by(instruction)),
{
    let tab = screen.active_tab();
    let area = screen.area();
    let after = screen.step(instruction);
    let expected = screen.pane_ids().union(screen.opened_by(instruction)).difference(
        screen.closed_by(instruction),
    );
    match instruction {
        ScreenInstruction::NewPane(id) => {
            if screen.tabs.len() > 0 {
                lemma_tab_with_new_pane(tab, id, area);
            }
            lemma_with_pane(screen, id, tab.with_new_pane(id, area));
            assert(after.pane_ids() =~= expected);
        },
        ScreenInstruction::HorizontalSplit(id) => {
            if screen.tabs.len() > 0 {
                lemma_tab_with_split(tab, SplitDirection::Horizontal, id);
            }
            lemma_with_pane(screen, id, tab.with_split(SplitDirection::Horizontal, id));
            assert(after.pane_ids() =~= expected);
        },
        ScreenInstruction::VerticalSplit(id) => {
            if screen.tabs.len() > 0 {
                lemma_tab_with_split(tab, SplitDirection::Vertical, id);
            }
            lemma_with_pane(screen, id, tab.with_split(SplitDirection::Vertical, id));
            assert(after.pane_ids() =~= expected);
        },
        ScreenInstruction::ResizeLeft => {
            lemma_unchanged_panes(screen, tab.resized(Side::Left, area), Side::Left);
            assert(after.pane_ids() =~= expected);
        },
        ScreenInstruction::ResizeRight => {
            lemma_unchanged_panes(screen, tab.resized(Side::Right, area), Side::Right);
            assert(after.pane_ids() =~= expected);
        },
        ScreenInstruction::ResizeDown => {
            lemma_unchanged_panes(screen, tab.resized(Side::Down, area), Side::Down);
            assert(after.pane_ids() =~= expected);
        },
        ScreenInstruction::ResizeUp => {
            lemma_unchanged_panes(screen, tab.resized(Side::Up, area), Side::Up);
            assert(after.pane_ids() =~= expected);
        },
        ScreenInstruction::MoveFocus => {
            lemma_unchanged_panes(screen, tab.with_next_focus(), Side::Left);
            assert(after.pane_ids() =~= expected);
        },
        ScreenInstruction::MoveFocusLeft => {
            lemma_unchanged_panes(screen, tab.with_focus_toward(Side::Left, area), Side::Left);
            assert(after.pane_ids() =~= expected);
        },
        ScreenInstruction::MoveFocusDown => {
            lemma_unchanged_panes(screen, tab.with_focus_toward(Side::Down, area), Side::Down);
            assert(after.pane_ids() =~= expected);
        },
        ScreenInstruction::MoveFocusUp => {
            lemma_unchanged_panes(screen, tab.with_focus_toward(Side::Up, area), Side::Up);
            assert(after.pane_ids() =~= expected);
        },
        ScreenInstruction::MoveFocusRight => {
            lemma_unchanged_panes(screen, tab.with_focus_toward(Side::Right, area), Side::Right);
            assert(after.pane_ids() =~= expected);
        },
        ScreenInstruction::CloseFocusedPane => {
            if screen.tabs.len() > 0 {
                lemma_without_pane(screen, tab.focus);
            }
            assert(after.pane_ids() =~= expected);
        },
        ScreenInstruction::ToggleActiveTerminalFullscreen => {
            if screen.tabs.len() > 0 {
                lemma_with_same_panes(
                    screen,
                    screen.active,
                    Tab { tree: tab.tree, focus: tab.focus, fullscreen: !tab.fullscreen },
                );
            }
            assert(after.pane_ids() =~= expected);
        },
        ScreenInstruction::SetSelectable(id, selectable) => {
            lemma_with_settings(
                screen,
                id,
                PaneSettings { selectable, ..screen.settings_of(id) },
            );
            assert(after.pane_ids() =~= expected);
        },
        ScreenInstruction::SetInvisibleBorders(id, invisible_borders) => {
            lemma_with_settings(
                screen,
                id,
                PaneSettings { invisible_borders, ..screen.settings_of(id) },
            );
            assert(after.pane_ids() =~= expected);
        },
        ScreenInstruction::SetMaxHeight(id, max_height) => {
            lemma_with_settings(
                screen,
                id,
                PaneSettings { max_height: Some(max_height), ..screen.settings_of(id) },
            );
            assert(after.pane_ids() =~= expected);
        },
        ScreenInstruction::ClosePane(id) => {
            lemma_without_pane(screen, id);
            assert(after.pane_ids() =~= expected);
        },
        ScreenInstruction::ApplyLayout(layout, ids) => {
            if screen.admits(layout, ids@) {
                lemma_tab_planned(layout, ids@);
                let planned = Tab::planned(layout, ids@);
                assert forall|id: PaneId| #[trigger]
                    planned.pane_ids().contains(id) implies !screen.pane_ids().contains(id) by {
                    let i = choose|i: int| 0 <= i < ids@.len() && ids@[i] == id;
                    assert(!screen.pane_ids().contains(ids@[i]));
                }
                lemma_with_new_tab(screen, planned);
            }
            assert(after.pane_ids() =~= expected);
        },
        ScreenInstruction::NewTab(id) => {
            if screen.pane_ids().contains(id) {
            } else {
                let opened = Tab::opened(id);
                assert(opened.pane_ids() =~= set![id]);
                lemma_with_new_tab(screen, opened);
            }
            assert(after.pane_ids() =~= expected);
        },
        ScreenInstruction::SwitchTabNext => {
            assert(after.pane_ids() =~= expected);
        },
        ScreenInstruction::SwitchTabPrev => {
            assert(after.pane_ids() =~= expected);
        },
        ScreenInstruction::CloseTab => {
            if screen.tabs.len() > 0 {
                lemma_without_tab(screen, screen.active);
            }
            assert(after.pane_ids() =~= expected);
        },
        ScreenInstruction::Pty(_, _)
        | ScreenInstruction::Render
        | ScreenInstruction::WriteCharacter(_)
        | ScreenInstruction::ScrollUp
        | ScreenInstruction::ScrollDown
        | ScreenInstruction::ClearScroll
        | ScreenInstruction::Exit => {
            assert(after.pane_ids() =~= expected);
        },
    }
}

/// A resize or a move of the focus in the active tab leaves the screen
/// well-formed and the open panes as they are.
proof fn lemma_unchanged_panes(screen: ScreenState, changed: Tab, side: Side)
    requires
        screen.wf(),
        ({
            let tab = screen.active_tab();
            let area = screen.area();
            ||| changed == tab.resized(side, area)
            ||| changed == tab.with_next_focus()
            ||| changed == tab.with_focus_toward(side, area)
        }),
    ensures
        screen.on_active(changed).wf(),
        screen.on_active(changed).pane_ids() == screen.pane_ids(),
{
    if screen.tabs.len() > 0 {
        let tab = screen.active_tab();
        lemma_tab_resized(tab, side, screen.area());
        lemma_tab_focus(tab, side, screen.area());
        lemma_with_same_panes(screen, screen.active, changed);
    }
}

/// The screen after a series of instructions, none of which is handled
/// once the screen has been bid to stop.
pub open spec fn run(screen: ScreenState, instructions: Seq<ScreenInstruction>) -> ScreenState
    decreases instructions.len(),
{
    if instructions.len() == 0 || instructions[0] is Exit {
        screen
    } else {
        run(screen.step(instructions[0]), instructions.drop_first())
    }
}

/// How many of a series of instructions are handled: all up to the first
/// that bids the screen stop, and that one.
pub open spec fn handled(instructions: Seq<ScreenInstruction>) -> nat
    decreases instructions.len(),
{
    if instructions.len() == 0 {
        0
    } else if instructions[0] is Exit {
        1
    } else {
        1 + handled(instructions.drop_first())
    }
}

/// The panes in `open`, with each of a series of instructions in turn adding
/// the panes that it opens and taking away the panes that it closes, up to
/// the first that bids the screen stop.
pub open spec fn ledger(
    open: Set<PaneId>,
    screen: ScreenState,
    instructions: Seq<ScreenInstruction>,
) -> Set<PaneId>
    decreases instructions.len(),
{
    if instructions.len() == 0 || instructions[0] is Exit {
        open
    } else {
        ledger(
            open.union(screen.opened_by(instructions[0])).difference(
                screen.closed_by(instructions[0]),
            ),
            screen.step(instructions[0]),
            instructions.drop_first(),
        )
    }
}

/// After any series of instructions, the panes that are open are those that
/// were opened and have not been closed since.
pub proof fn lemma_open_panes(screen: ScreenState, instructions: Seq<ScreenInstruction>)
    requires
        screen.wf(),
    ensures
        run(screen, instructions).wf(),
        run(screen, instructions).pane_ids() == ledger(screen.pane_ids(), screen, instructions),
    decreases instructions.len(),
{
    if instructions.len() > 0 && !(instructions[0] is Exit) {
        lemma_step(screen, instructions[0]);
        lemma_open_panes(screen.step(instructions[0]), instructions.drop_first());
    }
}

/// No more instructions are handled than there are; and all are handled
/// where none bids the screen stop.
pub proof fn lemma_handled(instructions: Seq<ScreenInstruction>)
    ensures
        handled(instructions) <= instructions.len(),
        (forall|i: int| 0 <= i < instructions.len() ==> !(#[trigger] instructions[i] is Exit))
            ==> handled(instructions) == instructions.len(),
        forall|i: int| 0 <= i < handled(instructions) - 1 ==> !(#[trigger] instructions[i] is Exit),
        handled(instructions) < instructions.len() ==> instructions[handled(instructions) - 1]
            is Exit,
    decreases instructions.len(),
{
    if instructions.len() > 0 && !(instructions[0] is Exit) {
        let rest = instructions.drop_first();
        lemma_handled(rest);
        assert forall|i: int| 0 <= i < handled(instructions) - 1 implies !(
        #[trigger] instructions[i] is Exit) by {
            if i > 0 {
                assert(rest[i - 1] == instructions[i]);
            }
        }
        if forall|i: int| 0 <= i < instructions.len() ==> !(#[trigger] instructions[i] is Exit) {
            assert forall|i: int| 0 <= i < rest.len() implies !(#[trigger] rest[i] is Exit) by {
                assert(rest[i] == instructions[i + 1]);
            }
        }
        if handled(instructions) < instructions.len() {
            assert(rest[handled(rest) - 1] == instructions[handled(instructions) - 1]);
        }
    }
}

} // verus!
