//! The bus that owns the tabs and their panes.

use crate::common::AppInstruction;
use crate::errors::{chain_with, delivered_to, Bus, ContextType, ErrorContext, ScreenContext};
use crate::focus::Side;
use crate::geometry::{Rect, SplitDirection};
use crate::layout::{Layout, Pane, PaneSettings, PlacedPane};
use crate::panes::PaneId;
use crate::pty_bus::{PtyInstruction, VteEvent};
use crate::ledger::{handled, lemma_step, lemma_tab_of, run};
use crate::tab::Tab;
use crate::tiling::{lemma_find, tiles};
use crate::wasm_vm::PluginInstruction;
use vstd::prelude::*;

verus! {

/// What the screen can be asked to do.
#[derive(Clone, Debug, PartialEq, Eq)]
pub enum ScreenInstruction {
    Pty(PaneId, VteEvent),
    Render,
    NewPane(PaneId),
    HorizontalSplit(PaneId),
    VerticalSplit(PaneId),
    WriteCharacter(Vec<u8>),
    ResizeLeft,
    ResizeRight,
    ResizeDown,
    ResizeUp,
    MoveFocus,
    MoveFocusLeft,
    MoveFocusDown,
    MoveFocusUp,
    MoveFocusRight,
    ScrollUp,
    ScrollDown,
    ClearScroll,
    CloseFocusedPane,
    ToggleActiveTerminalFullscreen,
    SetSelectable(PaneId, bool),
    SetInvisibleBorders(PaneId, bool),
    SetMaxHeight(PaneId, usize),
    ClosePane(PaneId),
    ApplyLayout(Layout, Vec<PaneId>),
    NewTab(PaneId),
    SwitchTabNext,
    SwitchTabPrev,
    CloseTab,
    Exit,
}

/// What the screen lets those know who wait for a command to take effect.
#[derive(Clone, Copy, Debug, PartialEq, Eq, Structural)]
pub enum Acknowledgement {
    OpenedPane,
    ClosedPane,
}

/// What is to be done to a pane itself, outside the tiling.
#[derive(Clone, Debug, PartialEq, Eq)]
pub enum PaneCommand {
    /// Feed an event to the terminal state of the pane.
    Event(PaneId, VteEvent),
    /// Write bytes to the pseudo-terminal with this file descriptor.
    Write(u32, Vec<u8>),
    ScrollUp(PaneId),
    ScrollDown(PaneId),
    ClearScroll(PaneId),
}

/// What follows from an instruction besides the change of the tabs.
#[derive(Debug)]
pub struct ScreenOutcome {
    /// What is to be done to a pane.
    pub pane: Option<PaneCommand>,
    /// What is to be sent to the dispatcher of the session.
    pub message: Option<AppInstruction>,
    /// Whom to wake.
    pub acknowledge: Option<Acknowledgement>,
    /// Whether the screen is to be drawn again.
    pub render: bool,
    /// Whether the screen is to stop.
    pub exit: bool,
}

/// The tabs of a session, as the contracts speak of them.
pub struct ScreenState {
    pub tabs: Seq<Tab>,
    pub active: int,
    pub rows: u16,
    pub cols: u16,
}

/// The screen: the tabs in their order, the active one, and the size of the
/// terminal.
pub struct Screen {
    tabs: Vec<Tab>,
    active: usize,
    rows: u16,
    cols: u16,
}

/// Whether an instruction ends with drawing the screen again.
pub open spec fn renders(instruction: ScreenInstruction) -> bool {
    instruction is Render || instruction is CloseFocusedPane || instruction is ClosePane
        || instruction is SetSelectable || instruction is SetInvisibleBorders
}

/// Whom an instruction wakes.
pub open spec fn acknowledged(instruction: ScreenInstruction) -> Option<Acknowledgement> {
    match instruction {
        ScreenInstruction::NewPane(_)
        | ScreenInstruction::HorizontalSplit(_)
        | ScreenInstruction::VerticalSplit(_)
        | ScreenInstruction::NewTab(_)
        | ScreenInstruction::ApplyLayout(_, _) => Some(Acknowledgement::OpenedPane),
        ScreenInstruction::CloseFocusedPane
        | ScreenInstruction::ClosePane(_)
        | ScreenInstruction::CloseTab => Some(Acknowledgement::ClosedPane),
        _ => None,
    }
}

/// The ids of the panes, in order.
pub open spec fn ids_of(panes: Seq<Pane>) -> Seq<PaneId> {
    Seq::new(panes.len(), |i: int| panes[i].id)
}

impl ScreenState {
    /// Every tab is well-formed, no pane is in two tabs, and the active tab
    /// is one of the tabs.
    pub open spec fn wf(self) -> bool {
        &&& forall|i: int| 0 <= i < self.tabs.len() ==> (#[trigger] self.tabs[i]).wf()
        &&& forall|i: int, j: int|
            0 <= i < j < self.tabs.len() ==> (#[trigger] self.tabs[i]).pane_ids().disjoint(
                (#[trigger] self.tabs[j]).pane_ids(),
            )
        &&& if self.tabs.len() == 0 {
            self.active == 0
        } else {
            0 <= self.active < self.tabs.len()
        }
    }

    /// The ids of the panes that are open, in whatever tab.
    pub open spec fn pane_ids(self) -> Set<PaneId> {
        Set::new(
            |id: PaneId|
                exists|i: int|
                    0 <= i < self.tabs.len() && (#[trigger] self.tabs[i]).pane_ids().contains(id),
        )
    }

    /// The cells of the terminal.
    pub open spec fn area(self) -> Rect {
        Rect { x: 0, y: 0, cols: self.cols, rows: self.rows }
    }

    /// The place of the tab that holds the pane `id`.
    pub open spec fn tab_of(self, id: PaneId) -> int {
        choose|i: int| 0 <= i < self.tabs.len() && (#[trigger] self.tabs[i]).pane_ids().contains(id)
    }

    /// The active tab.
    pub open spec fn active_tab(self) -> Tab {
        self.tabs[self.active]
    }

    /// The screen with `tab` in the place `at`.
    pub open spec fn with_tab(self, at: int, tab: Tab) -> ScreenState {
        ScreenState { tabs: self.tabs.update(at, tab), ..self }
    }

    /// The screen with `tab` in the place of the active tab.
    pub open spec fn with_active(self, tab: Tab) -> ScreenState {
        self.with_tab(self.active, tab)
    }

    /// The screen without the tab in the place `at`. The tab before the
    /// active one becomes active if the active one goes.
    pub open spec fn without_tab(self, at: int) -> ScreenState {
        ScreenState {
            tabs: self.tabs.remove(at),
            active: if at <= self.active && self.active > 0 {
                self.active - 1
            } else {
                self.active
            },
            ..self
        }
    }

    /// The screen with `tab` as its last and active tab.
    pub open spec fn with_new_tab(self, tab: Tab) -> ScreenState {
        ScreenState { tabs: self.tabs.push(tab), active: self.tabs.len() as int, ..self }
    }

    /// The screen after the pane `id` has closed, and its tab with it if it
    /// was the last pane there.
    pub open spec fn without_pane(self, id: PaneId) -> ScreenState {
        if !self.pane_ids().contains(id) {
            self
        } else {
            let at = self.tab_of(id);
            match self.tabs[at].without(id) {
                Some(tab) => self.with_tab(at, tab),
                None => self.without_tab(at),
            }
        }
    }

    /// The screen after the new pane `id` has opened by the given change to
    /// the active tab, or in a tab of its own if there is no tab.
    pub open spec fn with_pane(self, id: PaneId, changed: Tab) -> ScreenState {
        if self.pane_ids().contains(id) {
            self
        } else if self.tabs.len() == 0 {
            self.with_new_tab(Tab::opened(id))
        } else {
            self.with_active(changed)
        }
    }

    /// The screen with the settings of the pane `id` replaced.
    pub open spec fn with_settings(self, id: PaneId, settings: PaneSettings) -> ScreenState {
        if !self.pane_ids().contains(id) {
            self
        } else {
            let at = self.tab_of(id);
            self.with_tab(at, self.tabs[at].with_settings(id, settings))
        }
    }

    /// The settings of the pane `id`.
    pub open spec fn settings_of(self, id: PaneId) -> PaneSettings {
        self.tabs[self.tab_of(id)].tree.find(id).unwrap().settings
    }

    /// Whether the panes of a layout can open under `ids`: the layout is
    /// well-formed and `ids` names each of its panes once, none of them open.
    pub open spec fn admits(self, layout: Layout, ids: Seq<PaneId>) -> bool {
        &&& layout.wf()
        &&& ids.len() == layout.leaf_count()
        &&& ids.no_duplicates()
        &&& forall|i: int| 0 <= i < ids.len() ==> !self.pane_ids().contains(#[trigger] ids[i])
    }

    /// The panes that an instruction opens.
    pub open spec fn opened_by(self, instruction: ScreenInstruction) -> Set<PaneId> {
        match instruction {
            ScreenInstruction::NewPane(id)
            | ScreenInstruction::HorizontalSplit(id)
            | ScreenInstruction::VerticalSplit(id)
            | ScreenInstruction::NewTab(id) => set![id],
            ScreenInstruction::ApplyLayout(layout, ids) => if self.admits(layout, ids@) {
                ids@.to_set()
            } else {
                Set::empty()
            },
            _ => Set::empty(),
        }
    }

    /// The panes that an instruction closes.
    pub open spec fn closed_by(self, instruction: ScreenInstruction) -> Set<PaneId> {
        match instruction {
            ScreenInstruction::ClosePane(id) => set![id],
            ScreenInstruction::CloseFocusedPane => if self.tabs.len() == 0 {
                Set::empty()
            } else {
                set![self.active_tab().focus]
            },
            ScreenInstruction::CloseTab => if self.tabs.len() == 0 {
                Set::empty()
            } else {
                self.active_tab().pane_ids()
            },
            _ => Set::empty(),
        }
    }

    /// The screen after a change to the active tab; nothing changes where
    /// there is no tab.
    pub open spec fn on_active(self, changed: Tab) -> ScreenState {
        if self.tabs.len() == 0 {
            self
        } else {
            self.with_active(changed)
        }
    }

    /// The screen after an instruction.
    pub open spec fn step(self, instruction: ScreenInstruction) -> ScreenState {
        let tab = self.active_tab();
        let area = self.area();
        match instruction {
            ScreenInstruction::NewPane(id) => self.with_pane(id, tab.with_new_pane(id, area)),
            ScreenInstruction::HorizontalSplit(id) => self.with_pane(
                id,
                tab.with_split(SplitDirection::Horizontal, id),
            ),
            ScreenInstruction::VerticalSplit(id) => self.with_pane(
                id,
                tab.with_split(SplitDirection::Vertical, id),
            ),
            ScreenInstruction::ResizeLeft => self.on_active(tab.resized(Side::Left, area)),
            ScreenInstruction::ResizeRight => self.on_active(tab.resized(Side::Right, area)),
            ScreenInstruction::ResizeDown => self.on_active(tab.resized(Side::Down, area)),
            ScreenInstruction::ResizeUp => self.on_active(tab.resized(Side::Up, area)),
            ScreenInstruction::MoveFocus => self.on_active(tab.with_next_focus()),
            ScreenInstruction::MoveFocusLeft => self.on_active(
                tab.with_focus_toward(Side::Left, area),
            ),
            ScreenInstruction::MoveFocusDown => self.on_active(
                tab.with_focus_toward(Side::Down, area),
            ),
            ScreenInstruction::MoveFocusUp => self.on_active(tab.with_focus_toward(Side::Up, area)),
            ScreenInstruction::MoveFocusRight => self.on_active(
                tab.with_focus_toward(Side::Right, area),
            ),
            ScreenInstruction::CloseFocusedPane => if self.tabs.len() == 0 {
                self
            } else {
                self.without_pane(tab.focus)
            },
            ScreenInstruction::ToggleActiveTerminalFullscreen => self.on_active(
                Tab { tree: tab.tree, focus: tab.focus, fullscreen: !tab.fullscreen },
            ),
            ScreenInstruction::SetSelectable(id, selectable) => self.with_settings(
                id,
                PaneSettings { selectable, ..self.settings_of(id) },
            ),
            ScreenInstruction::SetInvisibleBorders(id, invisible_borders) => self.with_settings(
                id,
                PaneSettings { invisible_borders, ..self.settings_of(id) },
            ),
            ScreenInstruction::SetMaxHeight(id, max_height) => self.with_settings(
                id,
                PaneSettings { max_height: Some(max_height), ..self.settings_of(id) },
            ),
            ScreenInstruction::ClosePane(id) => self.without_pane(id),
            ScreenInstruction::ApplyLayout(layout, ids) => if self.admits(layout, ids@) {
                self.with_new_tab(Tab::planned(layout, ids@))
            } else {
                self
            },
            ScreenInstruction::NewTab(id) => if self.pane_ids().contains(id) {
                self
            } else {
                self.with_new_tab(Tab::opened(id))
            },
            ScreenInstruction::SwitchTabNext => if self.tabs.len() == 0 {
                self
            } else {
                ScreenState {
                    active: if self.active + 1 < self.tabs.len() {
                        self.active + 1
                    } else {
                        0
                    },
                    ..self
                }
            },
            ScreenInstruction::SwitchTabPrev => if self.tabs.len() == 0 {
                self
            } else {
                ScreenState {
                    active: if self.active > 0 {
                        self.active - 1
                    } else {
                        self.tabs.len() - 1
                    },
                    ..self
                }
            },
            ScreenInstruction::CloseTab => if self.tabs.len() == 0 {
                self
            } else {
                self.without_tab(self.active)
            },
            ScreenInstruction::Pty(_, _)
            | ScreenInstruction::Render
            | ScreenInstruction::WriteCharacter(_)
            | ScreenInstruction::ScrollUp
            | ScreenInstruction::ScrollDown
            | ScreenInstruction::ClearScroll
            | ScreenInstruction::Exit => self,
        }
    }

    /// What an instruction asks of a pane itself: an event goes to the pane
    /// it is for if that pane is open; keys go to the child of the focused
    /// pane; scrolling is the focused pane's.
    pub open spec fn pane_command(self, instruction: ScreenInstruction) -> Option<PaneCommand> {
        match instruction {
            ScreenInstruction::Pty(id, event) => if self.pane_ids().contains(id) {
                Some(PaneCommand::Event(id, event))
            } else {
                None
            },
            ScreenInstruction::WriteCharacter(bytes) => if self.tabs.len() > 0 {
                match self.active_tab().focus {
                    PaneId::Terminal(fd) => Some(PaneCommand::Write(fd, bytes)),
                    PaneId::Plugin(_) => None,
                }
            } else {
                None
            },
            ScreenInstruction::ScrollUp => if self.tabs.len() > 0 {
                Some(PaneCommand::ScrollUp(self.active_tab().focus))
            } else {
                None
            },
            ScreenInstruction::ScrollDown => if self.tabs.len() > 0 {
                Some(PaneCommand::ScrollDown(self.active_tab().focus))
            } else {
                None
            },
            ScreenInstruction::ClearScroll => if self.tabs.len() > 0 {
                Some(PaneCommand::ClearScroll(self.active_tab().focus))
            } else {
                None
            },
            _ => None,
        }
    }

    /// Whether `message` is what an instruction has the screen send to the
    /// dispatcher: keys for a focused plugin that is selectable, the end of
    /// the child or plugin of a pane that the user closes, the end of the
    /// children of a tab that the user closes.
    pub open spec fn sends(self, instruction: ScreenInstruction, message: Option<AppInstruction>) -> bool {
        if self.tabs.len() == 0 {
            message is None
        } else {
            let tab = self.active_tab();
            match instruction {
                ScreenInstruction::WriteCharacter(bytes) => match tab.focus {
                    PaneId::Plugin(plugin) if tab.focused().settings.selectable => message == Some(
                        AppInstruction::ToPlugin(PluginInstruction::Input(plugin, bytes)),
                    ),
                    _ => message is None,
                },
                ScreenInstruction::CloseFocusedPane => match tab.focus {
                    PaneId::Terminal(_) => message == Some(
                        AppInstruction::ToPty(PtyInstruction::ClosePane(tab.focus)),
                    ),
                    PaneId::Plugin(plugin) => message == Some(
                        AppInstruction::ToPlugin(PluginInstruction::Unload(plugin)),
                    ),
                },
                ScreenInstruction::CloseTab => {
                    &&& message matches Some(AppInstruction::ToPty(PtyInstruction::CloseTab(ids)))
                    &&& ids@ == ids_of(tab.tree.leaves())
                },
                _ => message is None,
            }
        }
    }

    /// Whether `outcome` is what follows from an instruction.
    pub open spec fn yields(self, instruction: ScreenInstruction, outcome: ScreenOutcome) -> bool {
        &&& outcome.pane == self.pane_command(instruction)
        &&& self.sends(instruction, outcome.message)
        &&& outcome.acknowledge == acknowledged(instruction)
        &&& outcome.render == renders(instruction)
        &&& outcome.exit == (instruction is Exit)
    }

    /// The panes that are shown, with their cells.
    pub open spec fn visible(self) -> Seq<PlacedPane> {
        if self.tabs.len() == 0 {
            Seq::empty()
        } else {
            self.active_tab().visible(self.area())
        }
    }
}

impl View for Screen {
    type V = ScreenState;

    closed spec fn view(&self) -> ScreenState {
        ScreenState {
            tabs: self.tabs@,
            active: self.active as int,
            rows: self.rows,
            cols: self.cols,
        }
    }
}

/// The ids of `panes`, in order.
pub fn ids_in_order(panes: &Vec<Pane>) -> (r: Vec<PaneId>)
    ensures
        r@ == ids_of(panes@),
{
    let mut ids: Vec<PaneId> = Vec::new();
    let mut i: usize = 0;
    while i < panes.len()
        invariant
            0 <= i <= panes.len(),
            ids@ == ids_of(panes@.take(i as int)),
        decreases panes.len() - i,
    {
        ids.push(panes[i].id);
        i += 1;
        assert(ids@ =~= ids_of(panes@.take(i as int)));
    }
    assert(panes@.take(panes.len() as int) =~= panes@);
    ids
}

/// Whether no id occurs twice in `ids`.
pub fn all_distinct(ids: &Vec<PaneId>) -> (r: bool)
    ensures
        r == ids@.no_duplicates(),
{
    let mut i: usize = 0;
    while i < ids.len()
        invariant
            0 <= i <= ids.len(),
            forall|a: int, b: int| 0 <= a < i && a < b < ids.len() ==> ids[a] != ids[b],
        decreases ids.len() - i,
    {
        let mut j: usize = i + 1;
        while j < ids.len()
            invariant
                i < j <= ids.len(),
                forall|b: int| i < b < j ==> ids[i as int] != ids[b],
            decreases ids.len() - j,
        {
            if ids[i] == ids[j] {
                return false;
            }
            j += 1;
        }
        i += 1;
    }
    assert forall|a: int, b: int| 0 <= a < ids.len() && 0 <= b < ids.len() && a != b implies ids[a]
        != ids[b] by {
        if a < b {
        } else {
            assert(ids[b] != ids[a]);
        }
    }
    true
}

impl Screen {
    /// What holds of a screen between any two instructions.
    pub open spec fn wf(&self) -> bool {
        self@.wf()
    }

    /// A screen of the given size without a tab.
    pub fn new(rows: u16, cols: u16) -> (r: Screen)
        ensures
            r@ == (ScreenState { tabs: Seq::empty(), active: 0, rows, cols }),
            r.wf(),
    {
        let r = Screen { tabs: Vec::new(), active: 0, rows, cols };
        assert(r@.tabs =~= Seq::empty());
        r
    }

    /// Takes note of a new size of the terminal.
    pub fn set_size(&mut self, rows: u16, cols: u16)
        requires
            old(self).wf(),
        ensures
            final(self)@ == (ScreenState { rows, cols, ..old(self)@ }),
            final(self).wf(),
    {
        self.rows = rows;
        self.cols = cols;
    }

    /// The cells of the terminal.
    pub fn area(&self) -> (r: Rect)
        ensures
            r == self@.area(),
            r.fits(),
    {
        Rect::screen(self.rows, self.cols)
    }

    /// How many tabs there are.
    pub fn tab_count(&self) -> (r: usize)
        ensures
            r == self@.tabs.len(),
    {
        self.tabs.len()
    }

    /// The place of the active tab.
    pub fn active_index(&self) -> (r: usize)
        ensures
            r == self@.active,
    {
        self.active
    }

    /// The active tab, if there is a tab.
    pub fn get_active_tab(&self) -> (r: Option<&Tab>)
        requires
            self.wf(),
        ensures
            self@.tabs.len() == 0 ==> r is None,
            self@.tabs.len() > 0 ==> r == Some(&self@.active_tab()),
    {
        if self.tabs.len() == 0 {
            None
        } else {
            Some(&self.tabs[self.active])
        }
    }

    /// Finds the tab that holds the pane `id`.
    pub fn find_tab(&self, id: PaneId) -> (r: Option<usize>)
        requires
            self.wf(),
        ensures
            r is Some <==> self@.pane_ids().contains(id),
            r matches Some(at) ==> at == self@.tab_of(id) && at < self@.tabs.len()
                && self@.tabs[at as int].pane_ids().contains(id),
    {
        let mut i: usize = 0;
        while i < self.tabs.len()
            invariant
                0 <= i <= self.tabs.len(),
                self.wf(),
                forall|k: int| 0 <= k < i ==> !(#[trigger] self.tabs@[k]).pane_ids().contains(id),
            decreases self.tabs.len() - i,
        {
            if self.tabs[i].tree.contains(id) {
                proof {
                    lemma_tab_of(self@, i as int, id);
                }
                return Some(i);
            }
            i += 1;
        }
        None
    }

    /// Whether the pane `id` is open.
    pub fn is_open(&self, id: PaneId) -> (r: bool)
        requires
            self.wf(),
        ensures
            r == self@.pane_ids().contains(id),
    {
        self.find_tab(id).is_some()
    }

    /// The panes that are shown, with their cells.
    pub fn visible_panes(&self) -> (r: Vec<PlacedPane>)
        requires
            self.wf(),
        ensures
            r@ == self@.visible(),
            self@.tabs.len() > 0 ==> tiles(r@, self@.area()),
    {
        if self.tabs.len() == 0 {
            Vec::new()
        } else {
            self.tabs[self.active].visible_panes(self.area())
        }
    }

    /// Whether the panes of `layout` can open under `ids`.
    pub fn can_apply(&self, layout: &Layout, ids: &Vec<PaneId>) -> (r: bool)
        requires
            self.wf(),
        ensures
            r == self@.admits(*layout, ids@),
    {
        if !layout.is_valid() {
            return false;
        }
        match layout.count_within(ids.len()) {
            None => {
                return false;
            },
            Some(count) => {
                if count != ids.len() {
                    return false;
                }
            },
        }
        if !all_distinct(ids) {
            return false;
        }
        let mut i: usize = 0;
        while i < ids.len()
            invariant
                0 <= i <= ids.len(),
                self.wf(),
                forall|k: int| 0 <= k < i ==> !self@.pane_ids().contains(#[trigger] ids@[k]),
            decreases ids.len() - i,
        {
            if self.is_open(ids[i]) {
                return false;
            }
            i += 1;
        }
        true
    }

    /// Takes the tab at `at` away.
    fn remove_tab(&mut self, at: usize) -> (tab: Tab)
        requires
            at < old(self)@.tabs.len(),
            old(self)@.active < old(self)@.tabs.len(),
        ensures
            final(self)@ == old(self)@.without_tab(at as int),
            tab == old(self)@.tabs[at as int],
    {
        let tab = self.tabs.remove(at);
        if at <= self.active && self.active > 0 {
            self.active = self.active - 1;
        }
        tab
    }

    /// Adds `tab` as the last tab and makes it the active one.
    fn add_tab(&mut self, tab: Tab)
        ensures
            final(self)@ == old(self)@.with_new_tab(tab),
    {
        self.active = self.tabs.len();
        self.tabs.push(tab);
    }

    /// Opens the pane `id`: in the active tab, divided in the given
    /// direction or, where none is given, at its largest pane; in a tab of
    /// its own where there is no tab.
    fn open_pane(&mut self, id: PaneId, direction: Option<SplitDirection>)
        requires
            old(self).wf(),
        ensures
            final(self)@ == old(self)@.with_pane(
                id,
                match direction {
                    Some(d) => old(self)@.active_tab().with_split(d, id),
                    None => old(self)@.active_tab().with_new_pane(id, old(self)@.area()),
                },
            ),
    {
        if self.is_open(id) {
            return ;
        }
        if self.tabs.len() == 0 {
            self.add_tab(Tab::new(id));
            return ;
        }
        let at = self.active;
        let area = self.area();
        let mut tab = self.tabs.remove(at);
        match direction {
            Some(d) => tab.split(d, id),
            None => tab.new_pane(id, area),
        }
        self.tabs.insert(at, tab);
        assert(self.tabs@ =~= old(self).tabs@.update(at as int, tab));
    }

    /// Closes the pane `id`, and its tab with it if it was the last there.
    fn close_pane(&mut self, id: PaneId)
        requires
            old(self).wf(),
        ensures
            final(self)@ == old(self)@.without_pane(id),
    {
        match self.find_tab(id) {
            None => {},
            Some(at) => {
                let ghost before = self@;
                let tab = self.tabs.remove(at);
                match tab.close_pane(id) {
                    Some(rest) => {
                        self.tabs.insert(at, rest);
                        assert(self.tabs@ =~= before.tabs.update(at as int, rest));
                    },
                    None => {
                        if at <= self.active && self.active > 0 {
                            self.active = self.active - 1;
                        }
                    },
                }
            },
        }
    }

    /// Changes the active tab by a resize or a move of the focus.
    fn change_active(&mut self, change: TabChange)
        requires
            old(self).wf(),
        ensures
            final(self)@ == old(self)@.on_active(
                change.applied(old(self)@.active_tab(), old(self)@.area()),
            ),
    {
        if self.tabs.len() == 0 {
            return ;
        }
        let at = self.active;
        let area = self.area();
        let mut tab = self.tabs.remove(at);
        match change {
            TabChange::Resize(side) => tab.resize(side, area),
            TabChange::NextFocus => tab.move_focus(),
            TabChange::FocusToward(side) => tab.move_focus_toward(side, area),
            TabChange::ToggleFullscreen => tab.toggle_active_pane_fullscreen(),
        }
        self.tabs.insert(at, tab);
        assert(self.tabs@ =~= old(self).tabs@.update(at as int, tab));
    }

    /// Changes one setting of the pane `id`.
    fn change_setting(&mut self, id: PaneId, setting: Setting)
        requires
            old(self).wf(),
        ensures
            final(self)@ == old(self)@.with_settings(
                id,
                setting.applied(old(self)@.settings_of(id)),
            ),
    {
        match self.find_tab(id) {
            None => {},
            Some(at) => {
                let mut tab = self.tabs.remove(at);
                proof {
                    lemma_find(tab.tree, id);
                }
                match setting {
                    Setting::Selectable(selectable) => tab.set_pane_selectable(id, selectable),
                    Setting::MaxHeight(rows) => tab.set_pane_max_height(id, rows),
                    Setting::InvisibleBorders(invisible) => tab.set_pane_invisible_borders(
                        id,
                        invisible,
                    ),
                }
                self.tabs.insert(at, tab);
                assert(self.tabs@ =~= old(self).tabs@.update(at as int, tab));
            },
        }
    }

    /// What the keys in `bytes` become: bytes for the child of a focused
    /// terminal, input for a focused plugin that is selectable.
    fn route_keys(&self, bytes: Vec<u8>) -> (outcome: ScreenOutcome)
        requires
            self.wf(),
        ensures
            self@.yields(ScreenInstruction::WriteCharacter(bytes), outcome),
    {
        let mut outcome = ScreenOutcome {
            pane: None,
            message: None,
            acknowledge: None,
            render: false,
            exit: false,
        };
        if self.tabs.len() > 0 {
            let tab = &self.tabs[self.active];
            match tab.focus {
                PaneId::Terminal(fd) => {
                    outcome.pane = Some(PaneCommand::Write(fd, bytes));
                },
                PaneId::Plugin(plugin) => {
                    if tab.focused_pane().settings.selectable {
                        outcome.message = Some(
                            AppInstruction::ToPlugin(PluginInstruction::Input(plugin, bytes)),
                        );
                    }
                },
            }
        }
        outcome
    }

    /// Takes an instruction: changes the tabs as it asks and says what else
    /// is to be done.
    pub fn handle(&mut self, instruction: ScreenInstruction) -> (outcome: ScreenOutcome)
        requires
            old(self).wf(),
        ensures
            final(self)@ == old(self)@.step(instruction),
            old(self)@.yields(instruction, outcome),
            final(self).wf(),
            final(self)@.pane_ids() == old(self)@.pane_ids().union(
                old(self)@.opened_by(instruction),
            ).difference(old(self)@.closed_by(instruction)),
    {
        proof {
            lemma_step(self@, instruction);
        }
        let mut outcome = ScreenOutcome {
            pane: None,
            message: None,
            acknowledge: None,
            render: false,
            exit: false,
        };
        match instruction {
            ScreenInstruction::Pty(id, event) => {
                if self.is_open(id) {
                    outcome.pane = Some(PaneCommand::Event(id, event));
                }
            },
            ScreenInstruction::Render => {
                outcome.render = true;
            },
            ScreenInstruction::NewPane(id) => {
                self.open_pane(id, None);
                outcome.acknowledge = Some(Acknowledgement::OpenedPane);
            },
            ScreenInstruction::HorizontalSplit(id) => {
                self.open_pane(id, Some(SplitDirection::Horizontal));
                outcome.acknowledge = Some(Acknowledgement::OpenedPane);
            },
            ScreenInstruction::VerticalSplit(id) => {
                self.open_pane(id, Some(SplitDirection::Vertical));
                outcome.acknowledge = Some(Acknowledgement::OpenedPane);
            },
            ScreenInstruction::WriteCharacter(bytes) => {
                return self.route_keys(bytes);
            },
            ScreenInstruction::ResizeLeft => self.change_active(TabChange::Resize(Side::Left)),
            ScreenInstruction::ResizeRight => self.change_active(TabChange::Resize(Side::Right)),
            ScreenInstruction::ResizeDown => self.change_active(TabChange::Resize(Side::Down)),
            ScreenInstruction::ResizeUp => self.change_active(TabChange::Resize(Side::Up)),
            ScreenInstruction::MoveFocus => self.change_active(TabChange::NextFocus),
            ScreenInstruction::MoveFocusLeft => self.change_active(
                TabChange::FocusToward(Side::Left),
            ),
            ScreenInstruction::MoveFocusDown => self.change_active(
                TabChange::FocusToward(Side::Down),
            ),
            ScreenInstruction::MoveFocusUp => self.change_active(TabChange::FocusToward(Side::Up)),
            ScreenInstruction::MoveFocusRight => self.change_active(
                TabChange::FocusToward(Side::Right),
            ),
            ScreenInstruction::ScrollUp => {
                if self.tabs.len() > 0 {
                    outcome.pane = Some(PaneCommand::ScrollUp(self.tabs[self.active].focus));
                }
            },
            ScreenInstruction::ScrollDown => {
                if self.tabs.len() > 0 {
                    outcome.pane = Some(PaneCommand::ScrollDown(self.tabs[self.active].focus));
                }
            },
            ScreenInstruction::ClearScroll => {
                if self.tabs.len() > 0 {
                    outcome.pane = Some(PaneCommand::ClearScroll(self.tabs[self.active].focus));
                }
            },
            ScreenInstruction::CloseFocusedPane => {
                if self.tabs.len() > 0 {
                    let focus = self.tabs[self.active].focus;
                    outcome.message = Some(
                        match focus {
                            PaneId::Terminal(_) => AppInstruction::ToPty(
                                PtyInstruction::ClosePane(focus),
                            ),
                            PaneId::Plugin(plugin) => AppInstruction::ToPlugin(
                                PluginInstruction::Unload(plugin),
                            ),
                        },
                    );
                    self.close_pane(focus);
                }
                outcome.acknowledge = Some(Acknowledgement::ClosedPane);
                outcome.render = true;
            },
            ScreenInstruction::ToggleActiveTerminalFullscreen => self.change_active(
                TabChange::ToggleFullscreen,
            ),
            ScreenInstruction::SetSelectable(id, selectable) => {
                self.change_setting(id, Setting::Selectable(selectable));
                outcome.render = true;
            },
            ScreenInstruction::SetInvisibleBorders(id, invisible) => {
                self.change_setting(id, Setting::InvisibleBorders(invisible));
                outcome.render = true;
            },
            ScreenInstruction::SetMaxHeight(id, rows) => {
                self.change_setting(id, Setting::MaxHeight(rows));
            },
            ScreenInstruction::ClosePane(id) => {
                self.close_pane(id);
                outcome.acknowledge = Some(Acknowledgement::ClosedPane);
                outcome.render = true;
            },
            ScreenInstruction::ApplyLayout(layout, ids) => {
                if self.can_apply(&layout, &ids) {
                    self.add_tab(Tab::from_layout(&layout, &ids));
                }
                outcome.acknowledge = Some(Acknowledgement::OpenedPane);
            },
            ScreenInstruction::NewTab(id) => {
                if !self.is_open(id) {
                    self.add_tab(Tab::new(id));
                }
                outcome.acknowledge = Some(Acknowledgement::OpenedPane);
            },
            ScreenInstruction::SwitchTabNext => {
                if self.tabs.len() > 0 {
                    self.active = if self.active + 1 < self.tabs.len() {
                        self.active + 1
                    } else {
                        0
                    };
                }
            },
            ScreenInstruction::SwitchTabPrev => {
                if self.tabs.len() > 0 {
                    self.active = if self.active > 0 {
                        self.active - 1
                    } else {
                        self.tabs.len() - 1
                    };
                }
            },
            ScreenInstruction::CloseTab => {
                if self.tabs.len() > 0 {
                    let at = self.active;
                    let tab = self.remove_tab(at);
                    let panes = tab.tree.panes();
                    outcome.message = Some(
                        AppInstruction::ToPty(PtyInstruction::CloseTab(ids_in_order(&panes))),
                    );
                }
                outcome.acknowledge = Some(Acknowledgement::ClosedPane);
            },
            ScreenInstruction::Exit => {
                outcome.exit = true;
            },
        }
        outcome
    }

    /// Takes the instructions that have arrived since the screen was last
    /// drawn, in order, up to the first that bids the screen stop. Says what
    /// follows from each, and whether the screen is to be drawn: once, if any
    /// of them asks for it.
    pub fn handle_all(&mut self, instructions: Vec<ScreenInstruction>) -> (batch: BatchOutcome)
        requires
            old(self).wf(),
        ensures
            final(self)@ == run(old(self)@, instructions@),
            final(self).wf(),
            batch.outcomes@.len() == handled(instructions@),
            forall|i: int|
                0 <= i < batch.outcomes@.len() ==> run(old(self)@, instructions@.take(i)).yields(
                    instructions@[i],
                    #[trigger] batch.outcomes@[i],
                ),
            batch.render == exists|i: int|
                0 <= i < handled(instructions@) && renders(#[trigger] instructions@[i]),
            batch.exit == exists|i: int|
                0 <= i < handled(instructions@) && #[trigger] instructions@[i] is Exit,
    {
        let mut rest = instructions;
        let mut outcomes: Vec<ScreenOutcome> = Vec::new();
        let mut render = false;
        let mut exit = false;
        let ghost all = instructions@;
        let ghost start = self@;
        proof {
            assert(all.take(0) =~= Seq::<ScreenInstruction>::empty());
            assert(all.skip(0) =~= all);
        }
        while rest.len() > 0 && !exit
            invariant
                self.wf(),
                outcomes@.len() <= all.len(),
                rest@ == all.skip(outcomes@.len() as int),
                !exit ==> self@ == run(start, all.take(outcomes@.len() as int)),
                !exit ==> run(self@, rest@) == run(start, all),
                !exit ==> handled(all) == outcomes@.len() + handled(rest@),
                !exit ==> forall|i: int|
                    0 <= i < outcomes@.len() ==> !(#[trigger] all[i] is Exit),
                exit ==> self@ == run(start, all) && handled(all) == outcomes@.len()
                    && outcomes@.len() > 0 && all[outcomes@.len() - 1] is Exit,
                forall|i: int|
                    0 <= i < outcomes@.len() ==> run(start, all.take(i)).yields(
                        all[i],
                        #[trigger] outcomes@[i],
                    ),
                render == exists|i: int| 0 <= i < outcomes@.len() && renders(#[trigger] all[i]),
            decreases rest.len(),
        {
            let ghost done = outcomes@.len() as int;
            let ghost before = self@;
            let ghost waiting = rest@;
            let instruction = rest.remove(0);
            proof {
                assert(instruction == all[done]);
                assert(rest@ =~= all.skip(done + 1));
                assert(waiting.drop_first() =~= rest@);
                assert(all.take(done + 1).drop_last() =~= all.take(done));
                lemma_run_push(start, all.take(done), instruction);
                assert(all.take(done).push(instruction) =~= all.take(done + 1));
                lemma_step(before, instruction);
            }
            let outcome = self.handle(instruction);
            if outcome.render {
                render = true;
            }
            if outcome.exit {
                exit = true;
            }
            outcomes.push(outcome);
            proof {
                if exit {
                    assert(self@ == before);
                }
                assert forall|i: int| 0 <= i < outcomes@.len() implies run(
                    start,
                    all.take(i),
                ).yields(all[i], #[trigger] outcomes@[i]) by {
                    if i == done {
                    }
                }
            }
        }
        proof {
            if !exit {
                assert(rest@.len() == 0);
                assert(all.take(all.len() as int) =~= all);
            }
            assert(exit == exists|i: int| 0 <= i < handled(all) && #[trigger] all[i] is Exit) by {
                if exit {
                    assert(all[outcomes@.len() - 1] is Exit);
                }
            }
        }
        BatchOutcome { outcomes, render, exit }
    }

    /// Takes the instructions that have arrived since the screen was last
    /// drawn, each with its chain, and does with them as `handle_all` does.
    /// Gives with what follows the chain of each, with its arrival recorded:
    /// whatever is sent on for an instruction is to carry the chain of that
    /// instruction.
    pub fn deliver_all(&mut self, arrived: Vec<(ScreenInstruction, ErrorContext)>) -> (r: (
        BatchOutcome,
        Vec<ErrorContext>,
    ))
        requires
            old(self).wf(),
        ensures
            final(self)@ == run(old(self)@, instructions_of(arrived@)),
            final(self).wf(),
            r.0.outcomes@.len() == handled(instructions_of(arrived@)),
            forall|i: int|
                0 <= i < r.0.outcomes@.len() ==> run(
                    old(self)@,
                    instructions_of(arrived@).take(i),
                ).yields(arrived@[i].0, #[trigger] r.0.outcomes@[i]),
            r.0.render == exists|i: int|
                0 <= i < handled(instructions_of(arrived@)) && renders(
                    #[trigger] instructions_of(arrived@)[i],
                ),
            r.0.exit == exists|i: int|
                0 <= i < handled(instructions_of(arrived@)) && #[trigger] instructions_of(
                    arrived@,
                )[i] is Exit,
            r.1@.len() == arrived@.len(),
            forall|i: int|
                0 <= i < arrived@.len() ==> (#[trigger] r.1@[i])@ == chain_with(
                    arrived@[i].1@,
                    ContextType::Screen(ScreenContext::kind(arrived@[i].0)),
                ) && delivered_to(arrived@[i].1@, r.1@[i]@, Bus::Screen),
    {
        let mut rest = arrived;
        let mut instructions: Vec<ScreenInstruction> = Vec::new();
        let mut chains: Vec<ErrorContext> = Vec::new();
        let ghost all = arrived@;
        proof {
            assert(all.skip(0) =~= all);
        }
        while rest.len() > 0
            invariant
                *self == *old(self),
                instructions@.len() == chains@.len(),
                instructions@.len() <= all.len(),
                rest@ == all.skip(instructions@.len() as int),
                instructions@ == instructions_of(all.take(instructions@.len() as int)),
                forall|i: int|
                    0 <= i < chains@.len() ==> (#[trigger] chains@[i])@ == chain_with(
                        all[i].1@,
                        ContextType::Screen(ScreenContext::kind(all[i].0)),
                    ) && delivered_to(all[i].1@, chains@[i]@, Bus::Screen),
            decreases rest.len(),
        {
            let ghost done = instructions@.len() as int;
            let (instruction, mut chain) = rest.remove(0);
            chain.add_call(ContextType::Screen(ScreenContext::of(&instruction)));
            instructions.push(instruction);
            chains.push(chain);
            proof {
                assert(rest@ =~= all.skip(done + 1));
                assert(instructions@ =~= instructions_of(all.take(done + 1)));
            }
        }
        proof {
            assert(all.take(all.len() as int) =~= all);
        }
        let batch = self.handle_all(instructions);
        proof {
            crate::ledger::lemma_handled(instructions_of(all));
            assert forall|i: int| 0 <= i < batch.outcomes@.len() implies run(
                old(self)@,
                instructions_of(all).take(i),
            ).yields(all[i].0, #[trigger] batch.outcomes@[i]) by {
                assert(instructions_of(all)[i] == all[i].0);
            }
        }
        (batch, chains)
    }

    /// Takes an instruction that has arrived with the chain `err_ctx`:
    /// records the arrival in the chain, which whatever is sent on is to
    /// carry, and does as `handle` does.
    pub fn deliver(&mut self, instruction: ScreenInstruction, err_ctx: &mut ErrorContext) -> (outcome:
        ScreenOutcome)
        requires
            old(self).wf(),
        ensures
            final(self)@ == old(self)@.step(instruction),
            old(self)@.yields(instruction, outcome),
            final(self).wf(),
            final(err_ctx)@ == chain_with(
                old(err_ctx)@,
                ContextType::Screen(ScreenContext::kind(instruction)),
            ),
            delivered_to(old(err_ctx)@, final(err_ctx)@, Bus::Screen),
    {
        err_ctx.add_call(ContextType::Screen(ScreenContext::of(&instruction)));
        self.handle(instruction)
    }
}

/// The instructions of those that arrived, in order.
pub open spec fn instructions_of(arrived: Seq<(ScreenInstruction, ErrorContext)>) -> Seq<
    ScreenInstruction,
> {
    Seq::new(arrived.len(), |i: int| arrived[i].0)
}

/// Handling one more instruction after a series none of which bids the
/// screen stop is a step from where the series has led.
pub proof fn lemma_run_push(
    screen: ScreenState,
    instructions: Seq<ScreenInstruction>,
    next: ScreenInstruction,
)
    requires
        forall|i: int| 0 <= i < instructions.len() ==> !(#[trigger] instructions[i] is Exit),
    ensures
        run(screen, instructions.push(next)) == if next is Exit {
            run(screen, instructions)
        } else {
            run(screen, instructions).step(next)
        },
    decreases instructions.len(),
{
    let longer = instructions.push(next);
    if instructions.len() == 0 {
        assert(longer.drop_first() =~= Seq::<ScreenInstruction>::empty());
        assert(longer[0] == next);
        assert(run(screen.step(next), longer.drop_first()) == screen.step(next));
        assert(run(screen, instructions) == screen);
    } else {
        assert(longer[0] == instructions[0]);
        assert(!(instructions[0] is Exit));
        assert(longer.drop_first() =~= instructions.drop_first().push(next));
        assert forall|i: int| 0 <= i < instructions.drop_first().len() implies !(
        #[trigger] instructions.drop_first()[i] is Exit) by {
            assert(instructions.drop_first()[i] == instructions[i + 1]);
        }
        lemma_run_push(screen.step(instructions[0]), instructions.drop_first(), next);
    }
}

/// What follows from the instructions that were handled together.
#[derive(Debug)]
pub struct BatchOutcome {
    /// What follows from each instruction that was handled, in order.
    pub outcomes: Vec<ScreenOutcome>,
    /// Whether the screen is to be drawn again.
    pub render: bool,
    /// Whether the screen is to stop.
    pub exit: bool,
}

/// A change to a tab that opens and closes nothing.
pub enum TabChange {
    Resize(Side),
    NextFocus,
    FocusToward(Side),
    ToggleFullscreen,
}

impl TabChange {
    /// The tab after the change.
    pub open spec fn applied(self, tab: Tab, area: Rect) -> Tab {
        match self {
            TabChange::Resize(side) => tab.resized(side, area),
            TabChange::NextFocus => tab.with_next_focus(),
            TabChange::FocusToward(side) => tab.with_focus_toward(side, area),
            TabChange::ToggleFullscreen => Tab {
                tree: tab.tree,
                focus: tab.focus,
                fullscreen: !tab.fullscreen,
            },
        }
    }
}

/// One setting of a pane, with its new value.
pub enum Setting {
    Selectable(bool),
    MaxHeight(usize),
    InvisibleBorders(bool),
}

impl Setting {
    /// The settings after the change.
    pub open spec fn applied(self, settings: PaneSettings) -> PaneSettings {
        match self {
            Setting::Selectable(selectable) => PaneSettings { selectable, ..settings },
            Setting::MaxHeight(rows) => PaneSettings { max_height: Some(rows), ..settings },
            Setting::InvisibleBorders(invisible_borders) => PaneSettings {
                invisible_borders,
                ..settings
            },
        }
    }
}

} // verus!
