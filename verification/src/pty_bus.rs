//! The bus that owns the child processes.
//!
//! The bus decides here which children an instruction starts and ends and
//! what the screen is told of them; starting and ending a child is the
//! business of the caller.

use crate::common::ServerInstruction;
use crate::errors::{chain_with, delivered_to, Bus, ContextType, ErrorContext, PtyContext};
use crate::layout::Layout;
use crate::panes::PaneId;
use crate::screen::{Acknowledgement, ScreenInstruction};
use vstd::prelude::*;

verus! {

/// What the parser of a terminal's output has recognised.
#[derive(Clone, Debug, PartialEq, Eq)]
pub enum VteEvent {
    Print(char),
    Execute(u8),
    Hook(Vec<i64>, Vec<u8>, bool, char),
    Put(u8),
    Unhook,
    OscDispatch(Vec<Vec<u8>>, bool),
    CsiDispatch(Vec<i64>, Vec<u8>, bool, char),
    EscDispatch(Vec<u8>, bool, u8),
}

/// What the PTY bus can be asked to do.
#[derive(Clone, Debug, PartialEq, Eq)]
pub enum PtyInstruction {
    /// Start a child in a new pane: the shell, or a pager on the given file.
    SpawnTerminal(Option<String>),
    /// The same, in a pane to the right of the focused one.
    SpawnTerminalVertically(Option<String>),
    /// The same, in a pane below the focused one.
    SpawnTerminalHorizontally(Option<String>),
    /// Start the children of a new tab.
    NewTab,
    /// End the child of a pane.
    ClosePane(PaneId),
    /// End the children of the panes of a tab.
    CloseTab(Vec<PaneId>),
    /// End every child and stop.
    Exit,
}

/// What a new child runs.
#[derive(Clone, Debug, PartialEq, Eq)]
pub enum Program {
    /// The shell of the user.
    Shell,
    /// A pager on this file.
    Pager(String),
}

/// What a new child runs when it is started for `file`: a pager on the
/// file if one is given and can be read, else the shell.
pub fn program_for(file: Option<String>, readable: bool) -> (r: Program)
    ensures
        r == (match file {
            Some(path) if readable => Program::Pager(path),
            _ => Program::Shell,
        }),
{
    match file {
        Some(path) => {
            if readable {
                Program::Pager(path)
            } else {
                Program::Shell
            }
        },
        None => Program::Shell,
    }
}

/// Where the pane of a new child opens.
#[derive(Clone, Copy, Debug, PartialEq, Eq, Structural)]
pub enum Placement {
    /// In one half of the largest pane.
    NewPane,
    /// To the right of the focused pane.
    Vertical,
    /// Below the focused pane.
    Horizontal,
    /// In a tab of its own.
    NewTab,
}

/// What the caller is to do for the PTY bus.
#[derive(Debug, PartialEq, Eq)]
pub enum PtyAction {
    /// Start a child, the shell or a pager on the file, and tell the bus
    /// the file descriptor of its terminal with `spawned`.
    Spawn { file: Option<String>, placement: Placement },
    /// Start so many children, and tell the bus the file descriptors of
    /// their terminals with `spawned_for_layout`.
    SpawnForLayout { count: usize },
    /// End the children with these file descriptors, and wake who waits for
    /// a pane to close.
    Close { fds: Vec<u32> },
    /// End the children with these file descriptors, and stop.
    Exit { fds: Vec<u32> },
}

/// The PTY bus, as the contracts speak of it.
pub struct PtyBusState {
    /// The file descriptors of the terminals of the living children, in the
    /// order in which they were started.
    pub children: Seq<u32>,
    /// The plan of a new tab, if one was asked for.
    pub layout: Option<Layout>,
}

/// The PTY bus.
pub struct PtyBus {
    children: Vec<u32>,
    layout: Option<Layout>,
}

/// Whether the pane of the child `fd` is among `ids`.
pub open spec fn names_child(ids: Seq<PaneId>, fd: u32) -> bool {
    ids.contains(PaneId::Terminal(fd))
}

/// The instruction that opens the pane of a new child on the screen.
pub open spec fn opening(fd: u32, placement: Placement) -> ScreenInstruction {
    let id = PaneId::Terminal(fd);
    match placement {
        Placement::NewPane => ScreenInstruction::NewPane(id),
        Placement::Vertical => ScreenInstruction::VerticalSplit(id),
        Placement::Horizontal => ScreenInstruction::HorizontalSplit(id),
        Placement::NewTab => ScreenInstruction::NewTab(id),
    }
}

/// The panes of the children `fds`, in order.
pub open spec fn panes_of(fds: Seq<u32>) -> Seq<PaneId> {
    Seq::new(fds.len(), |i: int| PaneId::Terminal(fds[i]))
}

/// A plan as the bus keeps it: none unless the plan is well-formed and the
/// number of its panes can be counted.
pub open spec fn usable(layout: Option<Layout>) -> Option<Layout> {
    match layout {
        Some(plan) if plan.wf() && plan.leaf_count() <= usize::MAX => layout,
        _ => None,
    }
}

impl PtyBusState {
    /// No child is counted twice, and the plan of a new tab is one that the
    /// bus can use.
    pub open spec fn wf(self) -> bool {
        &&& self.children.no_duplicates()
        &&& usable(self.layout) == self.layout
    }

    /// The children that an instruction ends, in the order in which they
    /// were started.
    pub open spec fn ended_by(self, instruction: PtyInstruction) -> Seq<u32> {
        match instruction {
            PtyInstruction::ClosePane(id) => self.children.filter(
                |fd: u32| names_child(seq![id], fd),
            ),
            PtyInstruction::CloseTab(ids) => self.children.filter(
                |fd: u32| names_child(ids@, fd),
            ),
            PtyInstruction::Exit => self.children,
            _ => Seq::empty(),
        }
    }

    /// The bus after an instruction: the children that it ends are gone.
    pub open spec fn step(self, instruction: PtyInstruction) -> PtyBusState {
        match instruction {
            PtyInstruction::ClosePane(id) => PtyBusState {
                children: self.children.filter(|fd: u32| !names_child(seq![id], fd)),
                ..self
            },
            PtyInstruction::CloseTab(ids) => PtyBusState {
                children: self.children.filter(|fd: u32| !names_child(ids@, fd)),
                ..self
            },
            PtyInstruction::Exit => PtyBusState { children: Seq::empty(), ..self },
            _ => self,
        }
    }

    /// Whether `action` is what the caller is to do for an instruction.
    pub open spec fn asks(self, instruction: PtyInstruction, action: PtyAction) -> bool {
        match instruction {
            PtyInstruction::SpawnTerminal(file) => action == (PtyAction::Spawn {
                file,
                placement: Placement::NewPane,
            }),
            PtyInstruction::SpawnTerminalVertically(file) => action == (PtyAction::Spawn {
                file,
                placement: Placement::Vertical,
            }),
            PtyInstruction::SpawnTerminalHorizontally(file) => action == (PtyAction::Spawn {
                file,
                placement: Placement::Horizontal,
            }),
            PtyInstruction::NewTab => match self.layout {
                Some(plan) => action == (PtyAction::SpawnForLayout {
                    count: plan.leaf_count() as usize,
                }),
                None => action == (PtyAction::Spawn { file: None, placement: Placement::NewTab }),
            },
            PtyInstruction::ClosePane(_) | PtyInstruction::CloseTab(_) => {
                &&& action matches PtyAction::Close { fds }
                &&& fds@ == self.ended_by(instruction)
            },
            PtyInstruction::Exit => {
                &&& action matches PtyAction::Exit { fds }
                &&& fds@ == self.children
            },
        }
    }

    /// The bus after a new child with the terminal `fd` has been noted: the
    /// child is the last of the living ones, unless a living child has the
    /// terminal already.
    pub open spec fn with_child(self, fd: u32) -> PtyBusState {
        if self.children.contains(fd) {
            self
        } else {
            PtyBusState { children: self.children.push(fd), ..self }
        }
    }

    /// What the screen is to be told of a new child with the terminal `fd`:
    /// to open its pane where `placement` says; nothing of a terminal that a
    /// living child has.
    pub open spec fn tells(self, fd: u32, placement: Placement) -> Option<ServerInstruction> {
        if self.children.contains(fd) {
            None
        } else {
            Some(ServerInstruction::ToScreen(opening(fd, placement)))
        }
    }

    /// Whether new children with the terminals `fds` fit the plan of a new
    /// tab: there is a plan, one terminal for each of its panes, each named
    /// once, and none that a living child has.
    pub open spec fn fits_layout(self, fds: Seq<u32>) -> bool {
        &&& self.layout matches Some(plan)
        &&& fds.len() == plan.leaf_count()
        &&& fds.no_duplicates()
        &&& forall|i: int| 0 <= i < fds.len() ==> !self.children.contains(#[trigger] fds[i])
    }
}

impl View for PtyBus {
    type V = PtyBusState;

    closed spec fn view(&self) -> PtyBusState {
        PtyBusState { children: self.children@, layout: self.layout }
    }
}

impl PtyAction {
    /// Whom the caller is to wake after the action.
    pub fn acknowledges(&self) -> (r: Option<Acknowledgement>)
        ensures
            r == (if *self is Close {
                Some(Acknowledgement::ClosedPane)
            } else {
                None
            }),
    {
        match self {
            PtyAction::Close { .. } => Some(Acknowledgement::ClosedPane),
            _ => None,
        }
    }
}

/// Whether `fd` is among `fds`.
fn has_child(fds: &Vec<u32>, fd: u32) -> (r: bool)
    ensures
        r == fds@.contains(fd),
{
    let mut i: usize = 0;
    while i < fds.len()
        invariant
            0 <= i <= fds.len(),
            forall|k: int| 0 <= k < i ==> fds@[k] != fd,
        decreases fds.len() - i,
    {
        if fds[i] == fd {
            return true;
        }
        i += 1;
    }
    false
}

/// Whether the pane of the child `fd` is among `ids`.
fn is_named(ids: &Vec<PaneId>, fd: u32) -> (r: bool)
    ensures
        r == names_child(ids@, fd),
{
    let mut i: usize = 0;
    while i < ids.len()
        invariant
            0 <= i <= ids.len(),
            forall|k: int| 0 <= k < i ==> ids@[k] != PaneId::Terminal(fd),
        decreases ids.len() - i,
    {
        if ids[i] == PaneId::Terminal(fd) {
            return true;
        }
        i += 1;
    }
    false
}

/// Whether no fd occurs twice in `fds`.
fn distinct(fds: &Vec<u32>) -> (r: bool)
    ensures
        r == fds@.no_duplicates(),
{
    let mut i: usize = 0;
    while i < fds.len()
        invariant
            0 <= i <= fds.len(),
            forall|a: int, b: int| 0 <= a < i && a < b < fds.len() ==> fds[a] != fds[b],
        decreases fds.len() - i,
    {
        let mut j: usize = i + 1;
        while j < fds.len()
            invariant
                i < j <= fds.len(),
                forall|b: int| i < b < j ==> fds[i as int] != fds[b],
            decreases fds.len() - j,
        {
            if fds[i] == fds[j] {
                return false;
            }
            j += 1;
        }
        i += 1;
    }
    assert forall|a: int, b: int| 0 <= a < fds.len() && 0 <= b < fds.len() && a != b implies fds[a]
        != fds[b] by {
        if a < b {
        } else {
            assert(fds[b] != fds[a]);
        }
    }
    true
}

/// Parts the children into those whose pane is among `ids` and the others,
/// each part in the order of `children`.
fn part(children: &Vec<u32>, ids: &Vec<PaneId>) -> (parts: (Vec<u32>, Vec<u32>))
    requires
        children@.no_duplicates(),
    ensures
        parts.0@ == children@.filter(|fd: u32| names_child(ids@, fd)),
        parts.1@ == children@.filter(|fd: u32| !names_child(ids@, fd)),
        parts.1@.no_duplicates(),
{
    let mut named: Vec<u32> = Vec::new();
    let mut others: Vec<u32> = Vec::new();
    let ghost is_in = |fd: u32| names_child(ids@, fd);
    let ghost is_out = |fd: u32| !names_child(ids@, fd);
    assert(children@.take(0).filter(is_in) =~= Seq::<u32>::empty()) by {
        reveal(Seq::filter);
    }
    assert(children@.take(0).filter(is_out) =~= Seq::<u32>::empty()) by {
        reveal(Seq::filter);
    }
    let mut i: usize = 0;
    while i < children.len()
        invariant
            0 <= i <= children.len(),
            children@.no_duplicates(),
            is_in == (|fd: u32| names_child(ids@, fd)),
            is_out == (|fd: u32| !names_child(ids@, fd)),
            named@ == children@.take(i as int).filter(is_in),
            others@ == children@.take(i as int).filter(is_out),
            others@.no_duplicates(),
            forall|k: int|
                0 <= k < others@.len() ==> children@.take(i as int).contains(#[trigger] others@[k]),
        decreases children.len() - i,
    {
        let fd = children[i];
        proof {
            let head = children@.take(i as int);
            let more = children@.take(i as int + 1);
            assert(more =~= head.push(fd));
            head.lemma_filter_push(fd, is_in);
            head.lemma_filter_push(fd, is_out);
            assert forall|k: int| 0 <= k < others@.len() implies (#[trigger] others@[k]) != fd
                && more.contains(others@[k]) by {
                let at = choose|at: int| 0 <= at < head.len() && head[at] == others@[k];
                assert(children@[at] == others@[k]);
                assert(more[at] == others@[k]);
            }
            assert(more[i as int] == fd);
        }
        if is_named(ids, fd) {
            named.push(fd);
        } else {
            others.push(fd);
        }
        i += 1;
    }
    assert(children@.take(children.len() as int) =~= children@);
    (named, others)
}

impl PtyBus {
    /// What holds of a bus between any two instructions.
    pub open spec fn wf(&self) -> bool {
        self@.wf()
    }

    /// A bus without children, which lays new tabs out by `layout` if that
    /// is a plan it can use.
    pub fn new(layout: Option<Layout>) -> (r: PtyBus)
        ensures
            r@ == (PtyBusState { children: Seq::empty(), layout: usable(layout) }),
            r.wf(),
    {
        let kept = match layout {
            Some(plan) => {
                if plan.is_valid() && plan.count_within(usize::MAX).is_some() {
                    Some(plan)
                } else {
                    None
                }
            },
            None => None,
        };
        let r = PtyBus { children: Vec::new(), layout: kept };
        assert(r@.children =~= Seq::empty());
        r
    }

    /// The file descriptors of the terminals of the living children.
    pub fn children(&self) -> (r: Vec<u32>)
        ensures
            r@ == self@.children,
    {
        let mut fds: Vec<u32> = Vec::new();
        let mut i: usize = 0;
        while i < self.children.len()
            invariant
                0 <= i <= self.children.len(),
                fds@ == self.children@.take(i as int),
            decreases self.children.len() - i,
        {
            fds.push(self.children[i]);
            i += 1;
            assert(fds@ =~= self.children@.take(i as int));
        }
        assert(self.children@.take(self.children.len() as int) =~= self.children@);
        fds
    }

    /// Takes an instruction and says what the caller is to do.
    pub fn handle(&mut self, instruction: PtyInstruction) -> (action: PtyAction)
        requires
            old(self).wf(),
        ensures
            final(self)@ == old(self)@.step(instruction),
            old(self)@.asks(instruction, action),
            final(self).wf(),
    {
        match instruction {
            PtyInstruction::SpawnTerminal(file) => PtyAction::Spawn {
                file,
                placement: Placement::NewPane,
            },
            PtyInstruction::SpawnTerminalVertically(file) => PtyAction::Spawn {
                file,
                placement: Placement::Vertical,
            },
            PtyInstruction::SpawnTerminalHorizontally(file) => PtyAction::Spawn {
                file,
                placement: Placement::Horizontal,
            },
            PtyInstruction::NewTab => match &self.layout {
                Some(plan) => match plan.count_within(usize::MAX) {
                    Some(count) => PtyAction::SpawnForLayout { count },
                    None => PtyAction::Spawn { file: None, placement: Placement::NewTab },
                },
                None => PtyAction::Spawn { file: None, placement: Placement::NewTab },
            },
            PtyInstruction::ClosePane(id) => {
                let mut ids: Vec<PaneId> = Vec::new();
                ids.push(id);
                assert(ids@ =~= seq![id]);
                let (named, others) = part(&self.children, &ids);
                self.children = others;
                PtyAction::Close { fds: named }
            },
            PtyInstruction::CloseTab(ids) => {
                let (named, others) = part(&self.children, &ids);
                self.children = others;
                PtyAction::Close { fds: named }
            },
            PtyInstruction::Exit => {
                let fds = self.children();
                self.children = Vec::new();
                assert(self.children@ =~= Seq::<u32>::empty());
                PtyAction::Exit { fds }
            },
        }
    }

    /// Takes an instruction that has arrived with the chain `err_ctx`:
    /// records the arrival in the chain, which whatever is sent on is to
    /// carry, and does as `handle` does.
    pub fn deliver(&mut self, instruction: PtyInstruction, err_ctx: &mut ErrorContext) -> (action:
        PtyAction)
        requires
            old(self).wf(),
        ensures
            final(self)@ == old(self)@.step(instruction),
            old(self)@.asks(instruction, action),
            final(self).wf(),
            final(err_ctx)@ == chain_with(
                old(err_ctx)@,
                ContextType::Pty(PtyContext::kind(instruction)),
            ),
            delivered_to(old(err_ctx)@, final(err_ctx)@, Bus::Pty),
    {
        err_ctx.add_call(ContextType::Pty(PtyContext::of(&instruction)));
        self.handle(instruction)
    }

    /// Takes note of a new child with the terminal `fd`, and says what the
    /// screen is to be told: to open the pane of the child where `placement`
    /// says. Nothing is to be told of a terminal that a living child has.
    pub fn spawned(&mut self, fd: u32, placement: Placement) -> (r: Option<ServerInstruction>)
        requires
            old(self).wf(),
        ensures
            r == old(self)@.tells(fd, placement),
            final(self)@ == old(self)@.with_child(fd),
            final(self).wf(),
    {
        if has_child(&self.children, fd) {
            return None;
        }
        self.children.push(fd);
        let id = PaneId::Terminal(fd);
        Some(
            ServerInstruction::ToScreen(
                match placement {
                    Placement::NewPane => ScreenInstruction::NewPane(id),
                    Placement::Vertical => ScreenInstruction::VerticalSplit(id),
                    Placement::Horizontal => ScreenInstruction::HorizontalSplit(id),
                    Placement::NewTab => ScreenInstruction::NewTab(id),
                },
            ),
        )
    }

    /// Whether new children with the terminals `fds` fit the plan of a new
    /// tab.
    pub fn fits_layout(&self, fds: &Vec<u32>) -> (r: bool)
        requires
            self.wf(),
        ensures
            r == self@.fits_layout(fds@),
    {
        match &self.layout {
            None => false,
            Some(plan) => {
                match plan.count_within(usize::MAX) {
                    Some(count) => {
                        if count != fds.len() {
                            return false;
                        }
                    },
                    None => {
                        return false;
                    },
                }
                if !distinct(fds) {
                    return false;
                }
                let mut i: usize = 0;
                while i < fds.len()
                    invariant
                        0 <= i <= fds.len(),
                        forall|k: int| 0 <= k < i ==> !self.children@.contains(#[trigger] fds@[k]),
                    decreases fds.len() - i,
                {
                    if has_child(&self.children, fds[i]) {
                        return false;
                    }
                    i += 1;
                }
                true
            },
        }
    }

    /// Takes note of the new children of a tab, with the terminals `fds`,
    /// and says what the screen is to be told: to lay their panes out by
    /// the plan. Nothing is noted or told where the children do not fit the
    /// plan.
    pub fn spawned_for_layout(&mut self, fds: Vec<u32>) -> (r: Option<ServerInstruction>)
        requires
            old(self).wf(),
        ensures
            !old(self)@.fits_layout(fds@) ==> r is None && final(self)@ == old(self)@,
            old(self)@.fits_layout(fds@) ==> {
                &&& r matches Some(
                    ServerInstruction::ToScreen(ScreenInstruction::ApplyLayout(plan, ids)),
                )
                &&& Some(plan) == old(self)@.layout
                &&& ids@ == panes_of(fds@)
                &&& final(self)@ == (PtyBusState {
                    children: old(self)@.children + fds@,
                    ..old(self)@
                })
            },
            final(self).wf(),
    {
        if !self.fits_layout(&fds) {
            return None;
        }
        let plan = match &self.layout {
            Some(plan) => plan.duplicate(),
            None => {
                return None;
            },
        };
        let mut ids: Vec<PaneId> = Vec::new();
        let mut i: usize = 0;
        while i < fds.len()
            invariant
                0 <= i <= fds.len(),
                self.layout == old(self).layout,
                ids@ == panes_of(fds@.take(i as int)),
                self.children@ == old(self).children@ + fds@.take(i as int),
            decreases fds.len() - i,
        {
            ids.push(PaneId::Terminal(fds[i]));
            self.children.push(fds[i]);
            i += 1;
            assert(ids@ =~= panes_of(fds@.take(i as int)));
            assert(self.children@ =~= old(self).children@ + fds@.take(i as int));
        }
        proof {
            assert(fds@.take(fds.len() as int) =~= fds@);
            vstd::seq_lib::lemma_no_dup_in_concat(old(self).children@, fds@);
        }
        Some(ServerInstruction::ToScreen(ScreenInstruction::ApplyLayout(plan, ids)))
    }

    /// Takes note that the child with the terminal `fd` has ended, and
    /// says what the screen is to be told: to close the pane of the child.
    /// Nothing is to be told of a terminal that no living child has.
    pub fn child_ended(&mut self, fd: u32) -> (r: Option<ServerInstruction>)
        requires
            old(self).wf(),
        ensures
            final(self)@ == old(self)@.step(PtyInstruction::ClosePane(PaneId::Terminal(fd))),
            r == (if old(self)@.children.contains(fd) {
                Some(
                    ServerInstruction::ToScreen(ScreenInstruction::ClosePane(PaneId::Terminal(fd))),
                )
            } else {
                None
            }),
            final(self).wf(),
    {
        let known = has_child(&self.children, fd);
        let mut ids: Vec<PaneId> = Vec::new();
        ids.push(PaneId::Terminal(fd));
        assert(ids@ =~= seq![PaneId::Terminal(fd)]);
        let (_, others) = part(&self.children, &ids);
        self.children = others;
        if known {
            Some(ServerInstruction::ToScreen(ScreenInstruction::ClosePane(PaneId::Terminal(fd))))
        } else {
            None
        }
    }
}

} // verus!
