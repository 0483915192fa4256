//! The bus that hosts the plugins.
//!
//! The host decides here which plugin an instruction is for and what is to
//! be done with it; running the plugin is the business of the caller.

use crate::errors::{chain_with, delivered_to, Bus, ContextType, ErrorContext, PluginContext};
use crate::keys::{key_messages, tells_keys, views_of};
use std::path::Path;
use std::sync::mpsc::Sender;
use vstd::prelude::*;

verus! {

/// What the plugin host can be asked to do.
#[derive(Clone, Debug)]
pub enum PluginInstruction {
    /// Load the plugin at the given path and answer with its id.
    Load(Sender<u32>, String),
    /// Let a plugin draw itself on so many rows and columns, and answer
    /// with what it drew.
    Draw(Sender<String>, u32, usize, usize),
    /// Hand the keys in these bytes to one plugin.
    Input(u32, Vec<u8>),
    /// Hand the keys in these bytes to every plugin.
    GlobalInput(Vec<u8>),
    /// Drop a plugin.
    Unload(u32),
    /// Stop.
    Exit,
}

/// The entry of a plugin that is told of a key.
#[derive(Clone, Copy, Debug, PartialEq, Eq, Structural)]
pub enum KeyHandler {
    /// `handle_key`, for the keys meant for the plugin.
    Key,
    /// `handle_global_key`, for the keys that every plugin hears of.
    GlobalKey,
}

/// What the caller is to do for the plugin host.
#[allow(inconsistent_fields)]
#[derive(Debug)]
pub enum PluginAction {
    Nothing,
    /// Read the first of the candidate files that exists, run it as a
    /// plugin, and tell the host that the plugin `id` is loaded; then answer
    /// with the id.
    Load { reply: Sender<u32>, candidates: Vec<String>, id: u32 },
    /// Call `draw` of the plugin with so many rows and columns, and answer
    /// with what it wrote.
    Draw { reply: Sender<String>, plugin: u32, rows: i32, cols: i32 },
    /// For each plugin, and for each key in order: write the key to the
    /// plugin and call the handler. Then have the screen drawn again.
    Keys { plugins: Vec<u32>, handler: KeyHandler, keys: Vec<String> },
    /// Drop the plugin.
    Unload(u32),
    /// Stop.
    Exit,
}

/// The plugin host, as the contracts speak of it.
pub struct PluginHostState {
    /// The id that the next plugin gets.
    pub next_id: u32,
    /// The ids of the loaded plugins, in the order of loading.
    pub loaded: Seq<u32>,
    /// Where the user keeps plugins.
    pub user_dir: Seq<char>,
    /// Where the system keeps plugins.
    pub system_dir: Seq<char>,
}

/// The plugin host.
pub struct PluginHost {
    next_id: u32,
    loaded: Vec<u32>,
    user_dir: String,
    system_dir: String,
}

/// What `std::path::Path::join` makes of a directory and a path.
pub uninterp spec fn path_joined(dir: Seq<char>, path: Seq<char>) -> Seq<char>;

/// What `std::path::Path::with_extension` makes of a path and an extension.
pub uninterp spec fn path_with_extension(path: Seq<char>, extension: Seq<char>) -> Seq<char>;

/// `Path::join`, from text to text.
#[verifier::external_body]
fn join_path(dir: &String, path: &String) -> (r: String)
    ensures
        r@ == path_joined(dir@, path@),
{
    Path::new(dir).join(path).to_string_lossy().into_owned()
}

/// Whether the text holds no sign that parts two steps of a path.
pub open spec fn is_one_step(text: Seq<char>) -> bool {
    forall|i: int| 0 <= i < text.len() ==> text[i] != '/' && text[i] != '\\'
}

/// `Path::with_extension`, from text to text. The call is made only with an
/// extension that holds no separator of paths, which it does not take.
#[verifier::external_body]
fn with_extension(path: &String, extension: &str) -> (r: String)
    requires
        is_one_step(extension@),
    ensures
        r@ == path_with_extension(path@, extension@),
{
    Path::new(path).with_extension(extension).to_string_lossy().into_owned()
}

/// The files in which a plugin named `path` is looked for, in this order:
/// the path itself, the path with the extension `wasm`, and the latter in
/// the directory of the user and in that of the system.
pub open spec fn candidate_paths(path: Seq<char>, user_dir: Seq<char>, system_dir: Seq<char>) -> Seq<
    Seq<char>,
> {
    seq![
        path,
        path_with_extension(path, "wasm"@),
        path_with_extension(path_joined(user_dir, path), "wasm"@),
        path_with_extension(path_joined(system_dir, path), "wasm"@),
    ]
}

/// A count of rows or columns as a plugin is told it: the count itself, or
/// the largest that can be told.
pub open spec fn told_size(size: usize) -> i32 {
    if size <= i32::MAX {
        size as i32
    } else {
        i32::MAX
    }
}

/// The first of the candidates that exists.
pub fn first_existing(exists: &Vec<bool>) -> (r: Option<usize>)
    ensures
        r matches Some(found) ==> found < exists.len() && exists[found as int] && forall|i: int|
            0 <= i < found ==> !exists[i],
        r is None ==> forall|i: int| 0 <= i < exists.len() ==> !exists[i],
{
    let mut i: usize = 0;
    while i < exists.len()
        invariant
            0 <= i <= exists.len(),
            forall|k: int| 0 <= k < i ==> !exists[k],
        decreases exists.len() - i,
    {
        if exists[i] {
            return Some(i);
        }
        i += 1;
    }
    None
}

/// A count of rows or columns as a plugin is told it.
pub fn size_to_tell(size: usize) -> (r: i32)
    ensures
        r == told_size(size),
{
    if size <= 0x7fff_ffff {
        size as i32
    } else {
        0x7fff_ffff
    }
}

impl PluginHostState {
    /// No plugin is loaded twice, and the id of every loaded plugin is one
    /// that was given out.
    pub open spec fn wf(self) -> bool {
        &&& self.loaded.no_duplicates()
        &&& forall|i: int| 0 <= i < self.loaded.len() ==> (#[trigger] self.loaded[i]) < self.next_id
    }

    /// The host after an instruction: a plugin that is unloaded is gone.
    pub open spec fn step(self, instruction: PluginInstruction) -> PluginHostState {
        match instruction {
            PluginInstruction::Unload(plugin) => PluginHostState {
                loaded: self.loaded.filter(|id: u32| id != plugin),
                ..self
            },
            _ => self,
        }
    }

    /// The host after the plugin `id` has been loaded.
    pub open spec fn with_loaded(self, id: u32) -> PluginHostState {
        if id == self.next_id && id < u32::MAX {
            PluginHostState {
                next_id: (self.next_id + 1) as u32,
                loaded: self.loaded.push(id),
                ..self
            }
        } else {
            self
        }
    }

    /// Whether `action` is what the caller is to do for an instruction. An
    /// instruction for a plugin that is not loaded asks for nothing.
    pub open spec fn asks(self, instruction: PluginInstruction, action: PluginAction) -> bool {
        match instruction {
            PluginInstruction::Load(reply, path) => if self.next_id < u32::MAX {
                &&& action matches PluginAction::Load { reply: r, candidates, id }
                &&& r == reply
                &&& id == self.next_id
                &&& views_of(candidates@) == candidate_paths(path@, self.user_dir, self.system_dir)
            } else {
                action is Nothing
            },
            PluginInstruction::Draw(reply, plugin, rows, cols) => if self.loaded.contains(plugin) {
                action == (PluginAction::Draw {
                    reply,
                    plugin,
                    rows: told_size(rows),
                    cols: told_size(cols),
                })
            } else {
                action is Nothing
            },
            PluginInstruction::Input(plugin, bytes) => if self.loaded.contains(plugin) {
                &&& action matches PluginAction::Keys { plugins, handler, keys }
                &&& plugins@ == seq![plugin]
                &&& handler == KeyHandler::Key
                &&& tells_keys(bytes@, keys@)
            } else {
                action is Nothing
            },
            PluginInstruction::GlobalInput(bytes) => {
                &&& action matches PluginAction::Keys { plugins, handler, keys }
                &&& plugins@ == self.loaded
                &&& handler == KeyHandler::GlobalKey
                &&& tells_keys(bytes@, keys@)
            },
            PluginInstruction::Unload(plugin) => if self.loaded.contains(plugin) {
                action == PluginAction::Unload(plugin)
            } else {
                action is Nothing
            },
            PluginInstruction::Exit => action is Exit,
        }
    }
}

impl View for PluginHost {
    type V = PluginHostState;

    closed spec fn view(&self) -> PluginHostState {
        PluginHostState {
            next_id: self.next_id,
            loaded: self.loaded@,
            user_dir: self.user_dir@,
            system_dir: self.system_dir@,
        }
    }
}

impl PluginAction {
    /// Whether the screen is to be drawn again after the action.
    pub fn wants_render(&self) -> (r: bool)
        ensures
            r == (*self is Keys),
    {
        match self {
            PluginAction::Keys { .. } => true,
            _ => false,
        }
    }
}

impl KeyHandler {
    /// The name under which a plugin exports the handler.
    pub fn export(&self) -> (r: &'static str)
        ensures
            r@ == (match *self {
                KeyHandler::Key => "handle_key"@,
                KeyHandler::GlobalKey => "handle_global_key"@,
            }),
    {
        match self {
            KeyHandler::Key => "handle_key",
            KeyHandler::GlobalKey => "handle_global_key",
        }
    }
}

impl PluginHost {
    /// What holds of a host between any two instructions.
    pub open spec fn wf(&self) -> bool {
        self@.wf()
    }

    /// A host without plugins, which looks for plugins in the two
    /// directories.
    pub fn new(user_dir: String, system_dir: String) -> (r: PluginHost)
        ensures
            r@ == (PluginHostState {
                next_id: 0,
                loaded: Seq::empty(),
                user_dir: user_dir@,
                system_dir: system_dir@,
            }),
            r.wf(),
    {
        let r = PluginHost { next_id: 0, loaded: Vec::new(), user_dir, system_dir };
        assert(r@.loaded =~= Seq::empty());
        r
    }

    /// Whether the plugin `id` is loaded.
    pub fn is_loaded(&self, id: u32) -> (r: bool)
        ensures
            r == self@.loaded.contains(id),
    {
        let mut i: usize = 0;
        while i < self.loaded.len()
            invariant
                0 <= i <= self.loaded.len(),
                forall|k: int| 0 <= k < i ==> self.loaded@[k] != id,
            decreases self.loaded.len() - i,
        {
            if self.loaded[i] == id {
                return true;
            }
            i += 1;
        }
        false
    }

    /// The ids of the loaded plugins, in the order of loading.
    pub fn plugins(&self) -> (r: Vec<u32>)
        ensures
            r@ == self@.loaded,
    {
        let mut ids: Vec<u32> = Vec::new();
        let mut i: usize = 0;
        while i < self.loaded.len()
            invariant
                0 <= i <= self.loaded.len(),
                ids@ == self.loaded@.take(i as int),
            decreases self.loaded.len() - i,
        {
            ids.push(self.loaded[i]);
            i += 1;
            assert(ids@ =~= self.loaded@.take(i as int));
        }
        assert(self.loaded@.take(self.loaded.len() as int) =~= self.loaded@);
        ids
    }

    /// The files in which a plugin named `path` is looked for, in order.
    pub fn candidates(&self, path: &String) -> (r: Vec<String>)
        ensures
            views_of(r@) == candidate_paths(path@, self@.user_dir, self@.system_dir),
    {
        let mut found: Vec<String> = Vec::new();
        found.push(path.clone());
        proof {
            reveal_strlit("wasm");
        }
        found.push(with_extension(path, "wasm"));
        found.push(with_extension(&join_path(&self.user_dir, path), "wasm"));
        found.push(with_extension(&join_path(&self.system_dir, path), "wasm"));
        assert(views_of(found@) =~= candidate_paths(path@, self@.user_dir, self@.system_dir));
        found
    }

    /// Takes note that the caller has loaded the plugin `id`. The id counts
    /// only if it is the one that the host gave out for the load.
    pub fn loaded(&mut self, id: u32) -> (r: bool)
        requires
            old(self).wf(),
        ensures
            final(self)@ == old(self)@.with_loaded(id),
            r == (id == old(self)@.next_id && id < u32::MAX),
            final(self).wf(),
    {
        if id == self.next_id && id < u32::MAX {
            self.loaded.push(id);
            self.next_id = self.next_id + 1;
            proof {
                let before = old(self)@.loaded;
                let after = self@.loaded;
                assert forall|i: int, j: int|
                    0 <= i < after.len() && 0 <= j < after.len() && i != j implies after[i]
                    != after[j] by {
                    if i < before.len() {
                        assert(after[i] == before[i]);
                    }
                    if j < before.len() {
                        assert(after[j] == before[j]);
                    }
                }
                assert forall|i: int| 0 <= i < after.len() implies (#[trigger] after[i])
                    < self@.next_id by {
                    if i < before.len() {
                        assert(after[i] == before[i]);
                    }
                }
            }
            true
        } else {
            false
        }
    }

    /// Drops the plugin `id` from the loaded ones.
    fn forget(&mut self, id: u32)
        requires
            old(self).wf(),
        ensures
            final(self)@ == old(self)@.step(PluginInstruction::Unload(id)),
            final(self).wf(),
            !final(self)@.loaded.contains(id),
    {
        let mut kept: Vec<u32> = Vec::new();
        let mut i: usize = 0;
        let ghost keep = |other: u32| other != id;
        assert(self.loaded@.take(0).filter(keep) =~= Seq::<u32>::empty()) by {
            reveal(Seq::filter);
        }
        while i < self.loaded.len()
            invariant
                0 <= i <= self.loaded.len(),
                *self == *old(self),
                self.wf(),
                keep == (|other: u32| other != id),
                kept@ == self.loaded@.take(i as int).filter(keep),
                kept@.no_duplicates(),
                forall|k: int|
                    0 <= k < kept@.len() ==> (#[trigger] kept@[k]) != id && kept@[k] < self.next_id
                        && self.loaded@.take(i as int).contains(kept@[k]),
            decreases self.loaded.len() - i,
        {
            let other = self.loaded[i];
            proof {
                let head = self.loaded@.take(i as int);
                let more = self.loaded@.take(i as int + 1);
                assert(more =~= head.push(other));
                head.lemma_filter_push(other, keep);
                assert forall|k: int| 0 <= k < kept@.len() implies (#[trigger] kept@[k])
                    != other && more.contains(kept@[k]) by {
                    let at = choose|at: int| 0 <= at < head.len() && head[at] == kept@[k];
                    assert(self.loaded@[at] == kept@[k]);
                    assert(more[at] == kept@[k]);
                }
                assert(more[i as int] == other);
            }
            if other != id {
                kept.push(other);
            }
            i += 1;
        }
        proof {
            assert(self.loaded@.take(self.loaded.len() as int) =~= self.loaded@);
            if kept@.contains(id) {
                let at = choose|at: int| 0 <= at < kept@.len() && kept@[at] == id;
            }
        }
        self.loaded = kept;
    }

    /// Takes an instruction and says what the caller is to do.
    pub fn handle(&mut self, instruction: PluginInstruction) -> (action: PluginAction)
        requires
            old(self).wf(),
        ensures
            final(self)@ == old(self)@.step(instruction),
            old(self)@.asks(instruction, action),
            final(self).wf(),
    {
        match instruction {
            PluginInstruction::Load(reply, path) => {
                if self.next_id < u32::MAX {
                    PluginAction::Load {
                        reply,
                        candidates: self.candidates(&path),
                        id: self.next_id,
                    }
                } else {
                    PluginAction::Nothing
                }
            },
            PluginInstruction::Draw(reply, plugin, rows, cols) => {
                if self.is_loaded(plugin) {
                    PluginAction::Draw {
                        reply,
                        plugin,
                        rows: size_to_tell(rows),
                        cols: size_to_tell(cols),
                    }
                } else {
                    PluginAction::Nothing
                }
            },
            PluginInstruction::Input(plugin, bytes) => {
                if self.is_loaded(plugin) {
                    let mut plugins: Vec<u32> = Vec::new();
                    plugins.push(plugin);
                    assert(plugins@ =~= seq![plugin]);
                    PluginAction::Keys {
                        plugins,
                        handler: KeyHandler::Key,
                        keys: key_messages(&bytes),
                    }
                } else {
                    PluginAction::Nothing
                }
            },
            PluginInstruction::GlobalInput(bytes) => PluginAction::Keys {
                plugins: self.plugins(),
                handler: KeyHandler::GlobalKey,
                keys: key_messages(&bytes),
            },
            PluginInstruction::Unload(plugin) => {
                if self.is_loaded(plugin) {
                    self.forget(plugin);
                    PluginAction::Unload(plugin)
                } else {
                    proof {
                        let before = self@.loaded;
                        let keep = |id: u32| id != plugin;
                        crate::sequences::lemma_filter_all(before, keep);
                    }
                    PluginAction::Nothing
                }
            },
            PluginInstruction::Exit => PluginAction::Exit,
        }
    }

    /// Takes an instruction that has arrived with the chain `err_ctx`:
    /// records the arrival in the chain, which whatever is sent on is to
    /// carry, and does as `handle` does.
    pub fn deliver(&mut self, instruction: PluginInstruction, err_ctx: &mut ErrorContext) -> (action:
        PluginAction)
        requires
            old(self).wf(),
        ensures
            final(self)@ == old(self)@.step(instruction),
            old(self)@.asks(instruction, action),
            final(self).wf(),
            final(err_ctx)@ == chain_with(
                old(err_ctx)@,
                ContextType::Plugin(PluginContext::kind(instruction)),
            ),
            delivered_to(old(err_ctx)@, final(err_ctx)@, Bus::Plugin),
    {
        err_ctx.add_call(ContextType::Plugin(PluginContext::of(&instruction)));
        self.handle(instruction)
    }
}

} // verus!
