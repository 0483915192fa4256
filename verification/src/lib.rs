//! The orchestration core of a terminal multiplexer: the typed instructions
//! that travel between its buses, the causal context attached to each of them,
//! the tiling of panes inside tabs, and the decisions that every bus takes
//! when an instruction arrives.
//!
//! Every bus is a state with a function that takes an instruction and says
//! what the caller is to do: `screen` for the tabs and panes, `pty_bus` for
//! the child processes, `wasm_vm` for the plugins, `server` and `client` for
//! the two sides of a session, `common` for the dispatcher and the senders.
//! Running children and plugins, reading and writing the terminal and
//! moving messages between processes is left to the program around the
//! library.
//!
//! The tiling is in `geometry`, `layout`, `focus` and `tab`, with what holds
//! of it in `tiling`, `ledger` and `laws`; `layout_file` reads and writes
//! layouts, `render` draws the panes, `terminal` has the texts of a session's
//! start and end, `input` the meaning of keys, `keys` the keys as plugins
//! are told them, `errors` the causal chains, and `channels` what is taken
//! on trust of the channels of the standard library.

pub mod channels;
pub mod client;
pub mod common;
pub mod errors;
pub mod focus;
pub mod geometry;
pub mod input;
pub mod keys;
pub mod laws;
pub mod layout;
pub mod layout_file;
pub mod ledger;
pub mod numbers;
pub mod panes;
pub mod pty_bus;
pub mod render;
pub mod screen;
pub mod sequences;
pub mod server;
pub mod tab;
pub mod terminal;
pub mod tile;
pub mod tiling;
pub mod wasm_vm;
