//! Pane identifiers.

use vstd::prelude::*;

verus! {

/// Names a pane for as long as it is open.
///
/// A terminal pane is named by the file descriptor of its pseudo-terminal, a
/// plugin pane by the id that the plugin host gave to the plugin.
#[derive(Clone, Copy, Debug, PartialEq, Eq, Hash, Structural)]
pub enum PaneId {
    Terminal(u32),
    Plugin(u32),
}

} // verus!
