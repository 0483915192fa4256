//! What a plugin implements to be a tile of the screen.

use vstd::prelude::*;

verus! {

/// A key, as a plugin is told it.
#[derive(Clone, Copy, Debug, PartialEq, Eq, Hash, Structural)]
pub enum TileKey {
    Backspace,
    Left,
    Right,
    Up,
    Down,
    Home,
    End,
    PageUp,
    PageDown,
    BackTab,
    Delete,
    Insert,
    /// A function key, by its number.
    F(u8),
    Char(char),
    Alt(char),
    Ctrl(char),
    Null,
    Esc,
}

/// A tile: a plugin that draws itself and hears of keys. Every method has
/// a default that does nothing, so a tile implements what it needs.
pub trait ZellijTile {
    /// Called once, when the plugin is loaded.
    fn init(&mut self) {
    }

    /// Called to have the tile write itself out on so many rows and columns.
    fn draw(&mut self, rows: usize, cols: usize) {
    }

    /// Called for each key meant for the tile.
    fn handle_key(&mut self, key: TileKey) {
    }

    /// Called for each key that every tile hears of.
    fn handle_global_key(&mut self, key: TileKey) {
    }

    /// Called when the tabs have changed.
    fn update_tabs(&mut self) {
    }

    /// Called for each key typed while a tab is renamed.
    fn handle_tab_rename_keypress(&mut self, key: TileKey) {
    }
}

} // verus!
