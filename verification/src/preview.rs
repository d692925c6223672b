//! The live-preview color snapshot: what toggling the in-terminal
//! preview saves so that the original colors can be restored. Terminals
//! cannot reliably be queried for their colors, so the snapshot stands
//! for the reset sequences that restoration emits; emitting them is the
//! surrounding application's business.

use vstd::prelude::*;

verus! {

/// A snapshot of the terminal colors taken before a live preview.
#[derive(Debug, Clone, Copy, PartialEq, Eq, Structural)]
pub struct SavedColors;

/// Record the terminal's current colors for later restoration.
pub fn save_current_colors() -> (r: SavedColors)
    ensures
        r == SavedColors,
{
    SavedColors
}

} // verus!
