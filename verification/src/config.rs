//! The settings that the core reads: retention, grid and behaviour.

use vstd::prelude::*;

verus! {

/// How long items are kept.
#[derive(Debug, Clone, Copy, PartialEq, Eq, Structural)]
pub struct Retention {
    /// The number of days an item is kept.
    pub days: u32,
    /// Whether the sweep leaves pinned items alone.
    pub delete_unstarred_only: bool,
}

/// The layout of the thumbnail grid.
#[derive(Debug, Clone, Copy, PartialEq, Eq, Structural)]
pub struct Grid {
    pub thumb_size: u32,
    pub columns: u32,
}

/// How captures are handled.
#[derive(Debug, Clone, Copy, PartialEq, Eq, Structural)]
pub struct Behavior {
    /// Whether a repeated capture of stored content refreshes the stored
    /// item.
    pub dedupe: bool,
}

impl Default for Retention {
    /// Thirty days, pinned items exempt.
    fn default() -> (retention: Self)
        ensures
            retention == (Retention { days: 30, delete_unstarred_only: true }),
    {
        Retention { days: 30, delete_unstarred_only: true }
    }
}

impl Default for Grid {
    /// Thumbnails of 104 pixels in three columns.
    fn default() -> (grid: Self)
        ensures
            grid == (Grid { thumb_size: 104, columns: 3 }),
    {
        Grid { thumb_size: 104, columns: 3 }
    }
}

impl Default for Behavior {
    /// Deduplication on.
    fn default() -> (behavior: Self)
        ensures
            behavior == (Behavior { dedupe: true }),
    {
        Behavior { dedupe: true }
    }
}

} // verus!
