use vstd::prelude::*;

/// The 256-colour palette.
pub mod theme;
/// Diff lines, hunks, and the entries of the file, commit and branch lists.
pub mod types;
/// Cutting a flat line diff into hunks with context.
pub mod hunks;
/// From two texts to numbered, highlighted diff lines; binary files.
pub mod content;
/// The changed-file, commit and branch lists.
pub mod listing;
/// The terminal layout.
pub mod ui;
/// The viewer's state: selection, scrolling, input and refresh.
pub mod app;
/// Which rows of the diff the pane shows.
pub mod viewport;

verus! {

} // verus!
