//! Screen geometry of a text editor's viewport: which lines are visible and
//! where, what the cursor and selections paint, which structural headers stay
//! pinned at the top, and how line diffs colour the gutter and scroll bar.
pub mod doc;
pub mod screen;
pub mod cursor;
pub mod sticky;
pub mod diff;
pub mod find;
