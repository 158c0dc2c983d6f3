//! A terminal table viewer core: a viewport layout engine for tabular data
//! and the navigation state machine that drives it.
//!
//! The crate computes which rows and columns of a table fit into a drawing
//! rectangle, how multi-line cells wrap and clip, and which cell was reached
//! last; and it applies navigation commands (move, page, select, expand)
//! under bounds derived from the most recent layout. Terminal I/O, key
//! decoding and the actual painting of styled spans are left to the host
//! application.

pub mod data_sources;
pub mod dummies;
pub mod model_table;
pub mod text;
pub mod tui_app;
