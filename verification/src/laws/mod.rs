//! What holds of the library as a whole, over all inputs.
//!
//! Each public proof function here states one law over the same definitions that
//! the contracts of the executable functions use.

pub mod click;
pub mod frame;
pub mod geometry;
pub mod handle_labels;
pub mod hints;
pub mod hotkey;
pub mod matching;
pub mod message;
pub mod options;
pub mod overlay;
pub mod report;
pub mod resize;
pub mod scan;
pub mod scanner;
pub mod session;
pub mod shared_edges;
pub mod splitter;
pub mod steps;
pub mod sweep;
pub mod text;
pub mod tray;
pub mod treewalk;
