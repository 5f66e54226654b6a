//! Keyboard-driven hint navigation: the decisions behind the overlay.

pub mod click;
pub mod frame;
pub mod geometry;
pub mod handle_labels;
pub mod hints;
pub mod hotkey;
pub mod laws;
pub mod matching;
pub mod message;
pub mod options;
pub mod overlay;
pub mod report;
pub mod resize;
pub mod scan;
pub mod scanner;
pub mod session;
pub mod splitter;
pub mod text;
pub mod tray;
pub mod treewalk;
