//! The interaction core of a full-screen todo board: the cursor, the item
//! store and its line format, the tab filter, the insertion buffer, and the
//! state machine that key presses drive. Terminal setup, key polling and
//! drawing are left to the program around this library.

pub mod app;
pub mod editor;
pub mod filter;
pub mod item;
pub mod keys;
pub mod position;
pub mod screen;
pub mod store;
