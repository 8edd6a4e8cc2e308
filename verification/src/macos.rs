//! The macOS indicator daemon's own logic: key classification, the input
//! source and accessibility role checks, the badge state.
pub mod keymap;
pub mod indicator;
