//! The Windows indicator daemon's own logic: key classification, the badge
//! state and its placement.
pub mod keymap;
pub mod indicator;
