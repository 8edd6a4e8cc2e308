//! The X11 indicator daemon's own logic: key classification, mode
//! tracking, badge placement and images, text injection helpers.
pub mod keymap;
pub mod indicator;
pub mod render;
pub mod inject;
