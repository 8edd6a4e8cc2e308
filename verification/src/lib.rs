use vstd::prelude::*;

pub mod hangul;
pub mod text;
pub mod table;
pub mod number;
pub mod layout;
pub mod compose;
pub mod decompose;
pub mod roundtrip;
pub mod sebeolsik_roundtrip;
pub mod key_roundtrip;
pub mod tracker;
pub mod plan;
pub mod sync;
pub mod lexicon;
pub mod lexicon_data;
pub mod detect;
pub mod auto;
pub mod config;
pub mod linux;
pub mod macos;
pub mod windows;
pub mod settings;
pub mod cli;
pub mod ffi;
pub mod datagen;
