//! Editing the colour lines of a terminal emulator's configuration text.

pub mod backup;
pub mod change;
pub mod cli;
pub mod colours;
pub mod config;
pub mod keys;
pub mod laws;
pub mod line;
pub mod line_proofs;
pub mod palette;
pub mod select;
pub mod text;
pub mod text_proofs;
pub mod util;
pub mod value;
