//! Shortens delimiter-separated lines, such as file paths, by collapsing
//! interior components to their first character.

pub mod laws;
pub mod lines;
pub mod pattern;
pub mod shorten;
pub mod source;
pub mod split;

pub use lines::get_shortened_lines;
pub use shorten::{shorten_line, Config};
