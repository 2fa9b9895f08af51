//! Lookup of verses in a scripture corpus held as books, chapters and verses.

pub mod answer;
pub mod args;
pub mod bible;
pub mod laws;
pub mod locator;
pub mod random;
pub mod render;
pub mod subscript;
