//! Helpers around the encoding engine that work on plain values.

pub mod directory;
