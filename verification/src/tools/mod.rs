//! Tools around the Roto language.

pub mod print;
