//! Registration of host items into Roto's runtime, and their documentation.

pub mod docs;
pub mod items;
pub mod layout;
pub mod names;
pub mod registry;
