//! The grid container under its former module path
//!
//! The content of this module lives at the crate root; these re-exports keep
//! the older paths working.

pub use crate::DynamicGrid as Grid;
pub use crate::IncompatibleRowSize;
