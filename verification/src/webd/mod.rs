//! The dashboard: the page, the board's identity, and one origin for every
//! daemon behind it.
pub mod assets;
pub mod board;
pub mod proxy;
pub mod serving;
pub mod spec_doc;
pub mod system;
