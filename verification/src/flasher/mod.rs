//! What the flasher knows about boards, images and boot chains.
pub mod board;
pub mod cefdk;
pub mod hc800;
pub mod image;
pub mod knowledge;
pub mod loader;
pub mod method;
