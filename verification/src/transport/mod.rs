//! How the flasher talks to a box, down to the last byte it sends and the last
//! byte it believes.
pub mod bootp;
pub mod discovery;
pub mod finding;
pub mod ipv4;
pub mod netboot;
pub mod probe;
pub mod sddp;
pub mod serial;
pub mod ssh;
pub mod tftp;
pub mod wire;
