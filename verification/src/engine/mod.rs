//! Install flows: what to say, what to ask of the box next, and when to stop.
//!
//! Each flow is a machine that hands out one operation at a time and takes the
//! reply. Carrying the operations out is the front end's business.
pub mod archive;
pub mod emmc_install;
pub mod flow;
pub mod network;
pub mod refusals;
pub mod release;
pub mod shell;
pub mod mfgmode;
pub mod updates;
pub mod hc800;
pub mod netboot;
pub mod pc_boot;
pub mod picking;
