//! openHC: the flasher that takes a controller over, and the daemons that run on
//! it afterwards.
pub mod cli;
pub mod console;
pub mod engine;
pub mod env;
pub mod flasher;
pub mod iod;
pub mod json;
pub mod num;
pub mod ohc_webd;
pub mod readers;
pub mod sysmond;
pub mod text;
pub mod textmap;
pub mod transport;
pub mod webd;
pub mod wifi;
pub mod wizard;
