//! The IO server: one binary that runs the whole fleet.
pub mod api;
pub mod b64;
pub mod bytes;
pub mod board;
pub mod events;
pub mod fault;
pub mod gpio_io;
pub mod ir;
pub mod led;
pub mod link;
pub mod lirc;
pub mod mcu;
pub mod mqtt;
pub mod ops;
pub mod poller;
pub mod promises;
pub mod serial;
pub mod talk;
