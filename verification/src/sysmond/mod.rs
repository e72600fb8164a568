//! The telemetry daemon: temperatures, fans, processor, memory, kept in a
//! bounded ring and served with their history.
pub mod history;
pub mod sensors;
pub mod meaning;
