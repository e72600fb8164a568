//! MQTT: the IO surface, served by the controller and bridged to a broker.
pub mod agreement;
pub mod client;
pub mod cmd;
pub mod server;
pub mod settings;
pub mod topics;
