//! The dashboard of boards whose radios and serial ports it opens itself.
pub mod args;
pub mod board;
pub mod radio;
pub mod reading;
