//! The desktop front end: a four-step wizard over one window.
pub mod icon;
pub mod jobs;
pub mod page;
pub mod promises;
pub mod state;
pub mod steps;
pub mod views;
