//! Native host core: the configuration store's text rules and the
//! resource inbox that gathers URLs handed to the application.

pub mod config;
pub mod json;
pub mod resources;
