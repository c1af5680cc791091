//! Verified core of a management back end for media servers: regions, media
//! server nodes, the devices that stream to them, and the decisions the HTTP
//! API makes about them.

pub mod text;
pub mod model;
pub mod play_urls;
pub mod device_store;
pub mod registry;
pub mod json;
pub mod client;
pub mod sort;
pub mod api;
pub mod config;
