//! The camera's media library: paging the catalogue, resuming live view, the records
//! and how they are filtered, sorted and cached.

pub mod browse;
pub mod cache;
pub mod catalog;
pub mod chunks;
pub mod http;
pub mod model;
pub mod pathset;
pub mod query;
pub mod resume;
pub mod thumbs;
pub mod worker;
