//! A small catalog library: flat rows of (category, sub-category, title, link)
//! and the projection that collapses consecutive rows sharing a key pair into
//! groups, as served by a read-only listing endpoint.

pub mod grouping;
pub mod items;
pub mod laws;
pub mod seed;
