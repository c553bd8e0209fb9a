//! The ingestion pipeline of a feed reader.
//!
//! Each article of a feed is kept once, under a name made from what
//! identifies it. Its HTML is converted to text, the images it refers to are
//! mirrored, and a row is appended to an index log. Nothing here touches a
//! file or the network: the decisions are made here, and the caller carries
//! them out.

pub mod config;
pub mod dates;
pub mod db;
pub mod feed;
pub mod index;
pub mod ingest;
pub mod markup;
pub mod model;
pub mod naming;
pub mod paths;
pub mod refs;
pub mod text;
pub mod tui;
pub mod urls;
