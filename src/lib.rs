//! A read-only comic library server: descriptor model, archive page index,
//! pre-serialized JSON payloads, an immutable library store and a request router.

pub mod args;
pub mod curator;
pub mod error;
pub mod json;
pub mod library;
pub mod manga;
pub mod model;
pub mod order;
pub mod pages;
pub mod payload;
pub mod router;
pub mod serve;
pub mod server;
