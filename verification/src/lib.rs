//! A provider of GitLab's projects for the rootle browser: it answers requests, one JSON
//! message to a line, from GitLab's REST v4 interface and from a cache on disk.
//!
//! This library decides; it does not wait. A request begins with
//! [`wire::Request::read`] and [`handlers::Handler::dispatch_streaming`], goes on from turn
//! to turn as its caller brings the answers that it waits for, and ends with
//! [`wire::transcript`].

pub mod api;
pub mod budget;
pub mod cache;
pub mod cli;
pub mod encode;
pub mod handlers;
pub mod json;
pub mod paging;
pub mod text;
pub mod wire;

pub use handlers::{Handler, WireError};
