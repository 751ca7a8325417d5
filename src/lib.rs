//! A small embeddable HTTP server core: a route table keyed by method,
//! literal and pattern path matchers, a per-path response cache and the
//! per-connection dispatch that ties them together.
pub mod cache;
pub mod laws;
pub mod listing;
pub mod matcher;
pub mod request;
pub mod response;
pub mod server;

pub use cache::ResponseCache;
pub use listing::{directory_listing, file_response, FileLookup};
pub use matcher::{Path, Pattern, PatternError};
pub use request::Request;
pub use response::Response;
pub use server::{Outcome, Route, Server};
