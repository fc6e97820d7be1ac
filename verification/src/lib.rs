//! A reverse-proxy gateway core: it maps public HTTP paths onto object-store
//! keys by longest-prefix endpoint resolution, translates HTTP `Range` headers
//! into the object store's native range-read parameters, selects the backend
//! command for each request, projects an allow-list of backend headers onto
//! the outbound response, and maps backend failures to HTTP statuses.
//!
//! The surrounding binary supplies the transport: it parses configuration,
//! runs the HTTP server, and issues the object-store requests; this crate
//! holds every decision those steps depend on.

pub mod config;
pub mod engine;
pub mod headers;
pub mod range;
pub mod resolve;
mod strutil;

pub use config::Endpoint;
pub use config::Endpoints;
