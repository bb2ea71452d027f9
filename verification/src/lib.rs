//! Routing core of a plaintext-to-mTLS reverse proxy.
//!
//! An inbound request URL is matched against an ordered list of request
//! mappings; the first mapping that matches rewrites it into an absolute
//! destination URL by filling a URL template with the captures of the match.
//! The destination then selects, again in declaration order, the client
//! identity whose certificate is presented upstream.
//!
//! The crate decides and computes; it opens no socket and reads no file.
//! [`cli`] turns the operator's entries into a [`router::Router`],
//! [`forward`] turns an inbound request into the request to send upstream,
//! and the process around the crate does the reading and the sending.
//!
//! Parsing URLs, matching URL patterns, reading PEM and building TLS
//! configurations are left to the crates that do them. What this crate
//! takes on trust from each of them stands in [`address`], [`pattern`] and
//! [`tls`], next to the call.

pub mod address;
pub mod builders;
pub mod cli;
pub mod config_error;
pub mod forward;
pub mod mapping;
pub mod pattern;
pub mod route_error;
pub mod router;
pub mod template;
pub mod text;
pub mod tls;
pub mod variables;

pub use crate::cli::Cli;
