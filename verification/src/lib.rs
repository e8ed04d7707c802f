//! Resolves the public key in a request path to a Sentry JavaScript loader
//! script: the search for the owning project, the DSN, and the rendering of
//! the loader templates.

pub mod loader;
pub mod pieces;
pub mod resolution;
pub mod sentry_client;
pub mod sentry_dsn_builder;
pub mod template_files;
pub mod text;
