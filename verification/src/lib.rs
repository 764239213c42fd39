//! Layered configuration for a service that signs requests to a remote API.
//!
//! A configuration is resolved from a base document, any number of override
//! documents and the environment, in rising order of precedence, and
//! decoded into a [`FireblocksConfig`]. Its secret key is then resolved
//! from an inline secret or from a file, plain or encrypted.
//!
//! The crate reads no file and no variable itself: callers hand in what
//! they read. Its functions are verified against the contracts they carry.
//! What is taken on trust is marked where it stands: the TOML reader, the
//! lookup of the home and configuration directories, and a few functions
//! of the standard library.

pub mod document;
pub mod duration;
pub mod env;
pub mod error;
pub mod extra;
pub mod loader;
pub mod profile;
pub mod schema;
pub mod secret;
pub mod text;
pub mod tree;

pub use duration::{default_poll_interval, default_poll_timeout};
pub use error::Error;
pub use loader::SourceFile;
pub use schema::{DisplayConfig, FireblocksConfig, OutputFormat, Signer};
pub use secret::{expand_tilde, KeySource, Loaded};
pub use tree::{Entry, Node};
