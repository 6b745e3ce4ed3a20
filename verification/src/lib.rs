//! The GOG storefront plugin: everything it decides and computes. What it asks of
//! the network, of the credential store and of the clock comes in as arguments. The
//! one exception is a stored token that lacks the time of its last update: where such
//! a token is read, `gog` fills in the current time.

pub mod depot;
pub mod error;
pub mod games;
pub mod gamesdb;
pub mod install;
pub mod manifest;
pub mod refresh;
pub mod registry;
pub mod service;
pub mod session;
pub mod template;
pub mod text;
pub mod urlencode;
pub mod watch;
