//! Verified core of a host-lookup command-line client.
//!
//! The library holds the logic of the tool: configuration assembly,
//! target-list parsing, lookup-URL construction, classification of a
//! lookup's outcome, and the presenter that formats a decoded host
//! record. The surrounding binary performs the network calls and hands
//! the library plain values.

pub mod config;
pub mod host;
pub mod lookup;
pub mod text;

pub use config::Config;
pub use config::ShodanCliArgs;
