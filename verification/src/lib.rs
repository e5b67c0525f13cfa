//! Configuration front-end for a TCP/UDP relay tool.
//!
//! The crate turns either a compact command-line "listen spec" string or the
//! four parallel lists of a structured config file into a normalized list of
//! [`RelayConfig`] endpoint records.  The whole transformation — the
//! listen-spec grammar, the port-range expander, the list aligner and the
//! source arbiter — is pure computation over strings and integers, and is
//! verified against spec-level models of each step.

pub mod align;
pub mod arbiter;
pub mod digits;
pub mod errors;
pub mod laws;
pub mod listen;
pub mod model;
pub mod ports;
pub mod scan;

pub use align::align_lists;
pub use align::load_config;
pub use arbiter::parse_arguments;
pub use arbiter::parse_listen_specs;
pub use errors::ConfigError;
pub use listen::parse_listen_spec;
pub use model::Cli;
pub use model::ConfigFile;
pub use model::RelayConfig;
pub use ports::ports2individuals;
