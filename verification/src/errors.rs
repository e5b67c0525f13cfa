//! The error taxonomy of the configuration front-end.
//!
//! Every failure of the parser, the port-range expander, the aligner or the
//! source arbiter is one of these kinds; all of them are terminal at startup,
//! so no variant carries retry information.

use vstd::prelude::*;

verus! {

/// One kind of configuration defect.
///
/// `FileReadError` and `FileParseError` are produced by the surrounding
/// program (the part that opens and decodes the config file); the remaining
/// kinds are produced by the verified core itself.
#[derive(Clone, Copy, Debug, PartialEq, Eq, Structural)]
pub enum ConfigError {
    /// The protocol token of a listen spec is neither `tcp` nor `udp`.
    InvalidProtocol,
    /// A listen spec has no `/` separating the bind part from the remote part.
    MalformedListenSpec,
    /// A bind or remote part of a listen spec has no `:` separating host and port.
    MalformedAddress,
    /// A port token is not a number in 0..=65535, or has more than one `-`.
    InvalidPortRange,
    /// A port range `N-M` with `N > M`.
    PortRangeDescending,
    /// One of the four config-file lists has no element.
    EmptyConfigList,
    /// The config file could not be opened or read.
    FileReadError,
    /// The config file content does not decode into the four required lists.
    FileParseError,
    /// Neither a config file nor any listen spec was supplied.
    MissingListenSource,
    /// Both a config file and listen specs were supplied.
    ConflictingListenSources,
}

impl ConfigError {
    /// A human-readable description, for the fatal startup message.
    pub fn message(&self) -> (r: &'static str)
        ensures
            r@.len() > 0,
    {
        let m: &'static str = match self {
            ConfigError::InvalidProtocol => "protocol must be tcp or udp",
            ConfigError::MalformedListenSpec => "listen spec must be [proto://]host:port/host:port",
            ConfigError::MalformedAddress => "address must be host:port",
            ConfigError::InvalidPortRange => "port must be a number 0-65535 or a range N-M",
            ConfigError::PortRangeDescending => "port range must not be descending",
            ConfigError::EmptyConfigList => "config file lists must not be empty",
            ConfigError::FileReadError => "could not read the config file",
            ConfigError::FileParseError => "could not parse the config file",
            ConfigError::MissingListenSource => "no listening socket was given",
            ConfigError::ConflictingListenSources => "give either a config file or listen specs, not both",
        };
        proof {
            reveal_strlit("protocol must be tcp or udp");
            reveal_strlit("listen spec must be [proto://]host:port/host:port");
            reveal_strlit("address must be host:port");
            reveal_strlit("port must be a number 0-65535 or a range N-M");
            reveal_strlit("port range must not be descending");
            reveal_strlit("config file lists must not be empty");
            reveal_strlit("could not read the config file");
            reveal_strlit("could not parse the config file");
            reveal_strlit("no listening socket was given");
            reveal_strlit("give either a config file or listen specs, not both");
        }
        m
    }
}

} // verus!
