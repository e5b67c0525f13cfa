//! The normalized data model: one relay endpoint, and the raw config file.

use vstd::prelude::*;

verus! {

/// The characters of the protocol token `tcp`.
pub open spec fn tcp_chars() -> Seq<char> {
    seq!['t', 'c', 'p']
}

/// The characters of the protocol token `udp`.
pub open spec fn udp_chars() -> Seq<char> {
    seq!['u', 'd', 'p']
}

/// The characters of the wildcard bind address `0.0.0.0`.
pub open spec fn wildcard_chars() -> Seq<char> {
    seq!['0', '.', '0', '.', '0', '.', '0']
}

/// A stored protocol is empty (engine default) or a lowercase known protocol.
pub open spec fn valid_protocol(p: Seq<char>) -> bool {
    p == Seq::<char>::empty() || p == tcp_chars() || p == udp_chars()
}

/// Spec-level image of a [`RelayConfig`]: the five fields as character
/// sequences.  Every contract of the crate speaks of this model.
#[verifier::ext_equal]
pub ghost struct EndpointModel {
    pub listening_address: Seq<char>,
    pub listening_port: Seq<char>,
    pub remote_address: Seq<char>,
    pub remote_port: Seq<char>,
    pub protocol: Seq<char>,
}

impl EndpointModel {
    /// The invariant of a normalized endpoint: the protocol is drawn from the
    /// fixed set, and the bind address is never empty (an empty input is
    /// normalized to the wildcard).
    pub open spec fn wf(self) -> bool {
        valid_protocol(self.protocol) && self.listening_address.len() > 0
    }

    /// The textual listen-spec form of this endpoint:
    /// `[proto://]host:port/host:port`.
    pub open spec fn render(self) -> Seq<char> {
        (if self.protocol.len() == 0 {
            Seq::<char>::empty()
        } else {
            self.protocol + seq![':', '/', '/']
        }) + self.listening_address + seq![':'] + self.listening_port + seq!['/']
            + self.remote_address + seq![':'] + self.remote_port
    }
}

/// One normalized relay endpoint: where to listen, where to forward,
/// and over which protocol.  Ports are kept as decimal text to match the
/// upstream formatting needs of the relay engine.
pub struct RelayConfig {
    pub listening_address: String,
    pub listening_port: String,
    pub remote_address: String,
    pub remote_port: String,
    pub protocol: String,
}

impl View for RelayConfig {
    type V = EndpointModel;

    open spec fn view(&self) -> EndpointModel {
        EndpointModel {
            listening_address: self.listening_address@,
            listening_port: self.listening_port@,
            remote_address: self.remote_address@,
            remote_port: self.remote_port@,
            protocol: self.protocol@,
        }
    }
}

impl RelayConfig {
    /// An endpoint from the four address/port fields, with the empty
    /// (engine-default) protocol.
    pub fn new(ld: String, lp: String, rd: String, rp: String) -> (r: RelayConfig)
        ensures
            r@ == (EndpointModel {
                listening_address: ld@,
                listening_port: lp@,
                remote_address: rd@,
                remote_port: rp@,
                protocol: Seq::<char>::empty(),
            }),
    {
        let r = RelayConfig {
            listening_address: ld,
            listening_port: lp,
            remote_address: rd,
            remote_port: rp,
            protocol: String::new(),
        };
        assert(r@ =~= (EndpointModel {
            listening_address: r.listening_address@,
            listening_port: r.listening_port@,
            remote_address: r.remote_address@,
            remote_port: r.remote_port@,
            protocol: Seq::<char>::empty(),
        }));
        r
    }

    /// Reassemble the endpoint as a listen-spec string,
    /// `[proto://]host:port/host:port`.
    pub fn to_listen_spec(&self) -> (r: String)
        ensures
            r@ == self@.render(),
    {
        proof {
            reveal_strlit("://");
            reveal_strlit(":");
            reveal_strlit("/");
        }
        let mut s = String::new();
        if self.protocol.as_str().unicode_len() > 0 {
            s.append(self.protocol.as_str());
            s.append("://");
        }
        s.append(self.listening_address.as_str());
        s.append(":");
        s.append(self.listening_port.as_str());
        s.append("/");
        s.append(self.remote_address.as_str());
        s.append(":");
        s.append(self.remote_port.as_str());
        assert(s@ =~= self@.render());
        s
    }
}

impl Default for RelayConfig {
    /// The documented default endpoint: listen on the wildcard address, port
    /// 1080, and forward to 127.0.0.1:8080 with the engine-default protocol.
    fn default() -> (r: RelayConfig)
        ensures
            r@ == (EndpointModel {
                listening_address: wildcard_chars(),
                listening_port: seq!['1', '0', '8', '0'],
                remote_address: seq!['1', '2', '7', '.', '0', '.', '0', '.', '1'],
                remote_port: seq!['8', '0', '8', '0'],
                protocol: Seq::<char>::empty(),
            }),
            r@.wf(),
    {
        proof {
            reveal_strlit("0.0.0.0");
            reveal_strlit("1080");
            reveal_strlit("127.0.0.1");
            reveal_strlit("8080");
        }
        let r = RelayConfig {
            listening_address: String::from_str("0.0.0.0"),
            listening_port: String::from_str("1080"),
            remote_address: String::from_str("127.0.0.1"),
            remote_port: String::from_str("8080"),
            protocol: String::new(),
        };
        assert(r@ =~= (EndpointModel {
            listening_address: wildcard_chars(),
            listening_port: seq!['1', '0', '8', '0'],
            remote_address: seq!['1', '2', '7', '.', '0', '.', '0', '.', '1'],
            remote_port: seq!['8', '0', '8', '0'],
            protocol: Seq::<char>::empty(),
        }));
        r
    }
}

/// Spec-level image of a [`ConfigFile`]: the four lists as sequences of
/// character sequences.
#[verifier::ext_equal]
pub ghost struct ConfigFileModel {
    pub listening_addresses: Seq<Seq<char>>,
    pub listening_ports: Seq<Seq<char>>,
    pub remote_addresses: Seq<Seq<char>>,
    pub remote_ports: Seq<Seq<char>>,
}

/// The raw structured config file: four parallel ordered lists, where a port
/// entry may be a single number or a dash-delimited inclusive range.
pub struct ConfigFile {
    pub listening_addresses: Vec<String>,
    pub listening_ports: Vec<String>,
    pub remote_addresses: Vec<String>,
    pub remote_ports: Vec<String>,
}

impl View for ConfigFile {
    type V = ConfigFileModel;

    open spec fn view(&self) -> ConfigFileModel {
        ConfigFileModel {
            listening_addresses: self.listening_addresses.deep_view(),
            listening_ports: self.listening_ports.deep_view(),
            remote_addresses: self.remote_addresses.deep_view(),
            remote_ports: self.remote_ports.deep_view(),
        }
    }
}

/// The invocation context, captured once from the command line: the listen
/// specs (if any) and the config-file path (if any).  The two are mutually
/// exclusive; the arbiter rejects an invocation that supplies both.
pub struct Cli {
    pub listen: Option<Vec<String>>,
    pub config_file: Option<String>,
}

} // verus!
