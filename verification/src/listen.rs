//! The listen-spec parser.
//!
//! One compact string `[proto://][host]:port/host:port` becomes one
//! [`RelayConfig`].  The string is split on the first `://` (protocol), then
//! on the first `/` (bind part vs. remote part), and each part on its *last*
//! colon, so that a host may itself contain colons (bracketless IPv6-style
//! literals).  An empty bind host is normalized to the wildcard `0.0.0.0`.

use vstd::prelude::*;
use crate::errors::ConfigError;
use crate::model::{tcp_chars, udp_chars, wildcard_chars, EndpointModel, RelayConfig};
use crate::scan::{
    find_char, find_sep, first_char, first_sep, last_char, lemma_first_char_spec,
    lemma_first_sep_spec, lemma_last_char_spec, rfind_char,
};

verus! {

/// `a` equals the lowercase ASCII letter `b`, ignoring ASCII case.
pub open spec fn eq_ci_char(a: char, b: char) -> bool {
    a == b || ('A' <= a && a <= 'Z' && a as int + 32 == b as int)
}

/// `p` matches the lowercase word `w` ignoring ASCII case.
pub open spec fn is_ci(p: Seq<char>, w: Seq<char>) -> bool {
    p.len() == w.len() && (forall|i: int| 0 <= i < p.len() ==> eq_ci_char(p[i], w[i]))
}

/// The meaning of the part after the protocol: split on the first `/`, then
/// each side on its last `:`, and normalize an empty bind host.
pub open spec fn parse_rest_model(rest: Seq<char>, proto: Seq<char>) -> Result<
    EndpointModel,
    ConfigError,
> {
    let sl = first_char(rest, '/');
    if sl < 0 {
        Err(ConfigError::MalformedListenSpec)
    } else {
        let bind = rest.subrange(0, sl);
        let remote = rest.subrange(sl + 1, rest.len() as int);
        let bc = last_char(bind, ':');
        let rc = last_char(remote, ':');
        if bc < 0 || rc < 0 {
            Err(ConfigError::MalformedAddress)
        } else {
            let h = bind.subrange(0, bc);
            Ok(
                EndpointModel {
                    listening_address: if h.len() == 0 {
                        wildcard_chars()
                    } else {
                        h
                    },
                    listening_port: bind.subrange(bc + 1, bind.len() as int),
                    remote_address: remote.subrange(0, rc),
                    remote_port: remote.subrange(rc + 1, remote.len() as int),
                    protocol: proto,
                },
            )
        }
    }
}

/// The meaning of a whole listen spec: an optional case-insensitive protocol
/// before the first `://`, then the rest.
pub open spec fn parse_listen_spec_model(s: Seq<char>) -> Result<EndpointModel, ConfigError> {
    let ps = first_sep(s);
    if ps >= 0 {
        let p = s.subrange(0, ps);
        let rest = s.subrange(ps + 3, s.len() as int);
        if is_ci(p, tcp_chars()) {
            parse_rest_model(rest, tcp_chars())
        } else if is_ci(p, udp_chars()) {
            parse_rest_model(rest, udp_chars())
        } else {
            Err(ConfigError::InvalidProtocol)
        }
    } else {
        parse_rest_model(s, Seq::<char>::empty())
    }
}

/// Compare one character against a lowercase letter and its uppercase form.
fn char_eq_ci(a: char, lo: char, up: char) -> (r: bool)
    requires
        'A' <= up && up <= 'Z',
        lo as int == up as int + 32,
    ensures
        r == eq_ci_char(a, lo),
{
    a == lo || a == up
}

/// Does the token match `tcp`, ignoring ASCII case?
fn is_tcp_token(t: &str) -> (r: bool)
    ensures
        r == is_ci(t@, tcp_chars()),
{
    let n = t.unicode_len();
    if n != 3 {
        return false;
    }
    let r = char_eq_ci(t.get_char(0), 't', 'T') && char_eq_ci(t.get_char(1), 'c', 'C')
        && char_eq_ci(t.get_char(2), 'p', 'P');
    proof {
        if r {
            assert forall|i: int| 0 <= i < t@.len() implies eq_ci_char(t@[i], tcp_chars()[i]) by {
                if i == 0 {
                } else if i == 1 {
                } else {
                    assert(i == 2);
                }
            }
        } else {
            assert(!eq_ci_char(t@[0], tcp_chars()[0]) || !eq_ci_char(t@[1], tcp_chars()[1])
                || !eq_ci_char(t@[2], tcp_chars()[2]));
        }
    }
    r
}

/// Does the token match `udp`, ignoring ASCII case?
fn is_udp_token(t: &str) -> (r: bool)
    ensures
        r == is_ci(t@, udp_chars()),
{
    let n = t.unicode_len();
    if n != 3 {
        return false;
    }
    let r = char_eq_ci(t.get_char(0), 'u', 'U') && char_eq_ci(t.get_char(1), 'd', 'D')
        && char_eq_ci(t.get_char(2), 'p', 'P');
    proof {
        if r {
            assert forall|i: int| 0 <= i < t@.len() implies eq_ci_char(t@[i], udp_chars()[i]) by {
                if i == 0 {
                } else if i == 1 {
                } else {
                    assert(i == 2);
                }
            }
        } else {
            assert(!eq_ci_char(t@[0], udp_chars()[0]) || !eq_ci_char(t@[1], udp_chars()[1])
                || !eq_ci_char(t@[2], udp_chars()[2]));
        }
    }
    r
}

/// Parse everything after the protocol separator.
fn parse_rest(rest: &str, proto: &str) -> (r: Result<RelayConfig, ConfigError>)
    ensures
        match r {
            Ok(c) => parse_rest_model(rest@, proto@) == Ok::<EndpointModel, ConfigError>(c@),
            Err(e) => parse_rest_model(rest@, proto@) == Err::<EndpointModel, ConfigError>(e),
        },
{
    let n = rest.unicode_len();
    let slash = find_char(rest, '/');
    proof {
        lemma_first_char_spec(rest@, '/');
    }
    match slash {
        None => Err(ConfigError::MalformedListenSpec),
        Some(sl) => {
            let bind = rest.substring_char(0, sl);
            let remote = rest.substring_char(sl + 1, n);
            let bc = rfind_char(bind, ':');
            let rc = rfind_char(remote, ':');
            proof {
                lemma_last_char_spec(bind@, ':');
                lemma_last_char_spec(remote@, ':');
            }
            match (bc, rc) {
                (Some(bi), Some(ri)) => {
                    let bn = bind.unicode_len();
                    let rn = remote.unicode_len();
                    let host = bind.substring_char(0, bi);
                    let listening_address = if host.unicode_len() == 0 {
                        proof {
                            reveal_strlit("0.0.0.0");
                        }
                        let w = String::from_str("0.0.0.0");
                        assert(w@ =~= wildcard_chars());
                        w
                    } else {
                        host.to_owned()
                    };
                    let c = RelayConfig {
                        listening_address,
                        listening_port: bind.substring_char(bi + 1, bn).to_owned(),
                        remote_address: remote.substring_char(0, ri).to_owned(),
                        remote_port: remote.substring_char(ri + 1, rn).to_owned(),
                        protocol: proto.to_owned(),
                    };
                    proof {
                        let m = parse_rest_model(rest@, proto@);
                        assert(m is Ok);
                        assert(m->Ok_0 =~= c@);
                    }
                    Ok(c)
                },
                _ => Err(ConfigError::MalformedAddress),
            }
        },
    }
}

/// Parse one listen spec into one endpoint, or fail with the specific defect.
///
/// The result is exactly [`parse_listen_spec_model`] of the input text: the
/// protocol (if a `://` is present) must match `tcp` or `udp` ignoring case
/// and is stored lowercase, the rest splits into bind and remote parts on the
/// first `/`, each part splits on its last `:`, and an empty bind host
/// becomes `0.0.0.0`.
pub fn parse_listen_spec(s: &str) -> (r: Result<RelayConfig, ConfigError>)
    ensures
        match r {
            Ok(c) => parse_listen_spec_model(s@) == Ok::<EndpointModel, ConfigError>(c@)
                && c@.wf(),
            Err(e) => parse_listen_spec_model(s@) == Err::<EndpointModel, ConfigError>(e),
        },
{
    let n = s.unicode_len();
    let sep = find_sep(s);
    proof {
        lemma_first_sep_spec(s@);
    }
    let r = match sep {
        Some(i) => {
            let p = s.substring_char(0, i);
            let rest = s.substring_char(i + 3, n);
            if is_tcp_token(p) {
                proof {
                    reveal_strlit("tcp");
                }
                let proto = "tcp";
                assert(proto@ =~= tcp_chars());
                parse_rest(rest, proto)
            } else if is_udp_token(p) {
                proof {
                    reveal_strlit("udp");
                }
                let proto = "udp";
                assert(proto@ =~= udp_chars());
                parse_rest(rest, proto)
            } else {
                Err(ConfigError::InvalidProtocol)
            }
        },
        None => {
            proof {
                reveal_strlit("");
            }
            let proto = "";
            assert(proto@ =~= Seq::<char>::empty());
            parse_rest(s, proto)
        },
    };
    proof {
        if r is Ok {
            lemma_parse_model_wf(s@);
        }
    }
    r
}

/// A successfully parsed endpoint is well-formed: its protocol is from the
/// fixed set and its bind address is non-empty.
pub proof fn lemma_parse_model_wf(s: Seq<char>)
    requires
        parse_listen_spec_model(s) is Ok,
    ensures
        parse_listen_spec_model(s)->Ok_0.wf(),
{
    let ps = first_sep(s);
    if ps >= 0 {
        let p = s.subrange(0, ps);
        let rest = s.subrange(ps + 3, s.len() as int);
        if is_ci(p, tcp_chars()) {
            lemma_parse_rest_model_wf(rest, tcp_chars());
        } else if is_ci(p, udp_chars()) {
            lemma_parse_rest_model_wf(rest, udp_chars());
        }
    } else {
        lemma_parse_rest_model_wf(s, Seq::<char>::empty());
    }
}

proof fn lemma_parse_rest_model_wf(rest: Seq<char>, proto: Seq<char>)
    requires
        parse_rest_model(rest, proto) is Ok,
        crate::model::valid_protocol(proto),
    ensures
        parse_rest_model(rest, proto)->Ok_0.wf(),
{
    assert(wildcard_chars().len() == 7);
}

} // verus!
