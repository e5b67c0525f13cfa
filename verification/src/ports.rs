//! The port-range expander.
//!
//! A port token is either a single decimal number or an inclusive range
//! `N-M`.  A list of tokens is flattened in source order, each range
//! expanding to its ascending inclusive sequence; the first bad token aborts
//! the whole expansion.

use vstd::prelude::*;
use crate::digits::{parse_port, parse_port_spec};
use crate::errors::ConfigError;
use crate::scan::{find_char, first_char, lemma_first_char_spec};

verus! {

/// The ascending inclusive sequence of ports from `st` to `end`.
pub open spec fn port_range_seq(st: int, end: int) -> Seq<u16> {
    Seq::new((end - st + 1) as nat, |k: int| (st + k) as u16)
}

/// The meaning of one port token.
pub open spec fn expand_token_spec(t: Seq<char>) -> Result<Seq<u16>, ConfigError> {
    let d = first_char(t, '-');
    if d < 0 {
        match parse_port_spec(t) {
            Some(p) => Ok(seq![p]),
            None => Err(ConfigError::InvalidPortRange),
        }
    } else {
        let a = t.subrange(0, d);
        let b = t.subrange(d + 1, t.len() as int);
        if b.contains('-') {
            Err(ConfigError::InvalidPortRange)
        } else {
            match (parse_port_spec(a), parse_port_spec(b)) {
                (Some(st), Some(end)) => if st > end {
                    Err(ConfigError::PortRangeDescending)
                } else {
                    Ok(port_range_seq(st as int, end as int))
                },
                _ => Err(ConfigError::InvalidPortRange),
            }
        }
    }
}

/// Expand one port token.
fn expand_token(t: &str) -> (r: Result<Vec<u16>, ConfigError>)
    ensures
        match r {
            Ok(v) => expand_token_spec(t@) == Ok::<Seq<u16>, ConfigError>(v@),
            Err(e) => expand_token_spec(t@) == Err::<Seq<u16>, ConfigError>(e),
        },
{
    let n = t.unicode_len();
    match find_char(t, '-') {
        None => {
            match parse_port(t) {
                Some(p) => {
                    let v: Vec<u16> = vec![p];
                    assert(v@ =~= seq![p]);
                    Ok(v)
                },
                None => Err(ConfigError::InvalidPortRange),
            }
        },
        Some(d) => {
            proof {
                lemma_first_char_spec(t@, '-');
            }
            let a = t.substring_char(0, d);
            let b = t.substring_char(d + 1, n);
            let second_dash = find_char(b, '-');
            if second_dash.is_some() {
                proof {
                    lemma_first_char_spec(b@, '-');
                }
                Err(ConfigError::InvalidPortRange)
            } else {
                proof {
                    lemma_first_char_spec(b@, '-');
                }
                assert(first_char(b@, '-') < 0);
                assert(forall|j: int| 0 <= j < b@.len() ==> b@[j] != '-');
                assert(!t@.subrange(d as int + 1, t@.len() as int).contains('-'));
                match (parse_port(a), parse_port(b)) {
                    (Some(st), Some(end)) => {
                        if st > end {
                            Err(ConfigError::PortRangeDescending)
                        } else {
                            let mut out: Vec<u16> = Vec::new();
                            let mut p: u32 = st as u32;
                            while p <= end as u32
                                invariant
                                    st <= end,
                                    st as u32 <= p <= end as u32 + 1,
                                    out@.len() == p - st,
                                    forall|k: int|
                                        0 <= k < out@.len() ==> out@[k] == (st + k) as u16,
                                decreases end as u32 + 1 - p,
                            {
                                out.push(p as u16);
                                p = p + 1;
                            }
                            assert(out@ =~= port_range_seq(st as int, end as int));
                            Ok(out)
                        }
                    },
                    _ => Err(ConfigError::InvalidPortRange),
                }
            }
        },
    }
}

/// The meaning of the first `n` tokens of a list, flattened in order; the
/// first bad token's error wins.
pub open spec fn expand_ports_prefix(ts: Seq<Seq<char>>, n: int) -> Result<Seq<u16>, ConfigError>
    decreases n,
{
    if n <= 0 {
        Ok(Seq::<u16>::empty())
    } else {
        match expand_ports_prefix(ts, n - 1) {
            Err(e) => Err(e),
            Ok(acc) => match expand_token_spec(ts[n - 1]) {
                Err(e) => Err(e),
                Ok(h) => Ok(acc + h),
            },
        }
    }
}

/// The meaning of a whole port-token list.
pub open spec fn expand_ports_spec(ts: Seq<Seq<char>>) -> Result<Seq<u16>, ConfigError> {
    expand_ports_prefix(ts, ts.len() as int)
}

/// An error in a prefix settles the whole expansion.
pub proof fn lemma_expand_ports_prefix_err(ts: Seq<Seq<char>>, n: int, m: int)
    requires
        0 <= n <= m,
        expand_ports_prefix(ts, n) is Err,
    ensures
        expand_ports_prefix(ts, m) == expand_ports_prefix(ts, n),
    decreases m - n,
{
    if n < m {
        lemma_expand_ports_prefix_err(ts, n, m - 1);
    }
}

/// Flatten a list of port tokens into individual ports, in source order.
pub fn ports2individuals(ports: Vec<String>) -> (r: Result<Vec<u16>, ConfigError>)
    ensures
        match r {
            Ok(v) => expand_ports_spec(ports.deep_view()) == Ok::<Seq<u16>, ConfigError>(v@),
            Err(e) => expand_ports_spec(ports.deep_view()) == Err::<Seq<u16>, ConfigError>(e),
        },
{
    let ghost ts = ports.deep_view();
    let mut out: Vec<u16> = Vec::new();
    let mut i: usize = 0;
    while i < ports.len()
        invariant
            i <= ports.len(),
            ts == ports.deep_view(),
            expand_ports_prefix(ts, i as int) == Ok::<Seq<u16>, ConfigError>(out@),
        decreases ports.len() - i,
    {
        assert(ports[i as int]@ == ts[i as int]);
        match expand_token(ports[i].as_str()) {
            Ok(mut v) => {
                out.append(&mut v);
            },
            Err(e) => {
                proof {
                    assert(expand_ports_prefix(ts, i as int + 1) == Err::<
                        Seq<u16>,
                        ConfigError,
                    >(e));
                    lemma_expand_ports_prefix_err(ts, i as int + 1, ts.len() as int);
                }
                return Err(e);
            },
        }
        i = i + 1;
    }
    Ok(out)
}

} // verus!
