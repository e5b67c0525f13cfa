//! The general laws of the front-end, each proved once and for all inputs.

use vstd::prelude::*;
use crate::digits::{dec_chars, is_digit, lemma_dec_chars_value, parse_port_spec};
use crate::errors::ConfigError;
use crate::listen::{eq_ci_char, is_ci, parse_listen_spec_model, parse_rest_model};
use crate::model::{tcp_chars, udp_chars, wildcard_chars, EndpointModel};
use crate::ports::{expand_token_spec, port_range_seq};
use crate::scan::{
    first_char, first_sep, is_sep_at, last_char, lemma_first_char_spec, lemma_first_sep_spec,
    lemma_last_char_spec,
};

verus! {

/// The bind-and-remote half of a listen spec, assembled from its pieces.
pub open spec fn assemble_rest(
    h1: Seq<char>,
    p1: Seq<char>,
    h2: Seq<char>,
    p2: Seq<char>,
) -> Seq<char> {
    h1 + seq![':'] + p1 + seq!['/'] + h2 + seq![':'] + p2
}

/// A whole listen spec, with the protocol prefix when `p` is non-empty.
pub open spec fn assemble(
    p: Seq<char>,
    h1: Seq<char>,
    p1: Seq<char>,
    h2: Seq<char>,
    p2: Seq<char>,
) -> Seq<char> {
    if p.len() == 0 {
        assemble_rest(h1, p1, h2, p2)
    } else {
        p + seq![':', '/', '/'] + assemble_rest(h1, p1, h2, p2)
    }
}

/// Splitting an assembled bind-and-remote half recovers its pieces: the
/// first `/` is the part separator, the last `:` of each part is its
/// host/port separator, and an empty bind host becomes the wildcard.
proof fn lemma_parse_rest_shape(
    h1: Seq<char>,
    p1: Seq<char>,
    h2: Seq<char>,
    p2: Seq<char>,
    proto: Seq<char>,
)
    requires
        !h1.contains('/'),
        !p1.contains('/'),
        !p1.contains(':'),
        !h2.contains('/'),
        !p2.contains('/'),
        !p2.contains(':'),
    ensures
        parse_rest_model(assemble_rest(h1, p1, h2, p2), proto) == Ok::<EndpointModel, ConfigError>(
            EndpointModel {
                listening_address: if h1.len() == 0 {
                    wildcard_chars()
                } else {
                    h1
                },
                listening_port: p1,
                remote_address: h2,
                remote_port: p2,
                protocol: proto,
            },
        ),
{
    let bind = h1 + seq![':'] + p1;
    let rem = h2 + seq![':'] + p2;
    let rest = assemble_rest(h1, p1, h2, p2);
    assert(rest =~= bind + seq!['/'] + rem);
    let bl = bind.len() as int;

    // The only '/' of `rest` is the part separator.
    assert(rest[bl] == '/');
    assert forall|j: int| 0 <= j < rest.len() && j != bl implies rest[j] != '/' by {
        if j < bl {
            assert(rest[j] == bind[j]);
            if j < h1.len() {
                assert(bind[j] == h1[j]);
            } else if j == h1.len() {
                assert(bind[j] == ':');
            } else {
                assert(bind[j] == p1[j - h1.len() - 1]);
            }
        } else {
            assert(rest[j] == rem[j - bl - 1]);
            let k = j - bl - 1;
            if k < h2.len() {
                assert(rem[k] == h2[k]);
            } else if k == h2.len() {
                assert(rem[k] == ':');
            } else {
                assert(rem[k] == p2[k - h2.len() - 1]);
            }
        }
    }
    lemma_first_char_spec(rest, '/');
    assert(first_char(rest, '/') == bl);

    assert(rest.subrange(0, bl) =~= bind);
    assert(rest.subrange(bl + 1, rest.len() as int) =~= rem);

    // The last ':' of the bind part separates host from port.
    assert(bind[h1.len() as int] == ':');
    assert forall|j: int| h1.len() < j < bind.len() implies bind[j] != ':' by {
        assert(bind[j] == p1[j - h1.len() - 1]);
    }
    lemma_last_char_spec(bind, ':');
    assert(last_char(bind, ':') == h1.len());

    // The last ':' of the remote part separates host from port.
    assert(rem[h2.len() as int] == ':');
    assert forall|j: int| h2.len() < j < rem.len() implies rem[j] != ':' by {
        assert(rem[j] == p2[j - h2.len() - 1]);
    }
    lemma_last_char_spec(rem, ':');
    assert(last_char(rem, ':') == h2.len());

    assert(bind.subrange(0, h1.len() as int) =~= h1);
    assert(bind.subrange(h1.len() as int + 1, bind.len() as int) =~= p1);
    assert(rem.subrange(0, h2.len() as int) =~= h2);
    assert(rem.subrange(h2.len() as int + 1, rem.len() as int) =~= p2);

    let m = parse_rest_model(rest, proto);
    assert(m is Ok);
    assert(m->Ok_0 =~= (EndpointModel {
        listening_address: if h1.len() == 0 {
            wildcard_chars()
        } else {
            h1
        },
        listening_port: p1,
        remote_address: h2,
        remote_port: p2,
        protocol: proto,
    }));
}

/// Parsing an assembled listen spec recovers its pieces, for any protocol
/// token that matches `tcp` or `udp` ignoring case (stored lowercase) or is
/// absent (stored empty).
///
/// The side conditions are exactly what keeps the assembly unambiguous: no
/// piece before the part separator may contain `/`, and neither port may
/// contain `:` or `/` (a port must not swallow the host/port separator).
pub proof fn lemma_parse_assembled(
    p: Seq<char>,
    h1: Seq<char>,
    p1: Seq<char>,
    h2: Seq<char>,
    p2: Seq<char>,
)
    requires
        p.len() == 0 || is_ci(p, tcp_chars()) || is_ci(p, udp_chars()),
        !h1.contains('/'),
        !p1.contains('/'),
        !p1.contains(':'),
        !h2.contains('/'),
        !p2.contains('/'),
        !p2.contains(':'),
    ensures
        parse_listen_spec_model(assemble(p, h1, p1, h2, p2)) == Ok::<EndpointModel, ConfigError>(
            EndpointModel {
                listening_address: if h1.len() == 0 {
                    wildcard_chars()
                } else {
                    h1
                },
                listening_port: p1,
                remote_address: h2,
                remote_port: p2,
                protocol: if is_ci(p, tcp_chars()) {
                    tcp_chars()
                } else if is_ci(p, udp_chars()) {
                    udp_chars()
                } else {
                    Seq::<char>::empty()
                },
            },
        ),
{
    let rest = assemble_rest(h1, p1, h2, p2);
    let bind = h1 + seq![':'] + p1;
    let rem = h2 + seq![':'] + p2;
    assert(rest =~= bind + seq!['/'] + rem);
    let bl = bind.len() as int;
    let s = assemble(p, h1, p1, h2, p2);

    // '/' occurs in `rest` only at the part separator (as in the rest lemma).
    assert forall|j: int| 0 <= j < rest.len() && j != bl implies rest[j] != '/' by {
        if j < bl {
            assert(rest[j] == bind[j]);
            if j < h1.len() {
                assert(bind[j] == h1[j]);
            } else if j == h1.len() {
                assert(bind[j] == ':');
            } else {
                assert(bind[j] == p1[j - h1.len() - 1]);
            }
        } else {
            assert(rest[j] == rem[j - bl - 1]);
            let k = j - bl - 1;
            if k < h2.len() {
                assert(rem[k] == h2[k]);
            } else if k == h2.len() {
                assert(rem[k] == ':');
            } else {
                assert(rem[k] == p2[k - h2.len() - 1]);
            }
        }
    }

    if p.len() == 0 {
        assert(s == rest);
        // No `://` anywhere: it would need two adjacent '/', but `rest` has
        // only one '/' in all.
        lemma_first_sep_spec(s);
        if first_sep(s) >= 0 {
            let i = first_sep(s);
            assert(is_sep_at(s, i));
            assert(s[i + 1] == '/' && s[i + 2] == '/');
            assert(i + 1 == bl && i + 2 == bl);
            assert(false);
        }
        lemma_parse_rest_shape(h1, p1, h2, p2, Seq::<char>::empty());
    } else {
        assert(p.len() == 3);
        // The protocol token has no ':' or '/': each of its characters is a
        // known lowercase letter or an ASCII uppercase letter.
        assert forall|i: int| 0 <= i < 3 implies p[i] != ':' && p[i] != '/' by {
            if is_ci(p, tcp_chars()) {
                assert(eq_ci_char(p[i], tcp_chars()[i]));
            } else {
                assert(eq_ci_char(p[i], udp_chars()[i]));
            }
        }
        assert(s =~= p + seq![':', '/', '/'] + rest);
        assert(s[3] == ':' && s[4] == '/' && s[5] == '/');
        assert(is_sep_at(s, 3));
        lemma_first_sep_spec(s);
        assert(first_sep(s) >= 0);
        let fs = first_sep(s);
        assert(is_sep_at(s, fs));
        if fs < 3 {
            assert(s[fs] == p[fs]);
            assert(false);
        }
        assert(fs == 3);
        assert(s.subrange(0, 3) =~= p);
        assert(s.subrange(6, s.len() as int) =~= rest);
        if is_ci(p, tcp_chars()) {
            lemma_parse_rest_shape(h1, p1, h2, p2, tcp_chars());
        } else {
            lemma_parse_rest_shape(h1, p1, h2, p2, udp_chars());
        }
    }
}

/// A valid listen spec `p://h1:p1/h2:p2` with `p` matching `tcp` or `udp` in
/// any case parses to the lowercase protocol, `h1` (or the wildcard if `h1`
/// is empty), `p1`, `h2` and `p2`.
pub proof fn lemma_parse_with_protocol(
    p: Seq<char>,
    h1: Seq<char>,
    p1: Seq<char>,
    h2: Seq<char>,
    p2: Seq<char>,
)
    requires
        is_ci(p, tcp_chars()) || is_ci(p, udp_chars()),
        !h1.contains('/'),
        !p1.contains('/'),
        !p1.contains(':'),
        !h2.contains('/'),
        !p2.contains('/'),
        !p2.contains(':'),
    ensures
        parse_listen_spec_model(p + seq![':', '/', '/'] + assemble_rest(h1, p1, h2, p2)) == Ok::<
            EndpointModel,
            ConfigError,
        >(
            EndpointModel {
                listening_address: if h1.len() == 0 {
                    wildcard_chars()
                } else {
                    h1
                },
                listening_port: p1,
                remote_address: h2,
                remote_port: p2,
                protocol: if is_ci(p, tcp_chars()) {
                    tcp_chars()
                } else {
                    udp_chars()
                },
            },
        ),
{
    assert(p.len() == 3);
    lemma_parse_assembled(p, h1, p1, h2, p2);
    assert(assemble(p, h1, p1, h2, p2) == p + seq![':', '/', '/'] + assemble_rest(h1, p1, h2, p2));
}

/// A listen spec with no `://` parses the same way with an empty protocol.
pub proof fn lemma_parse_without_protocol(
    h1: Seq<char>,
    p1: Seq<char>,
    h2: Seq<char>,
    p2: Seq<char>,
)
    requires
        !h1.contains('/'),
        !p1.contains('/'),
        !p1.contains(':'),
        !h2.contains('/'),
        !p2.contains('/'),
        !p2.contains(':'),
    ensures
        parse_listen_spec_model(assemble_rest(h1, p1, h2, p2)) == Ok::<EndpointModel, ConfigError>(
            EndpointModel {
                listening_address: if h1.len() == 0 {
                    wildcard_chars()
                } else {
                    h1
                },
                listening_port: p1,
                remote_address: h2,
                remote_port: p2,
                protocol: Seq::<char>::empty(),
            },
        ),
{
    lemma_parse_assembled(Seq::<char>::empty(), h1, p1, h2, p2);
}

/// Round trip: re-parsing the textual representation of a produced endpoint
/// yields the same endpoint.
///
/// The side conditions mirror the assembly ambiguity: a field containing the
/// separator it is joined with (a `/` in an address or port before the part
/// separator, or a `:` in a port) cannot survive re-parsing, so such inputs
/// are excluded.  The protocol set and the non-empty bind address are the
/// normalized-endpoint invariant, which every parsed endpoint satisfies.
pub proof fn lemma_round_trip(m: EndpointModel)
    requires
        m.wf(),
        !m.listening_address.contains('/'),
        !m.listening_port.contains('/'),
        !m.listening_port.contains(':'),
        !m.remote_address.contains('/'),
        !m.remote_port.contains('/'),
        !m.remote_port.contains(':'),
    ensures
        parse_listen_spec_model(m.render()) == Ok::<EndpointModel, ConfigError>(m),
{
    lemma_parse_assembled(
        m.protocol,
        m.listening_address,
        m.listening_port,
        m.remote_address,
        m.remote_port,
    );
    if m.protocol == tcp_chars() {
        assert(is_ci(m.protocol, tcp_chars()));
        assert(!is_ci(m.protocol, udp_chars()));
    } else if m.protocol == udp_chars() {
        assert(is_ci(m.protocol, udp_chars()));
        assert(!is_ci(m.protocol, tcp_chars()));
    } else {
        assert(m.protocol.len() == 0);
    }
    assert(m.render() =~= assemble(
        m.protocol,
        m.listening_address,
        m.listening_port,
        m.remote_address,
        m.remote_port,
    ));
    let r = parse_listen_spec_model(m.render());
    assert(r is Ok);
    assert(r->Ok_0 =~= m);
}

/// Port-range expansion is order-preserving and inclusive: the canonical
/// text `N-M` expands to exactly the ascending ports `N..=M` when `N <= M`,
/// and fails as descending otherwise; a single number expands to itself.
pub proof fn lemma_range_expansion(st: u16, end: u16)
    ensures
        expand_token_spec(dec_chars(st as int) + seq!['-'] + dec_chars(end as int)) == (if st > end {
            Err::<Seq<u16>, ConfigError>(ConfigError::PortRangeDescending)
        } else {
            Ok::<Seq<u16>, ConfigError>(port_range_seq(st as int, end as int))
        }),
        st <= end ==> port_range_seq(st as int, end as int).len() == end - st + 1,
        st <= end ==> forall|k: int|
            0 <= k <= end - st ==> port_range_seq(st as int, end as int)[k] == st + k,
        expand_token_spec(dec_chars(st as int)) == Ok::<Seq<u16>, ConfigError>(seq![st]),
{
    let a = dec_chars(st as int);
    let b = dec_chars(end as int);
    lemma_dec_chars_value(st as int);
    lemma_dec_chars_value(end as int);
    let t = a + seq!['-'] + b;
    let al = a.len() as int;

    assert(t[al] == '-');
    assert forall|j: int| 0 <= j < t.len() && j != al implies t[j] != '-' by {
        if j < al {
            assert(t[j] == a[j]);
            assert(is_digit(a[j]));
        } else {
            assert(t[j] == b[j - al - 1]);
            assert(is_digit(b[j - al - 1]));
        }
    }
    lemma_first_char_spec(t, '-');
    assert(first_char(t, '-') == al);
    assert(t.subrange(0, al) =~= a);
    assert(t.subrange(al + 1, t.len() as int) =~= b);
    assert(!b.contains('-')) by {
        assert(forall|j: int| 0 <= j < b.len() ==> is_digit(b[j]));
    }
    assert(parse_port_spec(a) == Some(st));
    assert(parse_port_spec(b) == Some(end));

    // A single number: its text has no '-' at all.
    lemma_first_char_spec(a, '-');
    if first_char(a, '-') >= 0 {
        assert(is_digit(a[first_char(a, '-')]));
        assert(false);
    }
    assert(expand_token_spec(a) == Ok::<Seq<u16>, ConfigError>(seq![st]));
}

} // verus!
