//! The config-list aligner.
//!
//! Four parallel lists (addresses and expanded ports for the bind and remote
//! sides) become one endpoint per expanded listening port.  A list shorter
//! than that count falls back to its first element (broadcast); this is
//! deliberately lenient — mismatched lengths are not an error, the first
//! remote endpoint simply repeats.  An empty list has no first element to
//! fall back to, so every list must be non-empty.

use vstd::prelude::*;
use crate::digits::{dec_chars, u16_to_string};
use crate::errors::ConfigError;
use crate::model::{ConfigFile, EndpointModel, RelayConfig};
use crate::ports::{expand_ports_spec, ports2individuals};

verus! {

/// The element used at slot `i`: the list's own, or its first as fallback.
pub open spec fn pick_str(xs: Seq<Seq<char>>, i: int) -> Seq<char> {
    if i < xs.len() {
        xs[i]
    } else {
        xs[0]
    }
}

/// The port used at slot `i`: the list's own, or its first as fallback.
pub open spec fn pick_port(xs: Seq<u16>, i: int) -> u16 {
    if i < xs.len() {
        xs[i]
    } else {
        xs[0]
    }
}

/// The meaning of alignment: one endpoint per expanded listening port, every
/// field broadcast from its list, ports rendered as decimal text, and the
/// protocol left empty (the structured file carries no protocol column).
pub open spec fn align_model(
    la: Seq<Seq<char>>,
    lp: Seq<u16>,
    ra: Seq<Seq<char>>,
    rp: Seq<u16>,
) -> Seq<EndpointModel> {
    Seq::new(
        lp.len(),
        |i: int|
            EndpointModel {
                listening_address: pick_str(la, i),
                listening_port: dec_chars(pick_port(lp, i) as int),
                remote_address: pick_str(ra, i),
                remote_port: dec_chars(pick_port(rp, i) as int),
                protocol: Seq::<char>::empty(),
            },
    )
}

/// Pick the slot-`i` element of an address list, falling back to its first.
fn pick_address(xs: &Vec<String>, i: usize) -> (r: String)
    requires
        xs@.len() > 0,
    ensures
        r@ == pick_str(xs.deep_view(), i as int),
{
    if i < xs.len() {
        xs[i].clone()
    } else {
        xs[0].clone()
    }
}

/// Pick the slot-`i` element of a port list, falling back to its first.
fn pick_port_at(xs: &Vec<u16>, i: usize) -> (r: u16)
    requires
        xs@.len() > 0,
    ensures
        r == pick_port(xs@, i as int),
{
    if i < xs.len() {
        xs[i]
    } else {
        xs[0]
    }
}

/// Align the four lists into one endpoint per expanded listening port.
///
/// Fails with `EmptyConfigList` exactly when one of the four lists is empty;
/// otherwise the result is exactly [`align_model`] of the inputs.
pub fn align_lists(
    listening_addresses: &Vec<String>,
    listening_ports: &Vec<u16>,
    remote_addresses: &Vec<String>,
    remote_ports: &Vec<u16>,
) -> (r: Result<Vec<RelayConfig>, ConfigError>)
    ensures
        match r {
            Ok(v) => listening_addresses@.len() > 0 && listening_ports@.len() > 0
                && remote_addresses@.len() > 0 && remote_ports@.len() > 0 && v@.map_values(
                |c: RelayConfig| c@,
            ) == align_model(
                listening_addresses.deep_view(),
                listening_ports@,
                remote_addresses.deep_view(),
                remote_ports@,
            ),
            Err(e) => e == ConfigError::EmptyConfigList && (listening_addresses@.len() == 0
                || listening_ports@.len() == 0 || remote_addresses@.len() == 0
                || remote_ports@.len() == 0),
        },
{
    if listening_addresses.len() == 0 || listening_ports.len() == 0 || remote_addresses.len() == 0
        || remote_ports.len() == 0 {
        return Err(ConfigError::EmptyConfigList);
    }
    let ghost model = align_model(
        listening_addresses.deep_view(),
        listening_ports@,
        remote_addresses.deep_view(),
        remote_ports@,
    );
    let total = listening_ports.len();
    let mut out: Vec<RelayConfig> = Vec::new();
    let mut i: usize = 0;
    while i < total
        invariant
            total == listening_ports@.len(),
            listening_addresses@.len() > 0,
            listening_ports@.len() > 0,
            remote_addresses@.len() > 0,
            remote_ports@.len() > 0,
            model == align_model(
                listening_addresses.deep_view(),
                listening_ports@,
                remote_addresses.deep_view(),
                remote_ports@,
            ),
            i <= total,
            out@.len() == i,
            forall|k: int| 0 <= k < i ==> out@[k]@ == model[k],
        decreases total - i,
    {
        let ld = pick_address(listening_addresses, i);
        let lp = pick_port_at(listening_ports, i);
        let rd = pick_address(remote_addresses, i);
        let rp = pick_port_at(remote_ports, i);
        let c = RelayConfig::new(ld, u16_to_string(lp), rd, u16_to_string(rp));
        assert(c@ =~= model[i as int]);
        out.push(c);
        i = i + 1;
    }
    assert(out@.map_values(|c: RelayConfig| c@) =~= model);
    Ok(out)
}

/// The meaning of loading a structured config file: expand both port lists
/// (listening first), then align.
pub open spec fn load_config_model(f: crate::model::ConfigFileModel) -> Result<
    Seq<EndpointModel>,
    ConfigError,
> {
    match expand_ports_spec(f.listening_ports) {
        Err(e) => Err(e),
        Ok(lp) => match expand_ports_spec(f.remote_ports) {
            Err(e) => Err(e),
            Ok(rp) => if f.listening_addresses.len() == 0 || lp.len() == 0
                || f.remote_addresses.len() == 0 || rp.len() == 0 {
                Err(ConfigError::EmptyConfigList)
            } else {
                Ok(align_model(f.listening_addresses, lp, f.remote_addresses, rp))
            },
        },
    }
}

/// Turn the four lists of a config file into the endpoint list: expand every
/// port-range token in file order, then align with broadcast fallback.
pub fn load_config(config: ConfigFile) -> (r: Result<Vec<RelayConfig>, ConfigError>)
    ensures
        match r {
            Ok(v) => load_config_model(config@) == Ok::<Seq<EndpointModel>, ConfigError>(
                v@.map_values(|c: RelayConfig| c@),
            ),
            Err(e) => load_config_model(config@) == Err::<Seq<EndpointModel>, ConfigError>(e),
        },
{
    let listening_addresses = config.listening_addresses;
    let remote_addresses = config.remote_addresses;
    let listening_ports = match ports2individuals(config.listening_ports) {
        Ok(v) => v,
        Err(e) => {
            return Err(e);
        },
    };
    let remote_ports = match ports2individuals(config.remote_ports) {
        Ok(v) => v,
        Err(e) => {
            return Err(e);
        },
    };
    align_lists(&listening_addresses, &listening_ports, &remote_addresses, &remote_ports)
}

} // verus!
