//! The source arbiter.
//!
//! The invocation context supplies either listen-spec strings or a config
//! file — never both.  The arbiter enforces that exclusivity, routes each
//! listen spec through the parser (fail-fast: the first bad spec aborts the
//! whole parse), routes a config file through the expander and aligner, and
//! treats a missing source as a fatal error (no hard-coded default endpoint:
//! that fork is resolved here, deliberately, in favour of failing).

use vstd::prelude::*;
use crate::align::{load_config, load_config_model};
use crate::errors::ConfigError;
use crate::listen::{parse_listen_spec, parse_listen_spec_model};
use crate::model::{Cli, ConfigFile, ConfigFileModel, EndpointModel, RelayConfig};

verus! {

/// The meaning of parsing the first `n` listen specs in order; the first bad
/// spec's error wins.
pub open spec fn parse_specs_prefix(ss: Seq<Seq<char>>, n: int) -> Result<
    Seq<EndpointModel>,
    ConfigError,
> decreases n {
    if n <= 0 {
        Ok(Seq::<EndpointModel>::empty())
    } else {
        match parse_specs_prefix(ss, n - 1) {
            Err(e) => Err(e),
            Ok(acc) => match parse_listen_spec_model(ss[n - 1]) {
                Err(e) => Err(e),
                Ok(m) => Ok(acc.push(m)),
            },
        }
    }
}

/// The meaning of parsing a whole list of listen specs.
pub open spec fn parse_specs_spec(ss: Seq<Seq<char>>) -> Result<Seq<EndpointModel>, ConfigError> {
    parse_specs_prefix(ss, ss.len() as int)
}

/// An error in a prefix settles the whole parse.
pub proof fn lemma_parse_specs_prefix_err(ss: Seq<Seq<char>>, n: int, m: int)
    requires
        0 <= n <= m,
        parse_specs_prefix(ss, n) is Err,
    ensures
        parse_specs_prefix(ss, m) == parse_specs_prefix(ss, n),
    decreases m - n,
{
    if n < m {
        lemma_parse_specs_prefix_err(ss, n, m - 1);
    }
}

/// Parse every listen spec in order, aborting at the first failure.
pub fn parse_listen_specs(specs: &Vec<String>) -> (r: Result<Vec<RelayConfig>, ConfigError>)
    ensures
        match r {
            Ok(v) => parse_specs_spec(specs.deep_view()) == Ok::<Seq<EndpointModel>, ConfigError>(
                v@.map_values(|c: RelayConfig| c@),
            ),
            Err(e) => parse_specs_spec(specs.deep_view()) == Err::<Seq<EndpointModel>, ConfigError>(
                e,
            ),
        },
{
    let ghost ss = specs.deep_view();
    let mut out: Vec<RelayConfig> = Vec::new();
    assert(out@.map_values(|c: RelayConfig| c@) =~= Seq::<EndpointModel>::empty());
    let mut i: usize = 0;
    while i < specs.len()
        invariant
            i <= specs.len(),
            ss == specs.deep_view(),
            out@.len() == i,
            parse_specs_prefix(ss, i as int) == Ok::<Seq<EndpointModel>, ConfigError>(
                out@.map_values(|c: RelayConfig| c@),
            ),
        decreases specs.len() - i,
    {
        assert(specs[i as int]@ == ss[i as int]);
        match parse_listen_spec(specs[i].as_str()) {
            Ok(c) => {
                let ghost before = out@.map_values(|c: RelayConfig| c@);
                out.push(c);
                assert(out@.map_values(|c: RelayConfig| c@) =~= before.push(c@));
            },
            Err(e) => {
                proof {
                    assert(parse_specs_prefix(ss, i as int + 1) == Err::<
                        Seq<EndpointModel>,
                        ConfigError,
                    >(e));
                    lemma_parse_specs_prefix_err(ss, i as int + 1, ss.len() as int);
                }
                return Err(e);
            },
        }
        i = i + 1;
    }
    Ok(out)
}

/// The listen specs of the invocation context, as sequences of characters.
pub open spec fn cli_listen_model(cli: Cli) -> Option<Seq<Seq<char>>> {
    match cli.listen {
        Some(v) => Some(v.deep_view()),
        None => None,
    }
}

/// The config file handed to the arbiter, as its spec-level model.
pub open spec fn file_model(file: Option<ConfigFile>) -> Option<ConfigFileModel> {
    match file {
        Some(f) => Some(f@),
        None => None,
    }
}

/// The meaning of the whole arbitration: reject conflicting sources, then
/// route to the config-file path (where a missing file content means the
/// collaborator could not read it) or to the listen-spec path, and reject an
/// invocation with no usable source.
pub open spec fn parse_arguments_model(
    listen: Option<Seq<Seq<char>>>,
    has_config: bool,
    file: Option<ConfigFileModel>,
) -> Result<Seq<EndpointModel>, ConfigError> {
    if listen is Some && has_config {
        Err(ConfigError::ConflictingListenSources)
    } else if has_config {
        match file {
            Some(f) => load_config_model(f),
            None => Err(ConfigError::FileReadError),
        }
    } else if listen is Some {
        if listen->0.len() == 0 {
            Err(ConfigError::MissingListenSource)
        } else {
            parse_specs_spec(listen->0)
        }
    } else {
        Err(ConfigError::MissingListenSource)
    }
}

/// Decide between the two mutually exclusive listen sources and produce the
/// endpoint list.
///
/// `file` is the content of the config file named by `cli.config_file`, read
/// by the caller; `None` there means the file could not be read.  The result
/// is exactly [`parse_arguments_model`]: both sources at once are rejected
/// before any parsing, and an invocation with neither (or with an empty
/// listen-spec list) fails with `MissingListenSource`.
pub fn parse_arguments(cli: Cli, file: Option<ConfigFile>) -> (r: Result<
    Vec<RelayConfig>,
    ConfigError,
>)
    ensures
        match r {
            Ok(v) => parse_arguments_model(
                cli_listen_model(cli),
                cli.config_file is Some,
                file_model(file),
            ) == Ok::<Seq<EndpointModel>, ConfigError>(v@.map_values(|c: RelayConfig| c@)),
            Err(e) => parse_arguments_model(
                cli_listen_model(cli),
                cli.config_file is Some,
                file_model(file),
            ) == Err::<Seq<EndpointModel>, ConfigError>(e),
        },
{
    let has_listen = cli.listen.is_some();
    if cli.config_file.is_some() {
        if has_listen {
            return Err(ConfigError::ConflictingListenSources);
        }
        match file {
            Some(f) => load_config(f),
            None => Err(ConfigError::FileReadError),
        }
    } else {
        match cli.listen {
            Some(specs) => {
                if specs.len() == 0 {
                    return Err(ConfigError::MissingListenSource);
                }
                parse_listen_specs(&specs)
            },
            None => Err(ConfigError::MissingListenSource),
        }
    }
}

} // verus!
