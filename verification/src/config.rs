//! The declared configuration: per-chain settings, relayers and bridge
//! parameters, plus the endpoint registry that resolves a chain name to
//! connection parameters.

use vstd::prelude::*;
use crate::decimal::{dec_value, spec_parse_decimal, str_bytes};
use crate::errors::ErrorKind;

verus! {

/// Declared settings of one bridged chain.
#[derive(Clone, Debug, PartialEq, Eq)]
pub struct ChainConfig {
    /// Logical name of the chain.
    pub pbc_name: String,
    /// Primary (WebSocket) endpoint.
    pub pbc_endpoint: String,
    /// Secondary (HTTP/query) endpoint.
    pub http_endpoint: String,
    /// Bridged token address.
    pub token_address: String,
    /// Exchange rate as a decimal string.
    pub exchange_rate: String,
    /// Bridge contract address.
    pub bridge_address: String,
    /// Token decimal precision.
    pub decimals: u8,
}

/// Connection parameters of the hub chain.
#[derive(Clone, Debug, PartialEq, Eq)]
pub struct FlareChainConfig {
    pub endpoint: String,
    pub http_endpoint: String,
}

/// Global transfer parameters and per-chain confirmation depths.
#[derive(Clone, Debug, PartialEq, Eq)]
pub struct BridgeParameters {
    /// Largest allowed transfer, as a decimal string.
    pub max_transfer_amount: String,
    /// Smallest allowed transfer, as a decimal string.
    pub min_transfer_amount: String,
    /// Fee percentage, as a decimal string between 0 and 100.
    pub bridge_fee_percent: String,
    /// Required confirmation blocks per chain; an absent chain means 0.
    pub confirmation_blocks: Vec<(String, u32)>,
}

/// The whole declared configuration, loaded once and read-only thereafter.
#[derive(Clone, Debug, PartialEq, Eq)]
pub struct Config {
    pub operator: String,
    pub relayers: Vec<String>,
    pub chains: Vec<(String, ChainConfig)>,
    pub flarechain: FlareChainConfig,
    pub configuration: BridgeParameters,
}

/// String equality on views.
pub fn str_eq(a: &str, b: &str) -> (r: bool)
    ensures
        r == (a@ == b@),
{
    let sa: String = a.to_owned();
    let sb: String = b.to_owned();
    sa == sb
}

/// The first chain entry named `name`, if any.
pub open spec fn spec_find_chain(chains: Seq<(String, ChainConfig)>, name: Seq<char>) -> Option<
    ChainConfig,
>
    decreases chains.len(),
{
    if chains.len() == 0 {
        None
    } else if chains[0].0@ == name {
        Some(chains[0].1)
    } else {
        spec_find_chain(chains.drop_first(), name)
    }
}

/// The configuration declares a chain of this name.
pub open spec fn has_chain(c: Config, name: Seq<char>) -> bool {
    spec_find_chain(c.chains@, name) is Some
}

/// Chain names are pairwise distinct.
pub open spec fn unique_names(chains: Seq<(String, ChainConfig)>) -> bool {
    forall|i: int, j: int|
        0 <= i < j < chains.len() ==> (#[trigger] chains[i].0@) != (#[trigger] chains[j].0@)
}

/// Confirmation-block keys are pairwise distinct.
pub open spec fn unique_conf_keys(blocks: Seq<(String, u32)>) -> bool {
    forall|i: int, j: int|
        0 <= i < j < blocks.len() ==> (#[trigger] blocks[i].0@) != (#[trigger] blocks[j].0@)
}

/// The parsed (max, min, fee) triple of the bridge parameters, if all
/// three decimal strings parse.
pub open spec fn spec_params(p: BridgeParameters) -> Option<
    (crate::decimal::Decimal, crate::decimal::Decimal, crate::decimal::Decimal),
> {
    match (
        spec_parse_decimal(str_bytes(p.max_transfer_amount@)),
        spec_parse_decimal(str_bytes(p.min_transfer_amount@)),
        spec_parse_decimal(str_bytes(p.bridge_fee_percent@)),
    ) {
        (Some(mx), Some(mn), Some(fe)) => Some((mx, mn, fe)),
        _ => None,
    }
}

/// The bridge parameters are well formed: the amounts and the fee parse,
/// `max >= min > 0`, the fee is at most 100 percent and the
/// confirmation-block keys are unique.
pub open spec fn params_wf(p: BridgeParameters) -> bool {
    match spec_params(p) {
        None => false,
        Some((mx, mn, fe)) => dec_value(mn) > 0 && dec_value(mn) <= dec_value(mx) && dec_value(fe)
            <= 100 * 1_000_000_000 && unique_conf_keys(p.confirmation_blocks@),
    }
}

/// The whole configuration is well formed: chain names are unique, the
/// bridge parameters hold their invariant and every declared exchange
/// rate parses as a non-negative decimal.
pub open spec fn config_wf(c: Config) -> bool {
    &&& unique_names(c.chains@)
    &&& params_wf(c.configuration)
    &&& forall|i: int|
        0 <= i < c.chains@.len() ==> spec_parse_decimal(
            str_bytes((#[trigger] c.chains@[i]).1.exchange_rate@),
        ) is Some
}

/// Looks a chain up by name.
pub fn find_chain<'a>(c: &'a Config, name: &str) -> (r: Option<&'a ChainConfig>)
    ensures
        match r {
            Some(cc) => spec_find_chain(c.chains@, name@) == Some(*cc),
            None => spec_find_chain(c.chains@, name@) is None,
        },
{
    let n = c.chains.len();
    let mut i: usize = 0;
    proof {
        assert(c.chains@.skip(0) =~= c.chains@);
    }
    while i < n
        invariant
            i <= n == c.chains@.len(),
            spec_find_chain(c.chains@, name@) == spec_find_chain(c.chains@.skip(i as int), name@),
        decreases n - i,
    {
        proof {
            assert(c.chains@.skip(i as int)[0] == c.chains@[i as int]);
            assert(c.chains@.skip(i as int).drop_first() =~= c.chains@.skip(i as int + 1));
        }
        if str_eq(c.chains[i].0.as_str(), name) {
            return Some(&c.chains[i].1);
        }
        i = i + 1;
    }
    proof {
        assert(c.chains@.skip(n as int).len() == 0);
    }
    None
}

/// The confirmation depth declared for `name`, if any.
pub open spec fn spec_find_conf(blocks: Seq<(String, u32)>, name: Seq<char>) -> Option<u32>
    decreases blocks.len(),
{
    if blocks.len() == 0 {
        None
    } else if blocks[0].0@ == name {
        Some(blocks[0].1)
    } else {
        spec_find_conf(blocks.drop_first(), name)
    }
}

/// The confirmation depth for `name`; 0 (single confirmation) when the
/// chain is not listed.
pub open spec fn spec_conf_for(p: BridgeParameters, name: Seq<char>) -> u32 {
    match spec_find_conf(p.confirmation_blocks@, name) {
        Some(v) => v,
        None => 0,
    }
}

/// Looks the confirmation depth of a chain up, defaulting to 0.
pub fn confirmations_for(p: &BridgeParameters, name: &str) -> (r: u32)
    ensures
        r == spec_conf_for(*p, name@),
{
    let n = p.confirmation_blocks.len();
    let mut i: usize = 0;
    proof {
        assert(p.confirmation_blocks@.skip(0) =~= p.confirmation_blocks@);
    }
    while i < n
        invariant
            i <= n == p.confirmation_blocks@.len(),
            spec_find_conf(p.confirmation_blocks@, name@) == spec_find_conf(
                p.confirmation_blocks@.skip(i as int),
                name@,
            ),
        decreases n - i,
    {
        proof {
            assert(p.confirmation_blocks@.skip(i as int)[0] == p.confirmation_blocks@[i as int]);
            assert(p.confirmation_blocks@.skip(i as int).drop_first() =~= p.confirmation_blocks@.skip(
                i as int + 1,
            ));
        }
        if str_eq(p.confirmation_blocks[i].0.as_str(), name) {
            return p.confirmation_blocks[i].1;
        }
        i = i + 1;
    }
    proof {
        assert(p.confirmation_blocks@.skip(n as int).len() == 0);
    }
    0
}

/// What `spec_find_chain` returns: the entry of the first chain carrying
/// `name`.
pub proof fn lemma_find_chain_props(chains: Seq<(String, ChainConfig)>, name: Seq<char>)
    ensures
        match spec_find_chain(chains, name) {
            Some(cc) => exists|i: int|
                0 <= i < chains.len() && (#[trigger] chains[i]).0@ == name && chains[i].1 == cc,
            None => forall|i: int| 0 <= i < chains.len() ==> (#[trigger] chains[i].0@) != name,
        },
    decreases chains.len(),
{
    if chains.len() > 0 && chains[0].0@ != name {
        lemma_find_chain_props(chains.drop_first(), name);
        assert(forall|i: int|
            1 <= i < chains.len() ==> #[trigger] chains[i] == chains.drop_first()[i - 1]);
        if spec_find_chain(chains, name) is Some {
            let i = choose|i: int|
                0 <= i < chains.drop_first().len() && (#[trigger] chains.drop_first()[i]).0@ == name
                    && chains.drop_first()[i].1 == spec_find_chain(chains.drop_first(), name)
                    .unwrap();
            assert(chains[i + 1].0@ == name && chains[i + 1].1 == spec_find_chain(
                chains,
                name,
            ).unwrap());
        }
    }
}

/// Where the registry sends a command for `name`: the explicit override if
/// present and non-empty, otherwise the chain's declared primary endpoint.
/// (Meaningful when the chain exists; the hub endpoint stands in
/// otherwise, and resolution fails first.)
pub open spec fn spec_resolved(c: Config, name: Seq<char>, over: Option<String>) -> String {
    match spec_find_chain(c.chains@, name) {
        Some(cc) => match over {
            Some(o) => if o@.len() > 0 {
                o
            } else {
                cc.pbc_endpoint
            },
            None => cc.pbc_endpoint,
        },
        None => c.flarechain.endpoint,
    }
}

/// Endpoint resolution: the resolved endpoint, or `ChainNotFound` when
/// the chain is absent from the configuration.
pub open spec fn spec_resolve_endpoint(
    c: Config,
    name: Seq<char>,
    over: Option<String>,
) -> Result<String, ErrorKind> {
    if spec_find_chain(c.chains@, name) is Some {
        Ok(spec_resolved(c, name, over))
    } else {
        Err(ErrorKind::ChainNotFound)
    }
}

/// Resolves a chain name to the endpoint a connection will be opened
/// against. Pure function of the configuration; no side effects.
pub fn resolve_endpoint(c: &Config, name: &str, over: Option<&String>) -> (r: Result<
    String,
    ErrorKind,
>)
    ensures
        ({
            let so = match over {
                Some(o) => Some(*o),
                None => None::<String>,
            };
            r == spec_resolve_endpoint(*c, name@, so)
        }),
{
    match find_chain(c, name) {
        None => Err(ErrorKind::ChainNotFound),
        Some(cc) => match over {
            Some(o) => if o.as_str().is_empty() {
                Ok(cc.pbc_endpoint.clone())
            } else {
                Ok(o.clone())
            },
            None => Ok(cc.pbc_endpoint.clone()),
        },
    }
}

} // verus!
