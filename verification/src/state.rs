//! The observed on-chain bridge state of one chain, and the meaning of
//! each configuration operation against it.
//!
//! Every operation is an idempotent "set": applying it twice leaves the
//! same state as applying it once, so a re-run after a crash is safe.

use vstd::prelude::*;
use vstd::string::StringSliceAdditionalSpecFns;
use crate::config::{str_eq, ChainConfig};
use crate::decimal::{
    dec_le, dec_positive, dec_value, dec_wf, parse_decimal, parse_u32, spec_parse_decimal,
    spec_parse_u32, str_bytes, Decimal,
};
use crate::errors::ErrorKind;

verus! {

/// The token mapping observed (or to be set) on a chain.
#[derive(Clone, Debug, PartialEq, Eq)]
pub struct TokenMapping {
    pub token_address: String,
    pub exchange_rate: Decimal,
    pub bridge_address: String,
    pub decimals: u8,
}

/// The transfer parameters observed (or to be set) on a chain.
#[derive(Clone, Copy, Debug, PartialEq, Eq, Structural)]
pub struct OnChainParams {
    pub max_amount: Decimal,
    pub min_amount: Decimal,
    pub fee_percent: Decimal,
    pub confirmations: u32,
}

/// The whole observed bridge state of one chain.
#[derive(Clone, Debug, PartialEq, Eq)]
pub struct ChainState {
    /// The current token mapping; absent on a freshly deployed bridge.
    pub mapping: Option<TokenMapping>,
    /// The registered relayer identities.
    pub relayers: Vec<String>,
    /// The current transfer parameters.
    pub params: OnChainParams,
}

/// The mapping that a declared chain configuration pushes, once its
/// exchange rate has parsed to `rate`.
pub open spec fn spec_mapping_of(cfg: ChainConfig, rate: Decimal) -> TokenMapping {
    TokenMapping {
        token_address: cfg.token_address,
        exchange_rate: rate,
        bridge_address: cfg.bridge_address,
        decimals: cfg.decimals,
    }
}

/// The state after pushing the declared mapping: a plain set, leaving
/// relayers and parameters untouched.
pub open spec fn spec_apply_mapping(s: ChainState, cfg: ChainConfig, rate: Decimal) -> ChainState {
    ChainState { mapping: Some(spec_mapping_of(cfg, rate)), relayers: s.relayers, params: s.params }
}

/// Pushes the declared mapping onto a chain state.
pub fn apply_mapping(s: ChainState, cfg: &ChainConfig, rate: Decimal) -> (r: ChainState)
    ensures
        r == spec_apply_mapping(s, *cfg, rate),
{
    ChainState {
        mapping: Some(
            TokenMapping {
                token_address: cfg.token_address.clone(),
                exchange_rate: rate,
                bridge_address: cfg.bridge_address.clone(),
                decimals: cfg.decimals,
            },
        ),
        relayers: s.relayers,
        params: s.params,
    }
}

/// Applying the same mapping twice yields the same state as applying it
/// once: the push is an idempotent set, not an increment.
pub proof fn lemma_apply_mapping_idempotent(s: ChainState, cfg: ChainConfig, rate: Decimal)
    ensures
        spec_apply_mapping(spec_apply_mapping(s, cfg, rate), cfg, rate) == spec_apply_mapping(
            s,
            cfg,
            rate,
        ),
{
}

/// A validated parameter update, ready for submission.
#[derive(Clone, Copy, Debug, PartialEq, Eq, Structural)]
pub enum ParamUpdate {
    MaxAmount(Decimal),
    MinAmount(Decimal),
    Fee(Decimal),
    Confirmations(u32),
}

/// The parameters after an update: the named field is set, the rest kept.
pub open spec fn spec_apply_param(p: OnChainParams, u: ParamUpdate) -> OnChainParams {
    match u {
        ParamUpdate::MaxAmount(d) => OnChainParams { max_amount: d, ..p },
        ParamUpdate::MinAmount(d) => OnChainParams { min_amount: d, ..p },
        ParamUpdate::Fee(d) => OnChainParams { fee_percent: d, ..p },
        ParamUpdate::Confirmations(n) => OnChainParams { confirmations: n, ..p },
    }
}

/// Sets one parameter field.
pub fn apply_param(p: OnChainParams, u: ParamUpdate) -> (r: OnChainParams)
    ensures
        r == spec_apply_param(p, u),
{
    match u {
        ParamUpdate::MaxAmount(d) => OnChainParams { max_amount: d, ..p },
        ParamUpdate::MinAmount(d) => OnChainParams { min_amount: d, ..p },
        ParamUpdate::Fee(d) => OnChainParams { fee_percent: d, ..p },
        ParamUpdate::Confirmations(n) => OnChainParams { confirmations: n, ..p },
    }
}

/// Setting the same parameter twice yields the same parameters as setting
/// it once.
pub proof fn lemma_apply_param_idempotent(p: OnChainParams, u: ParamUpdate)
    ensures
        spec_apply_param(spec_apply_param(p, u), u) == spec_apply_param(p, u),
{
}

/// How `update-parameter` validates its name and value, locally and
/// before any network attempt: an unrecognized name is `InvalidParameter`;
/// a value that does not parse for the given name, a non-positive amount,
/// or a fee above 100 percent is `InvalidValue`.
pub open spec fn spec_validate_parameter(name: Seq<char>, value: Seq<u8>) -> Result<
    ParamUpdate,
    ErrorKind,
> {
    if name == "max-amount"@ {
        match spec_parse_decimal(value) {
            Some(d) => if dec_value(d) > 0 {
                Ok(ParamUpdate::MaxAmount(d))
            } else {
                Err(ErrorKind::InvalidValue)
            },
            None => Err(ErrorKind::InvalidValue),
        }
    } else if name == "min-amount"@ {
        match spec_parse_decimal(value) {
            Some(d) => if dec_value(d) > 0 {
                Ok(ParamUpdate::MinAmount(d))
            } else {
                Err(ErrorKind::InvalidValue)
            },
            None => Err(ErrorKind::InvalidValue),
        }
    } else if name == "fee"@ {
        match spec_parse_decimal(value) {
            Some(d) => if dec_value(d) <= 100 * 1_000_000_000 {
                Ok(ParamUpdate::Fee(d))
            } else {
                Err(ErrorKind::InvalidValue)
            },
            None => Err(ErrorKind::InvalidValue),
        }
    } else if name == "confirmations"@ {
        match spec_parse_u32(value) {
            Some(n) => Ok(ParamUpdate::Confirmations(n)),
            None => Err(ErrorKind::InvalidValue),
        }
    } else {
        Err(ErrorKind::InvalidParameter)
    }
}

/// Validates an `update-parameter` name and value. Pure and local: no
/// network attempt is involved, and a failure here is never submitted.
pub fn validate_parameter(name: &str, value: &str) -> (r: Result<ParamUpdate, ErrorKind>)
    ensures
        r == spec_validate_parameter(name@, value.spec_bytes()),
{
    let hundred = Decimal { units: 100, nanos: 0 };
    if str_eq(name, "max-amount") {
        match parse_decimal(value) {
            Some(d) => if dec_positive(&d) {
                Ok(ParamUpdate::MaxAmount(d))
            } else {
                Err(ErrorKind::InvalidValue)
            },
            None => Err(ErrorKind::InvalidValue),
        }
    } else if str_eq(name, "min-amount") {
        match parse_decimal(value) {
            Some(d) => if dec_positive(&d) {
                Ok(ParamUpdate::MinAmount(d))
            } else {
                Err(ErrorKind::InvalidValue)
            },
            None => Err(ErrorKind::InvalidValue),
        }
    } else if str_eq(name, "fee") {
        match parse_decimal(value) {
            Some(d) => if dec_le(&d, &hundred) {
                Ok(ParamUpdate::Fee(d))
            } else {
                Err(ErrorKind::InvalidValue)
            },
            None => Err(ErrorKind::InvalidValue),
        }
    } else if str_eq(name, "confirmations") {
        match parse_u32(value) {
            Some(n) => Ok(ParamUpdate::Confirmations(n)),
            None => Err(ErrorKind::InvalidValue),
        }
    } else {
        Err(ErrorKind::InvalidParameter)
    }
}

/// What a read-only query asks for.
#[derive(Clone, Copy, Debug, PartialEq, Eq, Structural)]
pub enum QueryKind {
    TokenMapping,
    Relayers,
    Parameters,
    All,
}

/// The result of a query: each sub-field is populated exactly when the
/// kind asks for it; `All` populates all three.
#[derive(Clone, Debug, PartialEq, Eq)]
pub struct QueryResult {
    pub mapping: Option<Option<TokenMapping>>,
    pub relayers: Option<Vec<String>>,
    pub params: Option<OnChainParams>,
}

/// The query result read from a state.
pub open spec fn spec_query(s: ChainState, kind: QueryKind) -> QueryResult {
    QueryResult {
        mapping: if kind == QueryKind::TokenMapping || kind == QueryKind::All {
            Some(s.mapping)
        } else {
            None
        },
        relayers: if kind == QueryKind::Relayers || kind == QueryKind::All {
            Some(s.relayers)
        } else {
            None
        },
        params: if kind == QueryKind::Parameters || kind == QueryKind::All {
            Some(s.params)
        } else {
            None
        },
    }
}

/// Equality of query results up to relayer-list contents (a freshly
/// built relayer list is compared by its elements).
pub open spec fn query_eq(a: QueryResult, b: QueryResult) -> bool {
    &&& a.mapping == b.mapping
    &&& a.params == b.params
    &&& match (a.relayers, b.relayers) {
        (Some(x), Some(y)) => x@ == y@,
        (None, None) => true,
        _ => false,
    }
}

/// An exact copy of a token mapping.
fn clone_token_mapping(m: &TokenMapping) -> (r: TokenMapping)
    ensures
        r == *m,
{
    TokenMapping {
        token_address: m.token_address.clone(),
        exchange_rate: m.exchange_rate,
        bridge_address: m.bridge_address.clone(),
        decimals: m.decimals,
    }
}

/// A copy of the relayer list with the same elements.
fn clone_relayers(v: &Vec<String>) -> (r: Vec<String>)
    ensures
        r@ == v@,
{
    let mut r: Vec<String> = Vec::new();
    let n = v.len();
    let mut i: usize = 0;
    while i < n
        invariant
            i <= n == v@.len(),
            r@.len() == i as int,
            forall|k: int| 0 <= k < i as int ==> #[trigger] r@[k] == v@[k],
        decreases n - i,
    {
        r.push(v[i].clone());
        i = i + 1;
    }
    proof {
        assert(r@ =~= v@);
    }
    r
}

/// Reads the requested parts of a chain state. Never mutates it.
pub fn query_state(s: &ChainState, kind: QueryKind) -> (r: QueryResult)
    ensures
        query_eq(r, spec_query(*s, kind)),
{
    let want_mapping = matches!(kind, QueryKind::TokenMapping | QueryKind::All);
    let want_relayers = matches!(kind, QueryKind::Relayers | QueryKind::All);
    let want_params = matches!(kind, QueryKind::Parameters | QueryKind::All);
    QueryResult {
        mapping: if want_mapping {
            Some(
                match &s.mapping {
                    Some(m) => Some(clone_token_mapping(m)),
                    None => None,
                },
            )
        } else {
            None
        },
        relayers: if want_relayers {
            Some(clone_relayers(&s.relayers))
        } else {
            None
        },
        params: if want_params {
            Some(s.params)
        } else {
            None
        },
    }
}

/// A query for everything is the union of the three single queries: each
/// sub-field of `All` is populated, and holds exactly what the
/// corresponding single query returns.
pub proof fn lemma_query_all_is_union(s: ChainState)
    ensures
        spec_query(s, QueryKind::All).mapping == spec_query(s, QueryKind::TokenMapping).mapping,
        spec_query(s, QueryKind::All).relayers == spec_query(s, QueryKind::Relayers).relayers,
        spec_query(s, QueryKind::All).params == spec_query(s, QueryKind::Parameters).params,
        spec_query(s, QueryKind::All).mapping is Some,
        spec_query(s, QueryKind::All).relayers is Some,
        spec_query(s, QueryKind::All).params is Some,
{
}

/// A field of the bridge state that verification compares.
#[derive(Clone, Copy, Debug, PartialEq, Eq, Structural)]
pub enum BridgeField {
    TokenAddress,
    ExchangeRate,
    BridgeAddress,
    Decimals,
    MaxAmount,
    MinAmount,
    FeePercent,
    Confirmations,
}

/// One side of a reported difference.
#[derive(Clone, Debug, PartialEq, Eq)]
pub enum FieldValue {
    Text(String),
    Amount(Decimal),
    Precision(u8),
    Count(u32),
    /// No mapping is present on the chain.
    Missing,
}

/// One field on which the declared and the observed state differ.
#[derive(Clone, Debug, PartialEq, Eq)]
pub struct FieldDiff {
    pub field: BridgeField,
    pub declared: FieldValue,
    pub observed: FieldValue,
}

/// The differences between the declared mapping and the observed one, in
/// field order. An absent observed mapping differs in every field.
pub open spec fn spec_mapping_diffs(dm: TokenMapping, om: Option<TokenMapping>) -> Seq<FieldDiff> {
    match om {
        None => seq![
            FieldDiff {
                field: BridgeField::TokenAddress,
                declared: FieldValue::Text(dm.token_address),
                observed: FieldValue::Missing,
            },
            FieldDiff {
                field: BridgeField::ExchangeRate,
                declared: FieldValue::Amount(dm.exchange_rate),
                observed: FieldValue::Missing,
            },
            FieldDiff {
                field: BridgeField::BridgeAddress,
                declared: FieldValue::Text(dm.bridge_address),
                observed: FieldValue::Missing,
            },
            FieldDiff {
                field: BridgeField::Decimals,
                declared: FieldValue::Precision(dm.decimals),
                observed: FieldValue::Missing,
            },
        ],
        Some(o) => (if dm.token_address@ != o.token_address@ {
            seq![
                FieldDiff {
                    field: BridgeField::TokenAddress,
                    declared: FieldValue::Text(dm.token_address),
                    observed: FieldValue::Text(o.token_address),
                },
            ]
        } else {
            Seq::<FieldDiff>::empty()
        }) + (if dm.exchange_rate != o.exchange_rate {
            seq![
                FieldDiff {
                    field: BridgeField::ExchangeRate,
                    declared: FieldValue::Amount(dm.exchange_rate),
                    observed: FieldValue::Amount(o.exchange_rate),
                },
            ]
        } else {
            Seq::<FieldDiff>::empty()
        }) + (if dm.bridge_address@ != o.bridge_address@ {
            seq![
                FieldDiff {
                    field: BridgeField::BridgeAddress,
                    declared: FieldValue::Text(dm.bridge_address),
                    observed: FieldValue::Text(o.bridge_address),
                },
            ]
        } else {
            Seq::<FieldDiff>::empty()
        }) + (if dm.decimals != o.decimals {
            seq![
                FieldDiff {
                    field: BridgeField::Decimals,
                    declared: FieldValue::Precision(dm.decimals),
                    observed: FieldValue::Precision(o.decimals),
                },
            ]
        } else {
            Seq::<FieldDiff>::empty()
        }),
    }
}

/// The differences between the declared and the observed parameters.
pub open spec fn spec_param_diffs(dp: OnChainParams, op: OnChainParams) -> Seq<FieldDiff> {
    (if dp.max_amount != op.max_amount {
        seq![
            FieldDiff {
                field: BridgeField::MaxAmount,
                declared: FieldValue::Amount(dp.max_amount),
                observed: FieldValue::Amount(op.max_amount),
            },
        ]
    } else {
        Seq::<FieldDiff>::empty()
    }) + (if dp.min_amount != op.min_amount {
        seq![
            FieldDiff {
                field: BridgeField::MinAmount,
                declared: FieldValue::Amount(dp.min_amount),
                observed: FieldValue::Amount(op.min_amount),
            },
        ]
    } else {
        Seq::<FieldDiff>::empty()
    }) + (if dp.fee_percent != op.fee_percent {
        seq![
            FieldDiff {
                field: BridgeField::FeePercent,
                declared: FieldValue::Amount(dp.fee_percent),
                observed: FieldValue::Amount(op.fee_percent),
            },
        ]
    } else {
        Seq::<FieldDiff>::empty()
    }) + (if dp.confirmations != op.confirmations {
        seq![
            FieldDiff {
                field: BridgeField::Confirmations,
                declared: FieldValue::Count(dp.confirmations),
                observed: FieldValue::Count(op.confirmations),
            },
        ]
    } else {
        Seq::<FieldDiff>::empty()
    })
}

/// The full structured diff of one chain: mapping fields first, then
/// parameters. An empty diff means "verified".
pub open spec fn spec_verify_diff(dm: TokenMapping, dp: OnChainParams, s: ChainState) -> Seq<
    FieldDiff,
> {
    spec_mapping_diffs(dm, s.mapping) + spec_param_diffs(dp, s.params)
}

/// Compares the declared mapping against the observed one.
fn mapping_diffs(dm: &TokenMapping, om: &Option<TokenMapping>) -> (r: Vec<FieldDiff>)
    ensures
        r@ == spec_mapping_diffs(*dm, *om),
{
    let mut r: Vec<FieldDiff> = Vec::new();
    match om {
        None => {
            r.push(
                FieldDiff {
                    field: BridgeField::TokenAddress,
                    declared: FieldValue::Text(dm.token_address.clone()),
                    observed: FieldValue::Missing,
                },
            );
            r.push(
                FieldDiff {
                    field: BridgeField::ExchangeRate,
                    declared: FieldValue::Amount(dm.exchange_rate),
                    observed: FieldValue::Missing,
                },
            );
            r.push(
                FieldDiff {
                    field: BridgeField::BridgeAddress,
                    declared: FieldValue::Text(dm.bridge_address.clone()),
                    observed: FieldValue::Missing,
                },
            );
            r.push(
                FieldDiff {
                    field: BridgeField::Decimals,
                    declared: FieldValue::Precision(dm.decimals),
                    observed: FieldValue::Missing,
                },
            );
        },
        Some(o) => {
            if !str_eq(dm.token_address.as_str(), o.token_address.as_str()) {
                r.push(
                    FieldDiff {
                        field: BridgeField::TokenAddress,
                        declared: FieldValue::Text(dm.token_address.clone()),
                        observed: FieldValue::Text(o.token_address.clone()),
                    },
                );
            }
            if dm.exchange_rate != o.exchange_rate {
                r.push(
                    FieldDiff {
                        field: BridgeField::ExchangeRate,
                        declared: FieldValue::Amount(dm.exchange_rate),
                        observed: FieldValue::Amount(o.exchange_rate),
                    },
                );
            }
            if !str_eq(dm.bridge_address.as_str(), o.bridge_address.as_str()) {
                r.push(
                    FieldDiff {
                        field: BridgeField::BridgeAddress,
                        declared: FieldValue::Text(dm.bridge_address.clone()),
                        observed: FieldValue::Text(o.bridge_address.clone()),
                    },
                );
            }
            if dm.decimals != o.decimals {
                r.push(
                    FieldDiff {
                        field: BridgeField::Decimals,
                        declared: FieldValue::Precision(dm.decimals),
                        observed: FieldValue::Precision(o.decimals),
                    },
                );
            }
        },
    }
    proof {
        assert(r@ =~= spec_mapping_diffs(*dm, *om));
    }
    r
}

/// Compares the declared parameters against the observed ones.
fn param_diffs(dp: &OnChainParams, op: &OnChainParams) -> (r: Vec<FieldDiff>)
    ensures
        r@ == spec_param_diffs(*dp, *op),
{
    let mut r: Vec<FieldDiff> = Vec::new();
    if dp.max_amount != op.max_amount {
        r.push(
            FieldDiff {
                field: BridgeField::MaxAmount,
                declared: FieldValue::Amount(dp.max_amount),
                observed: FieldValue::Amount(op.max_amount),
            },
        );
    }
    if dp.min_amount != op.min_amount {
        r.push(
            FieldDiff {
                field: BridgeField::MinAmount,
                declared: FieldValue::Amount(dp.min_amount),
                observed: FieldValue::Amount(op.min_amount),
            },
        );
    }
    if dp.fee_percent != op.fee_percent {
        r.push(
            FieldDiff {
                field: BridgeField::FeePercent,
                declared: FieldValue::Amount(dp.fee_percent),
                observed: FieldValue::Amount(op.fee_percent),
            },
        );
    }
    if dp.confirmations != op.confirmations {
        r.push(
            FieldDiff {
                field: BridgeField::Confirmations,
                declared: FieldValue::Count(dp.confirmations),
                observed: FieldValue::Count(op.confirmations),
            },
        );
    }
    proof {
        assert(r@ =~= spec_param_diffs(*dp, *op));
    }
    r
}

/// Compares the declared mapping and parameters field by field against an
/// observed state and returns the structured diff. Never mutates state.
pub fn verify_mapping(dm: &TokenMapping, dp: &OnChainParams, s: &ChainState) -> (r: Vec<FieldDiff>)
    ensures
        r@ == spec_verify_diff(*dm, *dp, *s),
{
    let mut r = mapping_diffs(dm, &s.mapping);
    let mut p = param_diffs(dp, &s.params);
    r.append(&mut p);
    r
}

/// Verification against an unmodified state: when the observed mapping and
/// parameters are exactly the declared ones, the diff is empty.
pub proof fn lemma_verify_matching_empty(dm: TokenMapping, dp: OnChainParams, s: ChainState)
    requires
        s.mapping == Some(dm),
        s.params == dp,
    ensures
        spec_verify_diff(dm, dp, s) == Seq::<FieldDiff>::empty(),
{
    assert(spec_verify_diff(dm, dp, s) =~= Seq::<FieldDiff>::empty());
}

/// After a parameter update changes exactly one field of a previously
/// matching state, verification reports exactly that field as differing
/// (and nothing, if the update set the field to its declared value).
pub proof fn lemma_verify_after_update(
    dm: TokenMapping,
    dp: OnChainParams,
    s: ChainState,
    u: ParamUpdate,
)
    requires
        s.mapping == Some(dm),
        s.params == dp,
    ensures
        ({
            let s2 = ChainState {
                mapping: s.mapping,
                relayers: s.relayers,
                params: spec_apply_param(dp, u),
            };
            match u {
                ParamUpdate::MaxAmount(d) => spec_verify_diff(dm, dp, s2) == (if d
                    == dp.max_amount {
                    Seq::<FieldDiff>::empty()
                } else {
                    seq![
                        FieldDiff {
                            field: BridgeField::MaxAmount,
                            declared: FieldValue::Amount(dp.max_amount),
                            observed: FieldValue::Amount(d),
                        },
                    ]
                }),
                ParamUpdate::MinAmount(d) => spec_verify_diff(dm, dp, s2) == (if d
                    == dp.min_amount {
                    Seq::<FieldDiff>::empty()
                } else {
                    seq![
                        FieldDiff {
                            field: BridgeField::MinAmount,
                            declared: FieldValue::Amount(dp.min_amount),
                            observed: FieldValue::Amount(d),
                        },
                    ]
                }),
                ParamUpdate::Fee(d) => spec_verify_diff(dm, dp, s2) == (if d == dp.fee_percent {
                    Seq::<FieldDiff>::empty()
                } else {
                    seq![
                        FieldDiff {
                            field: BridgeField::FeePercent,
                            declared: FieldValue::Amount(dp.fee_percent),
                            observed: FieldValue::Amount(d),
                        },
                    ]
                }),
                ParamUpdate::Confirmations(n) => spec_verify_diff(dm, dp, s2) == (if n
                    == dp.confirmations {
                    Seq::<FieldDiff>::empty()
                } else {
                    seq![
                        FieldDiff {
                            field: BridgeField::Confirmations,
                            declared: FieldValue::Count(dp.confirmations),
                            observed: FieldValue::Count(n),
                        },
                    ]
                }),
            }
        }),
{
    let s2 = ChainState {
        mapping: s.mapping,
        relayers: s.relayers,
        params: spec_apply_param(dp, u),
    };
    match u {
        ParamUpdate::MaxAmount(d) => {
            if d == dp.max_amount {
                assert(spec_verify_diff(dm, dp, s2) =~= Seq::<FieldDiff>::empty());
            } else {
                assert(spec_verify_diff(dm, dp, s2) =~= seq![
                    FieldDiff {
                        field: BridgeField::MaxAmount,
                        declared: FieldValue::Amount(dp.max_amount),
                        observed: FieldValue::Amount(d),
                    },
                ]);
            }
        },
        ParamUpdate::MinAmount(d) => {
            if d == dp.min_amount {
                assert(spec_verify_diff(dm, dp, s2) =~= Seq::<FieldDiff>::empty());
            } else {
                assert(spec_verify_diff(dm, dp, s2) =~= seq![
                    FieldDiff {
                        field: BridgeField::MinAmount,
                        declared: FieldValue::Amount(dp.min_amount),
                        observed: FieldValue::Amount(d),
                    },
                ]);
            }
        },
        ParamUpdate::Fee(d) => {
            if d == dp.fee_percent {
                assert(spec_verify_diff(dm, dp, s2) =~= Seq::<FieldDiff>::empty());
            } else {
                assert(spec_verify_diff(dm, dp, s2) =~= seq![
                    FieldDiff {
                        field: BridgeField::FeePercent,
                        declared: FieldValue::Amount(dp.fee_percent),
                        observed: FieldValue::Amount(d),
                    },
                ]);
            }
        },
        ParamUpdate::Confirmations(n) => {
            if n == dp.confirmations {
                assert(spec_verify_diff(dm, dp, s2) =~= Seq::<FieldDiff>::empty());
            } else {
                assert(spec_verify_diff(dm, dp, s2) =~= seq![
                    FieldDiff {
                        field: BridgeField::Confirmations,
                        declared: FieldValue::Count(dp.confirmations),
                        observed: FieldValue::Count(n),
                    },
                ]);
            }
        },
    }
}

} // verus!
