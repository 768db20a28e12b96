//! The top-level coordinator: loads a validated configuration, resolves a
//! command's target chain set, builds the per-chain operations and drives
//! the execution engine.

use vstd::prelude::*;
use crate::config::{
    config_wf, find_chain, has_chain, lemma_find_chain_props, params_wf, resolve_endpoint,
    spec_conf_for, spec_find_chain, spec_params, spec_resolved, str_eq, unique_conf_keys,
    unique_names, ChainConfig, Config,
};
use crate::decimal::{dec_le, dec_positive, parse_decimal, spec_parse_decimal, str_bytes, Decimal};
use crate::engine::{run, run_ok, spec_remote_index, world_wf, ExecMode, RunResult, World};
use crate::errors::ErrorKind;
use crate::ops::{Operation, OperationKind};
use crate::state::{OnChainParams, QueryKind};

verus! {

/// The first fault of a configuration, if any: duplicate chain or
/// confirmation keys, then an invalid parameter block, then the first
/// unparseable exchange rate.
pub open spec fn spec_config_error(c: Config) -> Option<ErrorKind> {
    if !unique_names(c.chains@) || !unique_conf_keys(c.configuration.confirmation_blocks@) {
        Some(ErrorKind::InvalidParameter)
    } else if !params_wf(c.configuration) {
        Some(ErrorKind::InvalidValue)
    } else if exists|i: int|
        0 <= i < c.chains@.len() && spec_parse_decimal(
            str_bytes((#[trigger] c.chains@[i]).1.exchange_rate@),
        ) is None {
        Some(ErrorKind::InvalidExchangeRate)
    } else {
        None
    }
}

/// The declared on-chain parameters of one chain: the parsed global
/// amounts and fee, and the chain's declared confirmation depth.
pub open spec fn spec_declared_params(c: Config, chain: Seq<char>) -> OnChainParams {
    match spec_params(c.configuration) {
        Some((mx, mn, fe)) => OnChainParams {
            max_amount: mx,
            min_amount: mn,
            fee_percent: fe,
            confirmations: spec_conf_for(c.configuration, chain),
        },
        None => OnChainParams {
            max_amount: Decimal { units: 0, nanos: 0 },
            min_amount: Decimal { units: 0, nanos: 0 },
            fee_percent: Decimal { units: 0, nanos: 0 },
            confirmations: 0,
        },
    }
}

/// The apply operation for one target chain. (Meaningful when the chain
/// exists; the orchestrator validates that first.)
pub open spec fn spec_apply_op(c: Config, t: String, over: Option<String>) -> Operation {
    Operation {
        chain: t,
        endpoint: spec_resolved(c, t@, over),
        kind: match spec_find_chain(c.chains@, t@) {
            Some(cc) => OperationKind::ApplyMapping(cc),
            None => OperationKind::QueryState(QueryKind::All),
        },
    }
}

/// The verify operation for one target chain.
pub open spec fn spec_verify_op(c: Config, t: String, over: Option<String>) -> Operation {
    Operation {
        chain: t,
        endpoint: spec_resolved(c, t@, over),
        kind: match spec_find_chain(c.chains@, t@) {
            Some(cc) => OperationKind::VerifyMapping(cc, spec_declared_params(c, t@)),
            None => OperationKind::QueryState(QueryKind::All),
        },
    }
}

/// The query operation for one target chain.
pub open spec fn spec_query_op(c: Config, t: String, over: Option<String>, kind: QueryKind) -> Operation {
    Operation { chain: t, endpoint: spec_resolved(c, t@, over), kind: OperationKind::QueryState(kind) }
}

/// The update operation for one target chain.
pub open spec fn spec_update_op(
    c: Config,
    t: String,
    over: Option<String>,
    name: String,
    value: String,
) -> Operation {
    Operation {
        chain: t,
        endpoint: spec_resolved(c, t@, over),
        kind: OperationKind::UpdateParameter(name, value),
    }
}

/// The apply operations of a whole target set, in target order.
pub open spec fn spec_apply_ops(c: Config, targets: Seq<String>, over: Option<String>) -> Seq<
    Operation,
> {
    targets.map(|i: int, t: String| spec_apply_op(c, t, over))
}

/// The names of all configured chains, in declaration order.
pub open spec fn spec_all_targets(c: Config) -> Seq<String> {
    c.chains@.map(|i: int, p: (String, ChainConfig)| p.0)
}

/// The first fault of an explicit chain filter: a name absent from the
/// configuration, then a duplicated name.
pub open spec fn spec_filter_error(c: Config, filter: Seq<String>) -> Option<ErrorKind> {
    if exists|i: int| 0 <= i < filter.len() && !has_chain(c, (#[trigger] filter[i])@) {
        Some(ErrorKind::ChainNotFound)
    } else if exists|i: int, j: int|
        0 <= i < j < filter.len() && (#[trigger] filter[i])@ == (#[trigger] filter[j])@ {
        Some(ErrorKind::InvalidParameter)
    } else {
        None
    }
}

/// The stop-on-first-failure sequential mode single-chain commands use.
pub open spec fn spec_single_mode() -> ExecMode {
    ExecMode::Sequential { continue_on_failure: false }
}

/// Chain names of the configuration are pairwise distinct.
fn chains_unique(chains: &Vec<(String, ChainConfig)>) -> (r: bool)
    ensures
        r == unique_names(chains@),
{
    let n = chains.len();
    let mut i: usize = 0;
    while i < n
        invariant
            i <= n == chains@.len(),
            forall|a: int, b: int|
                0 <= a < b < chains@.len() && a < i as int ==> (#[trigger] chains@[a].0@) != (
                #[trigger] chains@[b].0@),
        decreases n - i,
    {
        let mut j: usize = i + 1;
        while j < n
            invariant
                i < j <= n == chains@.len(),
                forall|b: int|
                    (i as int) < b && b < (j as int) ==> chains@[i as int].0@ != (#[trigger] chains@[b].0@),
            decreases n - j,
        {
            if str_eq(chains[i].0.as_str(), chains[j].0.as_str()) {
                return false;
            }
            j = j + 1;
        }
        i = i + 1;
    }
    true
}

/// Confirmation keys are pairwise distinct.
fn conf_keys_unique(blocks: &Vec<(String, u32)>) -> (r: bool)
    ensures
        r == unique_conf_keys(blocks@),
{
    let n = blocks.len();
    let mut i: usize = 0;
    while i < n
        invariant
            i <= n == blocks@.len(),
            forall|a: int, b: int|
                0 <= a < b < blocks@.len() && a < i as int ==> (#[trigger] blocks@[a].0@) != (
                #[trigger] blocks@[b].0@),
        decreases n - i,
    {
        let mut j: usize = i + 1;
        while j < n
            invariant
                i < j <= n == blocks@.len(),
                forall|b: int|
                    (i as int) < b && b < (j as int) ==> blocks@[i as int].0@ != (#[trigger] blocks@[b].0@),
            decreases n - j,
        {
            if str_eq(blocks[i].0.as_str(), blocks[j].0.as_str()) {
                return false;
            }
            j = j + 1;
        }
        i = i + 1;
    }
    true
}

/// An exact copy of one chain's declared configuration.
fn clone_chain_config(cc: &ChainConfig) -> (r: ChainConfig)
    ensures
        r == *cc,
{
    ChainConfig {
        pbc_name: cc.pbc_name.clone(),
        pbc_endpoint: cc.pbc_endpoint.clone(),
        http_endpoint: cc.http_endpoint.clone(),
        token_address: cc.token_address.clone(),
        exchange_rate: cc.exchange_rate.clone(),
        bridge_address: cc.bridge_address.clone(),
        decimals: cc.decimals,
    }
}

/// The top-level coordinator. Holds the validated, read-only declared
/// configuration; one entry point per command family.
#[derive(Debug)]
pub struct Orchestrator {
    pub config: Config,
}

impl Orchestrator {
    /// The held configuration is well formed.
    pub open spec fn wf(&self) -> bool {
        config_wf(self.config)
    }

    /// Validates a loaded configuration and wraps it. Succeeds exactly on
    /// well-formed configurations; the error names the first fault.
    pub fn new(config: Config) -> (r: Result<Orchestrator, ErrorKind>)
        ensures
            match r {
                Ok(o) => o.config == config && config_wf(config),
                Err(k) => Some(k) == spec_config_error(config) && !config_wf(config),
            },
    {
        if !chains_unique(&config.chains) {
            return Err(ErrorKind::InvalidParameter);
        }
        if !conf_keys_unique(&config.configuration.confirmation_blocks) {
            return Err(ErrorKind::InvalidParameter);
        }
        let mx = match parse_decimal(config.configuration.max_transfer_amount.as_str()) {
            Some(d) => d,
            None => {
                return Err(ErrorKind::InvalidValue);
            },
        };
        let mn = match parse_decimal(config.configuration.min_transfer_amount.as_str()) {
            Some(d) => d,
            None => {
                return Err(ErrorKind::InvalidValue);
            },
        };
        let fe = match parse_decimal(config.configuration.bridge_fee_percent.as_str()) {
            Some(d) => d,
            None => {
                return Err(ErrorKind::InvalidValue);
            },
        };
        let hundred = Decimal { units: 100, nanos: 0 };
        if !dec_positive(&mn) || !dec_le(&mn, &mx) || !dec_le(&fe, &hundred) {
            return Err(ErrorKind::InvalidValue);
        }
        let n = config.chains.len();
        let mut i: usize = 0;
        while i < n
            invariant
                i <= n == config.chains@.len(),
                unique_names(config.chains@),
                params_wf(config.configuration),
                forall|k: int|
                    0 <= k < i as int ==> spec_parse_decimal(
                        str_bytes((#[trigger] config.chains@[k]).1.exchange_rate@),
                    ) is Some,
            decreases n - i,
        {
            if parse_decimal(config.chains[i].1.exchange_rate.as_str()).is_none() {
                proof {
                    assert(spec_parse_decimal(
                        str_bytes((config.chains@[i as int]).1.exchange_rate@),
                    ) is None);
                }
                return Err(ErrorKind::InvalidExchangeRate);
            }
            i = i + 1;
        }
        Ok(Orchestrator { config })
    }

    /// The declared on-chain parameters for one chain.
    fn declared_params(&self, chain: &str) -> (r: OnChainParams)
        requires
            self.wf(),
        ensures
            r == spec_declared_params(self.config, chain@),
    {
        let mx = parse_decimal(self.config.configuration.max_transfer_amount.as_str()).unwrap();
        let mn = parse_decimal(self.config.configuration.min_transfer_amount.as_str()).unwrap();
        let fe = parse_decimal(self.config.configuration.bridge_fee_percent.as_str()).unwrap();
        OnChainParams {
            max_amount: mx,
            min_amount: mn,
            fee_percent: fe,
            confirmations: crate::config::confirmations_for(&self.config.configuration, chain),
        }
    }

    /// Configures one chain: resolves its endpoint, builds one apply
    /// operation and runs it. Fails with `ChainNotFound` before any
    /// connection when the chain is not configured.
    pub fn configure_one(&self, chain: &String, over: Option<&String>, world: World) -> (r: Result<
        RunResult,
        ErrorKind,
    >)
        requires
            self.wf(),
            world_wf(world),
            has_chain(self.config, chain@) ==> spec_remote_index(world.chains@, chain@) is Some,
        ensures
            ({
                let so = match over {
                    Some(o) => Some(*o),
                    None => None::<String>,
                };
                match r {
                    Err(k) => k == ErrorKind::ChainNotFound && !has_chain(self.config, chain@),
                    Ok(res) => has_chain(self.config, chain@) && run_ok(
                        seq![spec_apply_op(self.config, *chain, so)],
                        world,
                        spec_single_mode(),
                        res,
                    ),
                }
            }),
    {
        let endpoint = match resolve_endpoint(&self.config, chain.as_str(), over) {
            Ok(e) => e,
            Err(k) => {
                return Err(k);
            },
        };
        let cc = clone_chain_config(find_chain(&self.config, chain.as_str()).unwrap());
        let op = Operation {
            chain: chain.clone(),
            endpoint,
            kind: OperationKind::ApplyMapping(cc),
        };
        let ops = vec![op];
        proof {
            let so = match over {
                Some(o) => Some(*o),
                None => None::<String>,
            };
            assert(ops@ =~= seq![spec_apply_op(self.config, *chain, so)]);
        }
        Ok(run(&ops, world, ExecMode::Sequential { continue_on_failure: false }))
    }

    /// Verifies one chain: builds one verify operation (declared mapping
    /// and parameters against the observed state) and runs it.
    pub fn verify_chain(&self, chain: &String, over: Option<&String>, world: World) -> (r: Result<
        RunResult,
        ErrorKind,
    >)
        requires
            self.wf(),
            world_wf(world),
            has_chain(self.config, chain@) ==> spec_remote_index(world.chains@, chain@) is Some,
        ensures
            ({
                let so = match over {
                    Some(o) => Some(*o),
                    None => None::<String>,
                };
                match r {
                    Err(k) => k == ErrorKind::ChainNotFound && !has_chain(self.config, chain@),
                    Ok(res) => has_chain(self.config, chain@) && run_ok(
                        seq![spec_verify_op(self.config, *chain, so)],
                        world,
                        spec_single_mode(),
                        res,
                    ),
                }
            }),
    {
        let endpoint = match resolve_endpoint(&self.config, chain.as_str(), over) {
            Ok(e) => e,
            Err(k) => {
                return Err(k);
            },
        };
        let cc = clone_chain_config(find_chain(&self.config, chain.as_str()).unwrap());
        let dp = self.declared_params(chain.as_str());
        let op = Operation {
            chain: chain.clone(),
            endpoint,
            kind: OperationKind::VerifyMapping(cc, dp),
        };
        let ops = vec![op];
        proof {
            let so = match over {
                Some(o) => Some(*o),
                None => None::<String>,
            };
            assert(ops@ =~= seq![spec_verify_op(self.config, *chain, so)]);
        }
        Ok(run(&ops, world, ExecMode::Sequential { continue_on_failure: false }))
    }

    /// Queries one chain: builds one read-only query operation and runs
    /// it.
    pub fn query_chain(
        &self,
        chain: &String,
        kind: QueryKind,
        over: Option<&String>,
        world: World,
    ) -> (r: Result<RunResult, ErrorKind>)
        requires
            self.wf(),
            world_wf(world),
            has_chain(self.config, chain@) ==> spec_remote_index(world.chains@, chain@) is Some,
        ensures
            ({
                let so = match over {
                    Some(o) => Some(*o),
                    None => None::<String>,
                };
                match r {
                    Err(k) => k == ErrorKind::ChainNotFound && !has_chain(self.config, chain@),
                    Ok(res) => has_chain(self.config, chain@) && run_ok(
                        seq![spec_query_op(self.config, *chain, so, kind)],
                        world,
                        spec_single_mode(),
                        res,
                    ),
                }
            }),
    {
        let endpoint = match resolve_endpoint(&self.config, chain.as_str(), over) {
            Ok(e) => e,
            Err(k) => {
                return Err(k);
            },
        };
        let op = Operation { chain: chain.clone(), endpoint, kind: OperationKind::QueryState(kind) };
        let ops = vec![op];
        proof {
            let so = match over {
                Some(o) => Some(*o),
                None => None::<String>,
            };
            assert(ops@ =~= seq![spec_query_op(self.config, *chain, so, kind)]);
        }
        Ok(run(&ops, world, ExecMode::Sequential { continue_on_failure: false }))
    }

    /// Updates one bridge parameter on one chain: builds one update
    /// operation (name and value are validated locally before any network
    /// attempt) and runs it.
    pub fn update_chain(
        &self,
        chain: &String,
        name: &String,
        value: &String,
        over: Option<&String>,
        world: World,
    ) -> (r: Result<RunResult, ErrorKind>)
        requires
            self.wf(),
            world_wf(world),
            has_chain(self.config, chain@) ==> spec_remote_index(world.chains@, chain@) is Some,
        ensures
            ({
                let so = match over {
                    Some(o) => Some(*o),
                    None => None::<String>,
                };
                match r {
                    Err(k) => k == ErrorKind::ChainNotFound && !has_chain(self.config, chain@),
                    Ok(res) => has_chain(self.config, chain@) && run_ok(
                        seq![spec_update_op(self.config, *chain, so, *name, *value)],
                        world,
                        spec_single_mode(),
                        res,
                    ),
                }
            }),
    {
        let endpoint = match resolve_endpoint(&self.config, chain.as_str(), over) {
            Ok(e) => e,
            Err(k) => {
                return Err(k);
            },
        };
        let op = Operation {
            chain: chain.clone(),
            endpoint,
            kind: OperationKind::UpdateParameter(name.clone(), value.clone()),
        };
        let ops = vec![op];
        proof {
            let so = match over {
                Some(o) => Some(*o),
                None => None::<String>,
            };
            assert(ops@ =~= seq![spec_update_op(self.config, *chain, so, *name, *value)]);
        }
        Ok(run(&ops, world, ExecMode::Sequential { continue_on_failure: false }))
    }

    /// Configures every targeted chain: all configured chains, or exactly
    /// the chains of an explicit filter. Every filter name is validated
    /// against the configuration before any connection is opened — an
    /// unknown name fails the whole command with `ChainNotFound` and no
    /// partial work; a duplicated name is refused too. One apply
    /// operation is dispatched per target, in target order.
    pub fn configure_all(
        &self,
        filter: Option<&Vec<String>>,
        over: Option<&String>,
        mode: ExecMode,
        world: World,
    ) -> (r: Result<RunResult, ErrorKind>)
        requires
            self.wf(),
            world_wf(world),
            forall|i: int|
                0 <= i < self.config.chains@.len() ==> spec_remote_index(
                    world.chains@,
                    (#[trigger] self.config.chains@[i]).0@,
                ) is Some,
        ensures
            ({
                let so = match over {
                    Some(o) => Some(*o),
                    None => None::<String>,
                };
                let targets = match filter {
                    Some(f) => f@,
                    None => spec_all_targets(self.config),
                };
                match r {
                    Err(k) => filter matches Some(f) && Some(k) == spec_filter_error(
                        self.config,
                        f@,
                    ),
                    Ok(res) => (match filter {
                        Some(f) => spec_filter_error(self.config, f@) is None,
                        None => true,
                    }) && run_ok(spec_apply_ops(self.config, targets, so), world, mode, res),
                }
            }),
    {
        let ghost so = match over {
            Some(o) => Some(*o),
            None => None::<String>,
        };
        // Resolve and validate the target set before anything else.
        let mut targets: Vec<String> = Vec::new();
        match filter {
            Some(f) => {
                let n = f.len();
                let mut i: usize = 0;
                while i < n
                    invariant
                        filter == Some(f),
                        i <= n == f@.len(),
                        forall|k: int| 0 <= k < i as int ==> has_chain(self.config, (#[trigger] f@[k])@),
                    decreases n - i,
                {
                    if find_chain(&self.config, f[i].as_str()).is_none() {
                        proof {
                            assert(!has_chain(self.config, (#[trigger] f@[i as int])@));
                        }
                        return Err(ErrorKind::ChainNotFound);
                    }
                    i = i + 1;
                }
                let mut a: usize = 0;
                while a < n
                    invariant
                        filter == Some(f),
                        a <= n == f@.len(),
                        forall|k: int| 0 <= k < f@.len() ==> has_chain(self.config, (#[trigger] f@[k])@),
                        forall|x: int, y: int|
                            0 <= x < y < f@.len() && x < a as int ==> (#[trigger] f@[x])@ != (
                            #[trigger] f@[y])@,
                    decreases n - a,
                {
                    let mut b: usize = a + 1;
                    while b < n
                        invariant
                            filter == Some(f),
                            a < b <= n == f@.len(),
                            forall|k: int|
                                0 <= k < f@.len() ==> has_chain(self.config, (#[trigger] f@[k])@),
                            forall|y: int|
                                (a as int) < y && y < (b as int) ==> f@[a as int]@ != (#[trigger] f@[y])@,
                        decreases n - b,
                    {
                        if str_eq(f[a].as_str(), f[b].as_str()) {
                            proof {
                                assert((#[trigger] f@[a as int])@ == (#[trigger] f@[b as int])@);
                            }
                            return Err(ErrorKind::InvalidParameter);
                        }
                        b = b + 1;
                    }
                    a = a + 1;
                }
                let mut i: usize = 0;
                while i < n
                    invariant
                        i <= n == f@.len(),
                        targets@.len() == i as int,
                        forall|k: int| 0 <= k < i as int ==> #[trigger] targets@[k] == f@[k],
                    decreases n - i,
                {
                    targets.push(f[i].clone());
                    i = i + 1;
                }
                proof {
                    assert(targets@ =~= f@);
                }
            },
            None => {
                let n = self.config.chains.len();
                let mut i: usize = 0;
                while i < n
                    invariant
                        i <= n == self.config.chains@.len(),
                        targets@.len() == i as int,
                        forall|k: int|
                            0 <= k < i as int ==> #[trigger] targets@[k]
                                == self.config.chains@[k].0,
                    decreases n - i,
                {
                    targets.push(self.config.chains[i].0.clone());
                    i = i + 1;
                }
                proof {
                    assert(targets@ =~= spec_all_targets(self.config));
                }
            },
        }
        let ghost tgs = targets@;
        proof {
            // Every target exists in the configuration and the targets
            // are pairwise distinct.
            assert forall|k: int| 0 <= k < tgs.len() implies has_chain(
                self.config,
                (#[trigger] tgs[k])@,
            ) by {
                if filter is None {
                    lemma_chain_name_found(self.config, k);
                }
            }
        }
        // Build one apply operation per target, in target order.
        let m = targets.len();
        let mut ops: Vec<Operation> = Vec::new();
        let mut i: usize = 0;
        while i < m
            invariant
                self.wf(),
                m == tgs.len(),
                targets@ == tgs,
                i <= m,
                forall|k: int| 0 <= k < tgs.len() ==> has_chain(self.config, (#[trigger] tgs[k])@),
                ops@.len() == i as int,
                forall|k: int|
                    0 <= k < i as int ==> #[trigger] ops@[k] == spec_apply_op(
                        self.config,
                        tgs[k],
                        so,
                    ),
                so == (match over {
                    Some(o) => Some(*o),
                    None => None::<String>,
                }),
            decreases m - i,
        {
            let endpoint = match resolve_endpoint(&self.config, targets[i].as_str(), over) {
                Ok(e) => e,
                Err(_) => {
                    proof {
                        assert(false);
                    }
                    return Err(ErrorKind::ChainNotFound);
                },
            };
            let cc = clone_chain_config(find_chain(&self.config, targets[i].as_str()).unwrap());
            let op = Operation {
                chain: targets[i].clone(),
                endpoint,
                kind: OperationKind::ApplyMapping(cc),
            };
            ops.push(op);
            i = i + 1;
        }
        proof {
            assert(ops@ =~= spec_apply_ops(self.config, tgs, so));
            // Distinct targets and world coverage, for the engine.
            assert forall|k: int| 0 <= k < ops@.len() implies spec_remote_index(
                world.chains@,
                (#[trigger] ops@[k]).chain@,
            ) is Some by {
                lemma_find_chain_props(self.config.chains@, tgs[k]@);
            }
            match filter {
                Some(f) => {
                    assert(crate::engine::distinct_chains(ops@));
                },
                None => {
                    assert forall|x: int, y: int|
                        0 <= x < y < ops@.len() implies (#[trigger] ops@[x]).chain@ != (
                    #[trigger] ops@[y]).chain@ by {
                        assert(tgs[x] == self.config.chains@[x].0);
                        assert(tgs[y] == self.config.chains@[y].0);
                    }
                },
            }
        }
        Ok(run(&ops, world, mode))
    }
}

/// Configuring all chains without a filter dispatches exactly one
/// operation per declared chain: the report holds exactly as many
/// outcomes as the configuration declares chains, one per chain, in
/// declaration order.
pub proof fn lemma_configure_all_covers_chains(
    c: Config,
    over: Option<String>,
    world: World,
    mode: ExecMode,
    res: RunResult,
)
    requires
        run_ok(spec_apply_ops(c, spec_all_targets(c), over), world, mode, res),
    ensures
        res.report.outcomes@.len() == c.chains@.len(),
        forall|k: int|
            0 <= k < c.chains@.len() ==> (#[trigger] res.report.outcomes@[k]).chain
                == c.chains@[k].0,
{
    let ops = spec_apply_ops(c, spec_all_targets(c), over);
    assert(ops.len() == c.chains@.len());
    assert forall|k: int| 0 <= k < c.chains@.len() implies (#[trigger] res.report.outcomes@[k]).chain
        == c.chains@[k].0 by {
        assert(crate::engine::outcome_ok(ops, world, mode, res.report.outcomes@[k], k));
        assert(ops[k].chain == spec_all_targets(c)[k]);
    }
}

/// A configured chain's own name is found in the configuration.
proof fn lemma_chain_name_found(c: Config, k: int)
    requires
        config_wf(c),
        0 <= k < c.chains@.len(),
    ensures
        has_chain(c, c.chains@[k].0@),
{
    lemma_find_chain_props(c.chains@, c.chains@[k].0@);
    if spec_find_chain(c.chains@, c.chains@[k].0@) is None {
        assert(c.chains@[k].0@ != c.chains@[k].0@);
    }
}

} // verus!
