//! The execution engine: runs a batch of operations against the remote
//! chains, sequentially or concurrently, and aggregates a report.
//!
//! Remote chains are modelled as a [`World`] of per-chain values: whether
//! the chain's endpoint accepts a session, whether it accepts submitted
//! transactions, and its observed bridge state. One step of the engine is
//! a pure function from an operation and its chain to an outcome and the
//! chain's next state; the unverified front end performs the matching
//! network effects and feeds their results back into this model.
//!
//! Failures are isolated per chain: each operation's outcome and its
//! chain's next state depend only on that chain's own entry in the world,
//! never on another chain's success or failure.

use vstd::prelude::*;
use crate::decimal::{spec_parse_decimal, str_bytes};
use crate::errors::ErrorKind;
use crate::ops::{
    count_failure, count_skipped, count_success, lemma_counts_push, op_tag, report_wf,
    spec_op_tag, OpData, Operation, OperationKind, Outcome, OutcomeStatus, Report,
};
use crate::decimal::parse_decimal;
use crate::state::{
    apply_mapping, apply_param, query_eq, query_state, spec_apply_mapping, spec_apply_param,
    spec_mapping_of, spec_query, spec_validate_parameter, spec_verify_diff, validate_parameter,
    verify_mapping, ChainState, TokenMapping,
};

verus! {

/// One remote chain as the engine sees it: its name, whether its endpoint
/// currently accepts a session, whether it accepts submitted transactions
/// (with the cause it reports when it does not), and its observed state.
#[derive(Clone, Debug, PartialEq, Eq)]
pub struct RemoteChain {
    pub name: String,
    /// A session to the chain's endpoint can be established.
    pub connectable: bool,
    /// The chain accepts submitted transactions.
    pub accepts_tx: bool,
    /// The cause the chain reports when it rejects a transaction.
    pub reject_reason: String,
    /// The observed bridge state.
    pub state: ChainState,
}

/// All remote chains of one run.
#[derive(Clone, Debug, PartialEq, Eq)]
pub struct World {
    pub chains: Vec<RemoteChain>,
}

/// Remote chain names are pairwise distinct.
pub open spec fn world_wf(w: World) -> bool {
    forall|i: int, j: int|
        0 <= i < j < w.chains@.len() ==> (#[trigger] w.chains@[i].name@) != (
        #[trigger] w.chains@[j].name@)
}

/// The index of the first remote chain named `name`.
pub open spec fn spec_remote_index(chains: Seq<RemoteChain>, name: Seq<char>) -> Option<int>
    decreases chains.len(),
{
    if chains.len() == 0 {
        None
    } else if chains[0].name@ == name {
        Some(0int)
    } else {
        match spec_remote_index(chains.drop_first(), name) {
            Some(k) => Some(k + 1),
            None => None,
        }
    }
}

/// What `spec_remote_index` returns: the first position carrying `name`.
pub proof fn lemma_remote_index_props(chains: Seq<RemoteChain>, name: Seq<char>)
    ensures
        match spec_remote_index(chains, name) {
            Some(j) => 0 <= j < chains.len() && chains[j].name@ == name && (forall|j2: int|
                0 <= j2 < j ==> (#[trigger] chains[j2].name@) != name),
            None => forall|j: int| 0 <= j < chains.len() ==> (#[trigger] chains[j].name@) != name,
        },
    decreases chains.len(),
{
    if chains.len() > 0 && chains[0].name@ != name {
        lemma_remote_index_props(chains.drop_first(), name);
        assert(forall|j: int|
            1 <= j < chains.len() ==> #[trigger] chains[j] == chains.drop_first()[j - 1]);
    }
}

/// Finds the position of the chain named `name`.
pub fn find_remote_index(chains: &Vec<RemoteChain>, name: &str) -> (r: Option<usize>)
    ensures
        match r {
            Some(j) => spec_remote_index(chains@, name@) == Some(j as int),
            None => spec_remote_index(chains@, name@) is None,
        },
{
    let n = chains.len();
    let mut i: usize = 0;
    proof {
        assert(chains@.skip(0) =~= chains@);
    }
    while i < n
        invariant
            i <= n == chains@.len(),
            spec_remote_index(chains@, name@) == match spec_remote_index(
                chains@.skip(i as int),
                name@,
            ) {
                Some(k) => Some(k + i),
                None => None::<int>,
            },
        decreases n - i,
    {
        proof {
            assert(chains@.skip(i as int)[0] == chains@[i as int]);
            assert(chains@.skip(i as int).drop_first() =~= chains@.skip(i as int + 1));
        }
        if crate::config::str_eq(chains[i].name.as_str(), name) {
            return Some(i);
        }
        i = i + 1;
    }
    proof {
        assert(chains@.skip(n as int).len() == 0);
    }
    None
}

/// The local validation an operation performs before any network attempt,
/// with the failure it surfaces: an apply or verify whose declared
/// exchange rate does not parse, or an update whose name or value is
/// invalid. The message names the offending input.
pub open spec fn spec_local_error(op: Operation) -> Option<(ErrorKind, String)> {
    match op.kind {
        OperationKind::ApplyMapping(cfg) => match spec_parse_decimal(
            str_bytes(cfg.exchange_rate@),
        ) {
            Some(_) => None,
            None => Some((ErrorKind::InvalidExchangeRate, cfg.exchange_rate)),
        },
        OperationKind::VerifyMapping(cfg, _) => match spec_parse_decimal(
            str_bytes(cfg.exchange_rate@),
        ) {
            Some(_) => None,
            None => Some((ErrorKind::InvalidExchangeRate, cfg.exchange_rate)),
        },
        OperationKind::QueryState(_) => None,
        OperationKind::UpdateParameter(name, value) => match spec_validate_parameter(
            name@,
            str_bytes(value@),
        ) {
            Ok(_) => None,
            Err(k) => Some(
                (
                    k,
                    if k == ErrorKind::InvalidParameter {
                        name
                    } else {
                        value
                    },
                ),
            ),
        },
    }
}

/// The operation attempts a connection exactly when local validation
/// passes.
pub open spec fn spec_attempts(op: Operation) -> bool {
    spec_local_error(op) is None
}

/// The operation submits a transaction (rather than only reading).
pub open spec fn spec_mutates(op: Operation) -> bool {
    match op.kind {
        OperationKind::ApplyMapping(_) => true,
        OperationKind::UpdateParameter(_, _) => true,
        OperationKind::VerifyMapping(_, _) => false,
        OperationKind::QueryState(_) => false,
    }
}

/// The remote failure an operation runs into once dispatched: no session,
/// or a rejected submission with the chain's reported cause.
pub open spec fn spec_remote_error(op: Operation, rc: RemoteChain) -> Option<(ErrorKind, String)> {
    if !rc.connectable {
        Some((ErrorKind::ConnectionError, op.endpoint))
    } else if spec_mutates(op) && !rc.accepts_tx {
        Some((ErrorKind::RemoteRejected, rc.reject_reason))
    } else {
        None
    }
}

/// The operation ends in a failure outcome against this chain.
pub open spec fn spec_op_fails(op: Operation, rc: RemoteChain) -> bool {
    spec_local_error(op) is Some || spec_remote_error(op, rc) is Some
}

/// The chain's state after the operation: unchanged on any failure or
/// read, the declared mapping or parameter set on a successful submission.
pub open spec fn spec_next_state(op: Operation, rc: RemoteChain) -> ChainState {
    if spec_op_fails(op, rc) {
        rc.state
    } else {
        match op.kind {
            OperationKind::ApplyMapping(cfg) => match spec_parse_decimal(
                str_bytes(cfg.exchange_rate@),
            ) {
                Some(rate) => spec_apply_mapping(rc.state, cfg, rate),
                None => rc.state,
            },
            OperationKind::VerifyMapping(_, _) => rc.state,
            OperationKind::QueryState(_) => rc.state,
            OperationKind::UpdateParameter(name, value) => match spec_validate_parameter(
                name@,
                str_bytes(value@),
            ) {
                Ok(u) => ChainState {
                    mapping: rc.state.mapping,
                    relayers: rc.state.relayers,
                    params: spec_apply_param(rc.state.params, u),
                },
                Err(_) => rc.state,
            },
        }
    }
}

/// Re-running any operation against the state it produced yields that
/// same state again: every operation is idempotent, so a re-run after a
/// crash is safe.
pub proof fn lemma_step_idempotent(op: Operation, rc: RemoteChain)
    ensures
        ({
            let rc2 = RemoteChain {
                name: rc.name,
                connectable: rc.connectable,
                accepts_tx: rc.accepts_tx,
                reject_reason: rc.reject_reason,
                state: spec_next_state(op, rc),
            };
            spec_next_state(op, rc2) == spec_next_state(op, rc)
        }),
{
}

/// What a successful outcome carries: nothing for a submission, the
/// structured diff for a verification, the read result for a query.
pub open spec fn spec_success_status(op: Operation, rc: RemoteChain, st: OutcomeStatus) -> bool {
    match op.kind {
        OperationKind::ApplyMapping(_) => st == OutcomeStatus::Success(None::<OpData>),
        OperationKind::UpdateParameter(_, _) => st == OutcomeStatus::Success(None::<OpData>),
        OperationKind::VerifyMapping(cfg, dp) => match spec_parse_decimal(
            str_bytes(cfg.exchange_rate@),
        ) {
            Some(rate) => st matches OutcomeStatus::Success(Some(OpData::Diff(v))) && v@
                == spec_verify_diff(spec_mapping_of(cfg, rate), dp, rc.state),
            None => false,
        },
        OperationKind::QueryState(kind) => st matches OutcomeStatus::Success(Some(OpData::Query(q)))
            && query_eq(q, spec_query(rc.state, kind)),
    }
}

/// The outcome status an operation reaches against this chain: its local
/// failure, else its remote failure, else a success with the data above.
pub open spec fn spec_status(op: Operation, rc: RemoteChain, st: OutcomeStatus) -> bool {
    match spec_local_error(op) {
        Some(e) => st == OutcomeStatus::Failure(e.0, e.1),
        None => match spec_remote_error(op, rc) {
            Some(e) => st == OutcomeStatus::Failure(e.0, e.1),
            None => spec_success_status(op, rc, st),
        },
    }
}

/// Everything one step guarantees: the outcome status, the chain's next
/// state, whether a connection was attempted, and that the chain's
/// identity and behaviour are untouched.
pub open spec fn step_post(
    op: Operation,
    rc: RemoteChain,
    st: OutcomeStatus,
    rc2: RemoteChain,
    attempted: bool,
) -> bool {
    &&& rc2.name == rc.name
    &&& rc2.connectable == rc.connectable
    &&& rc2.accepts_tx == rc.accepts_tx
    &&& rc2.reject_reason == rc.reject_reason
    &&& rc2.state == spec_next_state(op, rc)
    &&& attempted == spec_attempts(op)
    &&& spec_status(op, rc, st)
}

/// Runs one operation against its chain: local validation first (a
/// failure there attempts no connection), then the session, then the
/// submission or read.
pub fn step(op: &Operation, rc: RemoteChain) -> (r: (OutcomeStatus, RemoteChain, bool))
    ensures
        step_post(*op, rc, r.0, r.1, r.2),
{
    match &op.kind {
        OperationKind::ApplyMapping(cfg) => {
            match parse_decimal(cfg.exchange_rate.as_str()) {
                None => (
                    OutcomeStatus::Failure(
                        ErrorKind::InvalidExchangeRate,
                        cfg.exchange_rate.clone(),
                    ),
                    rc,
                    false,
                ),
                Some(rate) => {
                    if !rc.connectable {
                        (
                            OutcomeStatus::Failure(ErrorKind::ConnectionError, op.endpoint.clone()),
                            rc,
                            true,
                        )
                    } else if !rc.accepts_tx {
                        let msg = rc.reject_reason.clone();
                        (OutcomeStatus::Failure(ErrorKind::RemoteRejected, msg), rc, true)
                    } else {
                        let RemoteChain { name, connectable, accepts_tx, reject_reason, state } =
                            rc;
                        let ns = apply_mapping(state, cfg, rate);
                        (
                            OutcomeStatus::Success(None),
                            RemoteChain { name, connectable, accepts_tx, reject_reason, state: ns },
                            true,
                        )
                    }
                },
            }
        },
        OperationKind::VerifyMapping(cfg, dp) => {
            match parse_decimal(cfg.exchange_rate.as_str()) {
                None => (
                    OutcomeStatus::Failure(
                        ErrorKind::InvalidExchangeRate,
                        cfg.exchange_rate.clone(),
                    ),
                    rc,
                    false,
                ),
                Some(rate) => {
                    if !rc.connectable {
                        (
                            OutcomeStatus::Failure(ErrorKind::ConnectionError, op.endpoint.clone()),
                            rc,
                            true,
                        )
                    } else {
                        let dm = TokenMapping {
                            token_address: cfg.token_address.clone(),
                            exchange_rate: rate,
                            bridge_address: cfg.bridge_address.clone(),
                            decimals: cfg.decimals,
                        };
                        let v = verify_mapping(&dm, dp, &rc.state);
                        (OutcomeStatus::Success(Some(OpData::Diff(v))), rc, true)
                    }
                },
            }
        },
        OperationKind::QueryState(kind) => {
            if !rc.connectable {
                (OutcomeStatus::Failure(ErrorKind::ConnectionError, op.endpoint.clone()), rc, true)
            } else {
                let q = query_state(&rc.state, *kind);
                (OutcomeStatus::Success(Some(OpData::Query(q))), rc, true)
            }
        },
        OperationKind::UpdateParameter(name, value) => {
            match validate_parameter(name.as_str(), value.as_str()) {
                Err(k) => {
                    let msg = if matches!(k, ErrorKind::InvalidParameter) {
                        name.clone()
                    } else {
                        value.clone()
                    };
                    (OutcomeStatus::Failure(k, msg), rc, false)
                },
                Ok(u) => {
                    if !rc.connectable {
                        (
                            OutcomeStatus::Failure(ErrorKind::ConnectionError, op.endpoint.clone()),
                            rc,
                            true,
                        )
                    } else if !rc.accepts_tx {
                        let msg = rc.reject_reason.clone();
                        (OutcomeStatus::Failure(ErrorKind::RemoteRejected, msg), rc, true)
                    } else {
                        let RemoteChain { name, connectable, accepts_tx, reject_reason, state } =
                            rc;
                        let ChainState { mapping, relayers, params } = state;
                        let np = apply_param(params, u);
                        (
                            OutcomeStatus::Success(None),
                            RemoteChain {
                                name,
                                connectable,
                                accepts_tx,
                                reject_reason,
                                state: ChainState { mapping, relayers, params: np },
                            },
                            true,
                        )
                    }
                },
            }
        },
    }
}

/// How a batch is executed.
#[derive(Clone, Copy, Debug, PartialEq, Eq, Structural)]
pub enum ExecMode {
    /// Strictly in submission order; stops on the first failure unless
    /// continuation is requested.
    Sequential { continue_on_failure: bool },
    /// Bounded fan-out, one unit of concurrency per chain, best effort:
    /// failures are isolated and every operation reaches an outcome.
    Concurrent { max_parallelism: usize },
}

/// The mode skips the rest of the batch after a failure.
pub open spec fn stop_on_failure(mode: ExecMode) -> bool {
    mode == ExecMode::Sequential { continue_on_failure: false }
}

/// The operation fails against the chain the world binds it to.
pub open spec fn op_fails_in(w: World, op: Operation) -> bool {
    match spec_remote_index(w.chains@, op.chain@) {
        Some(j) => spec_op_fails(op, w.chains@[j]),
        None => true,
    }
}

/// Operation `i` of the batch is dispatched: always, unless an earlier
/// operation failed in stop-on-failure mode.
pub open spec fn op_executes(ops: Seq<Operation>, w: World, mode: ExecMode, i: int) -> bool {
    !stop_on_failure(mode) || (forall|j: int| 0 <= j < i ==> !op_fails_in(w, #[trigger] ops[j]))
}

/// The index of the first operation bound to `name`.
pub open spec fn spec_op_for(ops: Seq<Operation>, name: Seq<char>) -> Option<int>
    decreases ops.len(),
{
    if ops.len() == 0 {
        None
    } else if ops[0].chain@ == name {
        Some(0int)
    } else {
        match spec_op_for(ops.drop_first(), name) {
            Some(k) => Some(k + 1),
            None => None,
        }
    }
}

/// What `spec_op_for` returns: the first operation bound to `name`.
pub proof fn lemma_op_for_props(ops: Seq<Operation>, name: Seq<char>)
    ensures
        match spec_op_for(ops, name) {
            Some(i) => 0 <= i < ops.len() && ops[i].chain@ == name && (forall|i2: int|
                0 <= i2 < i ==> (#[trigger] ops[i2].chain@) != name),
            None => forall|i: int| 0 <= i < ops.len() ==> (#[trigger] ops[i].chain@) != name,
        },
    decreases ops.len(),
{
    if ops.len() > 0 && ops[0].chain@ != name {
        lemma_op_for_props(ops.drop_first(), name);
        assert(forall|i: int| 1 <= i < ops.len() ==> #[trigger] ops[i] == ops.drop_first()[i - 1]);
    }
}

/// The operations are bound to pairwise distinct chains.
pub open spec fn distinct_chains(ops: Seq<Operation>) -> bool {
    forall|i1: int, i2: int|
        0 <= i1 < i2 < ops.len() ==> (#[trigger] ops[i1].chain@) != (#[trigger] ops[i2].chain@)
}

/// With distinct chains, the operation bound to `ops[i].chain` is `i`.
pub proof fn lemma_op_for_at(ops: Seq<Operation>, i: int)
    requires
        distinct_chains(ops),
        0 <= i < ops.len(),
    ensures
        spec_op_for(ops, ops[i].chain@) == Some(i),
{
    lemma_op_for_props(ops, ops[i].chain@);
    match spec_op_for(ops, ops[i].chain@) {
        Some(i2) => {
            if i2 < i {
                assert(ops[i2].chain@ != ops[i].chain@);
            } else if i < i2 {
                assert(ops[i].chain@ != ops[i2].chain@);
            }
        },
        None => {
            assert(ops[i].chain@ == ops[i].chain@);
        },
    }
}

/// The world's chain at position `j` after the first `upto` operations of
/// the batch: updated by the one operation bound to it, if that operation
/// is among the first `upto` and was dispatched; untouched otherwise.
pub open spec fn spec_chain_after(
    ops: Seq<Operation>,
    w: World,
    mode: ExecMode,
    j: int,
    upto: int,
) -> RemoteChain {
    let rc = w.chains@[j];
    match spec_op_for(ops, rc.name@) {
        Some(i) => if i < upto && op_executes(ops, w, mode, i) {
            RemoteChain {
                name: rc.name,
                connectable: rc.connectable,
                accepts_tx: rc.accepts_tx,
                reject_reason: rc.reject_reason,
                state: spec_next_state(ops[i], rc),
            }
        } else {
            rc
        },
        None => rc,
    }
}

/// Connections attempted by the first `upto` operations: those that were
/// dispatched and passed local validation.
pub open spec fn spec_count_attempts(
    ops: Seq<Operation>,
    w: World,
    mode: ExecMode,
    upto: int,
) -> nat
    decreases upto,
{
    if upto <= 0 {
        0
    } else {
        spec_count_attempts(ops, w, mode, upto - 1) + if op_executes(ops, w, mode, upto - 1)
            && spec_attempts(ops[upto - 1]) {
            1nat
        } else {
            0nat
        }
    }
}

/// What outcome `k` of a report must hold: the operation's chain and
/// family, and — when dispatched — the status that `spec_status` pins
/// against the chain's original world entry; `Skipped` otherwise.
pub open spec fn outcome_ok(
    ops: Seq<Operation>,
    w: World,
    mode: ExecMode,
    o: Outcome,
    k: int,
) -> bool {
    &&& o.chain == ops[k].chain
    &&& o.op == spec_op_tag(ops[k].kind)
    &&& if op_executes(ops, w, mode, k) {
        match spec_remote_index(w.chains@, ops[k].chain@) {
            Some(j) => spec_status(ops[k], w.chains@[j], o.status),
            None => false,
        }
    } else {
        o.status == OutcomeStatus::Skipped
    }
}

/// The result of one run: the aggregated report, the world's next state,
/// and how many connections were attempted.
#[derive(Clone, Debug, PartialEq, Eq)]
pub struct RunResult {
    pub report: Report,
    pub world: World,
    pub attempted: usize,
}

/// Everything a run guarantees: one outcome per operation in submission
/// order, each pinned by `outcome_ok` against the original world; correct
/// derived counts; each chain of the next world updated by exactly its
/// own dispatched operation; and the number of attempted connections.
pub open spec fn run_ok(ops: Seq<Operation>, world: World, mode: ExecMode, res: RunResult) -> bool {
    &&& res.report.outcomes@.len() == ops.len()
    &&& forall|k: int|
        0 <= k < ops.len() ==> outcome_ok(ops, world, mode, #[trigger] res.report.outcomes@[k], k)
    &&& report_wf(res.report)
    &&& res.world.chains@.len() == world.chains@.len()
    &&& forall|j: int|
        0 <= j < world.chains@.len() ==> #[trigger] res.world.chains@[j] == spec_chain_after(
            ops,
            world,
            mode,
            j,
            ops.len() as int,
        )
    &&& res.attempted == spec_count_attempts(ops, world, mode, ops.len() as int)
}

/// Runs a batch of operations, one per chain, and aggregates a report.
///
/// Outcomes are reported in submission order whatever the mode. Each
/// outcome and each chain's next state depend only on that chain's own
/// world entry, so one chain's failure never disturbs another's result;
/// in stop-on-failure sequential mode the operations after the first
/// failure are reported as skipped. An empty batch yields an empty,
/// all-zero report.
#[verifier::rlimit(100)]
pub fn run(ops: &Vec<Operation>, world: World, mode: ExecMode) -> (r: RunResult)
    requires
        world_wf(world),
        distinct_chains(ops@),
        forall|i: int|
            0 <= i < ops@.len() ==> spec_remote_index(world.chains@, (#[trigger] ops@[i]).chain@)
                is Some,
    ensures
        run_ok(ops@, world, mode, r),
{
    let ghost w0 = world;
    let stop = matches!(mode, ExecMode::Sequential { continue_on_failure: false });
    let mut w = world;
    let mut outcomes: Vec<Outcome> = Vec::new();
    let mut succeeded: usize = 0;
    let mut failed: usize = 0;
    let mut skipped: usize = 0;
    let mut attempted: usize = 0;
    let mut running = true;
    let n = ops.len();
    let mut i: usize = 0;
    proof {
        assert forall|j: int| 0 <= j < w0.chains@.len() implies #[trigger] w.chains@[j]
            == spec_chain_after(ops@, w0, mode, j, 0) by {
            lemma_op_for_props(ops@, w0.chains@[j].name@);
        }
    }
    while i < n
        invariant
            n == ops@.len(),
            i <= n,
            world_wf(w0),
            distinct_chains(ops@),
            forall|k: int|
                0 <= k < ops@.len() ==> spec_remote_index(w0.chains@, (#[trigger] ops@[k]).chain@)
                    is Some,
            stop == stop_on_failure(mode),
            running == op_executes(ops@, w0, mode, i as int),
            w.chains@.len() == w0.chains@.len(),
            forall|j: int|
                0 <= j < w0.chains@.len() ==> #[trigger] w.chains@[j] == spec_chain_after(
                    ops@,
                    w0,
                    mode,
                    j,
                    i as int,
                ),
            outcomes@.len() == i as int,
            forall|k: int|
                0 <= k < i as int ==> outcome_ok(ops@, w0, mode, #[trigger] outcomes@[k], k),
            succeeded == count_success(outcomes@),
            failed == count_failure(outcomes@),
            skipped == count_skipped(outcomes@),
            succeeded + failed + skipped == i,
            attempted == spec_count_attempts(ops@, w0, mode, i as int),
            attempted <= i,
        decreases n - i,
    {
        let op = &ops[i];
        let tag = op_tag(&op.kind);
        if running {
            proof {
                lemma_locate(ops@, w0, w, mode, i as int);
            }
            let j = find_remote_index(&w.chains, op.chain.as_str()).unwrap();
            let ghost pre = w.chains@;
            let rc = w.chains.remove(j);
            let (st, rc2, att) = step(op, rc);
            w.chains.insert(j, rc2);
            proof {
                assert(w.chains@ =~= pre.update(j as int, rc2));
                lemma_world_step(ops@, w0, mode, i as int, j as int, pre, w.chains@, rc2);
            }
            if att {
                attempted = attempted + 1;
            }
            let failed_now = matches!(st, OutcomeStatus::Failure(..));
            proof {
                assert(failed_now == spec_op_fails(ops@[i as int], w0.chains@[j as int]));
                assert(op_fails_in(w0, ops@[i as int]) == failed_now);
                lemma_executes_extend(ops@, w0, mode, i as int);
            }
            if failed_now {
                failed = failed + 1;
                if stop {
                    running = false;
                }
            } else {
                succeeded = succeeded + 1;
            }
            let o = Outcome { chain: op.chain.clone(), op: tag, status: st };
            proof {
                lemma_counts_push(outcomes@, o);
                assert(outcome_ok(ops@, w0, mode, o, i as int));
            }
            outcomes.push(o);
        } else {
            skipped = skipped + 1;
            let o = Outcome { chain: op.chain.clone(), op: tag, status: OutcomeStatus::Skipped };
            proof {
                lemma_counts_push(outcomes@, o);
                lemma_executes_extend(ops@, w0, mode, i as int);
                lemma_world_skip(ops@, w0, mode, i as int, w.chains@);
                assert(outcome_ok(ops@, w0, mode, o, i as int));
            }
            outcomes.push(o);
        }
        i = i + 1;
    }
    RunResult {
        report: Report { outcomes, succeeded, failed, skipped },
        world: w,
        attempted,
    }
}

/// Failures are isolated: in a mode that never stops, every operation of
/// a run is dispatched and its outcome is pinned by its own chain's
/// original world entry alone — another chain's connection failure or
/// rejection cannot disturb it.
pub proof fn lemma_concurrent_isolation(
    ops: Seq<Operation>,
    w: World,
    mode: ExecMode,
    res: RunResult,
    k: int,
)
    requires
        !stop_on_failure(mode),
        run_ok(ops, w, mode, res),
        0 <= k < ops.len(),
    ensures
        res.report.outcomes@[k].chain == ops[k].chain,
        spec_remote_index(w.chains@, ops[k].chain@) matches Some(j) && spec_status(
            ops[k],
            w.chains@[j],
            res.report.outcomes@[k].status,
        ),
{
    assert(outcome_ok(ops, w, mode, res.report.outcomes@[k], k));
    assert(op_executes(ops, w, mode, k));
}

/// In the world reached after the first `i` operations, the chain of
/// operation `i` still sits at its original position, untouched, and the
/// world's names (hence its well-formedness) are unchanged.
proof fn lemma_locate(ops: Seq<Operation>, w0: World, w: World, mode: ExecMode, i: int)
    requires
        world_wf(w0),
        distinct_chains(ops),
        0 <= i < ops.len(),
        spec_remote_index(w0.chains@, ops[i].chain@) is Some,
        w.chains@.len() == w0.chains@.len(),
        forall|j: int|
            0 <= j < w0.chains@.len() ==> #[trigger] w.chains@[j] == spec_chain_after(
                ops,
                w0,
                mode,
                j,
                i,
            ),
    ensures
        world_wf(w),
        spec_remote_index(w.chains@, ops[i].chain@) == spec_remote_index(w0.chains@, ops[i].chain@),
        match spec_remote_index(w0.chains@, ops[i].chain@) {
            Some(j) => 0 <= j < w0.chains@.len() && w.chains@[j] == w0.chains@[j]
                && w0.chains@[j].name@ == ops[i].chain@,
            None => false,
        },
{
    lemma_remote_index_props(w0.chains@, ops[i].chain@);
    assert forall|j2: int| 0 <= j2 < w.chains@.len() implies (#[trigger] w.chains@[j2]).name@
        == w0.chains@[j2].name@ by {
        assert(w.chains@[j2] == spec_chain_after(ops, w0, mode, j2, i));
        lemma_op_for_props(ops, w0.chains@[j2].name@);
    }
    let j = match spec_remote_index(w0.chains@, ops[i].chain@) {
        Some(j) => j,
        None => 0int,
    };
    assert(w.chains@[j].name@ == ops[i].chain@);
    lemma_index_unique(w, ops[i].chain@, j);
    // Operation `i` is the first (and only) one bound to this chain, and
    // it has not run yet, so position `j` is untouched.
    lemma_op_for_at(ops, i);
    assert(spec_chain_after(ops, w0, mode, j, i) == w0.chains@[j]);
}

/// With unique world names, a position carrying `name` is the one the
/// index function returns.
proof fn lemma_index_unique(w: World, name: Seq<char>, j: int)
    requires
        world_wf(w),
        0 <= j < w.chains@.len(),
        w.chains@[j].name@ == name,
    ensures
        spec_remote_index(w.chains@, name) == Some(j),
{
    lemma_remote_index_props(w.chains@, name);
    match spec_remote_index(w.chains@, name) {
        Some(j2) => {
            if j2 < j {
                assert(w.chains@[j2].name@ != w.chains@[j].name@);
            } else if j < j2 {
                assert(w.chains@[j].name@ != w.chains@[j2].name@);
            }
        },
        None => {
            assert(w.chains@[j].name@ != name);
        },
    }
}

/// Dispatching is decided one operation at a time: the batch keeps
/// running up to `i + 1` exactly when it kept running up to `i` and
/// operation `i` did not fail in stop-on-failure mode.
proof fn lemma_executes_extend(ops: Seq<Operation>, w: World, mode: ExecMode, i: int)
    requires
        0 <= i < ops.len(),
    ensures
        op_executes(ops, w, mode, i + 1) == (op_executes(ops, w, mode, i) && (!stop_on_failure(
            mode,
        ) || !op_fails_in(w, ops[i]))),
{
    if op_executes(ops, w, mode, i) && (!stop_on_failure(mode) || !op_fails_in(w, ops[i])) {
        if stop_on_failure(mode) {
            assert forall|j: int| 0 <= j < i + 1 implies !op_fails_in(w, #[trigger] ops[j]) by {
                if j < i {
                    assert(!op_fails_in(w, ops[j]));
                }
            }
        }
    }
}

/// After executing operation `i` (bound to chain position `j`) on the
/// world reached after the first `i` operations, replacing position `j`
/// with the stepped chain is the world after the first `i + 1`.
proof fn lemma_world_step(
    ops: Seq<Operation>,
    w0: World,
    mode: ExecMode,
    i: int,
    j: int,
    pre: Seq<RemoteChain>,
    post: Seq<RemoteChain>,
    rc2: RemoteChain,
)
    requires
        world_wf(w0),
        distinct_chains(ops),
        0 <= i < ops.len(),
        0 <= j < w0.chains@.len(),
        ops[i].chain@ == w0.chains@[j].name@,
        op_executes(ops, w0, mode, i),
        pre.len() == w0.chains@.len(),
        forall|j2: int|
            0 <= j2 < w0.chains@.len() ==> #[trigger] pre[j2] == spec_chain_after(
                ops,
                w0,
                mode,
                j2,
                i,
            ),
        post == pre.update(j, rc2),
        rc2.name == w0.chains@[j].name,
        rc2.connectable == w0.chains@[j].connectable,
        rc2.accepts_tx == w0.chains@[j].accepts_tx,
        rc2.reject_reason == w0.chains@[j].reject_reason,
        rc2.state == spec_next_state(ops[i], w0.chains@[j]),
    ensures
        forall|j2: int|
            0 <= j2 < w0.chains@.len() ==> #[trigger] post[j2] == spec_chain_after(
                ops,
                w0,
                mode,
                j2,
                i + 1,
            ),
{
    lemma_op_for_at(ops, i);
    assert forall|j2: int| 0 <= j2 < w0.chains@.len() implies #[trigger] post[j2]
        == spec_chain_after(ops, w0, mode, j2, i + 1) by {
        if j2 == j {
            assert(spec_op_for(ops, w0.chains@[j].name@) == Some(i));
        } else {
            lemma_op_for_props(ops, w0.chains@[j2].name@);
            match spec_op_for(ops, w0.chains@[j2].name@) {
                Some(i2) => {
                    // `i2` cannot be `i`: world names are unique.
                    if i2 == i {
                        if j2 < j {
                            assert(w0.chains@[j2].name@ != w0.chains@[j].name@);
                        } else {
                            assert(w0.chains@[j].name@ != w0.chains@[j2].name@);
                        }
                    }
                },
                None => {},
            }
        }
    }
}

/// A skipped operation leaves the whole world where it was.
proof fn lemma_world_skip(
    ops: Seq<Operation>,
    w0: World,
    mode: ExecMode,
    i: int,
    cur: Seq<RemoteChain>,
)
    requires
        0 <= i < ops.len(),
        !op_executes(ops, w0, mode, i),
        forall|j: int|
            0 <= j < w0.chains@.len() ==> #[trigger] cur[j] == spec_chain_after(
                ops,
                w0,
                mode,
                j,
                i,
            ),
    ensures
        forall|j: int|
            0 <= j < w0.chains@.len() ==> #[trigger] cur[j] == spec_chain_after(
                ops,
                w0,
                mode,
                j,
                i + 1,
            ),
{
    assert forall|j: int| 0 <= j < w0.chains@.len() implies #[trigger] cur[j] == spec_chain_after(
        ops,
        w0,
        mode,
        j,
        i + 1,
    ) by {
        match spec_op_for(ops, w0.chains@[j].name@) {
            Some(i2) => {
                if i2 == i {
                    assert(!op_executes(ops, w0, mode, i2));
                }
            },
            None => {},
        }
    }
}

} // verus!
