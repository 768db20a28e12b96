//! Typed units of work against one chain, their outcomes and the
//! aggregated report.

use vstd::prelude::*;
use crate::config::ChainConfig;
use crate::errors::ErrorKind;
use crate::state::{FieldDiff, OnChainParams, QueryKind, QueryResult};

verus! {

/// What an operation does, together with the declared data it pushes or
/// compares. Execution never mutates the operation; it produces an
/// [`Outcome`].
#[derive(Clone, Debug, PartialEq, Eq)]
pub enum OperationKind {
    /// Push the declared token mapping of a chain.
    ApplyMapping(ChainConfig),
    /// Compare the observed state against the declared mapping and
    /// parameters, returning a structured diff.
    VerifyMapping(ChainConfig, OnChainParams),
    /// Read parts of the observed state.
    QueryState(QueryKind),
    /// Set one bridge parameter; name and value are validated locally.
    UpdateParameter(String, String),
}

/// One typed unit of work, bound to exactly one chain.
#[derive(Clone, Debug, PartialEq, Eq)]
pub struct Operation {
    /// The chain the operation is bound to.
    pub chain: String,
    /// The endpoint its connection will be opened against.
    pub endpoint: String,
    pub kind: OperationKind,
}

/// The operation family, as recorded in an outcome.
#[derive(Clone, Copy, Debug, PartialEq, Eq, Structural)]
pub enum OpTag {
    Apply,
    Verify,
    Query,
    Update,
}

/// The tag of an operation kind.
pub open spec fn spec_op_tag(k: OperationKind) -> OpTag {
    match k {
        OperationKind::ApplyMapping(_) => OpTag::Apply,
        OperationKind::VerifyMapping(_, _) => OpTag::Verify,
        OperationKind::QueryState(_) => OpTag::Query,
        OperationKind::UpdateParameter(_, _) => OpTag::Update,
    }
}

/// Reads the tag of an operation kind.
pub fn op_tag(k: &OperationKind) -> (r: OpTag)
    ensures
        r == spec_op_tag(*k),
{
    match k {
        OperationKind::ApplyMapping(_) => OpTag::Apply,
        OperationKind::VerifyMapping(_, _) => OpTag::Verify,
        OperationKind::QueryState(_) => OpTag::Query,
        OperationKind::UpdateParameter(_, _) => OpTag::Update,
    }
}

/// Data returned by a successful read-only operation.
#[derive(Clone, Debug, PartialEq, Eq)]
pub enum OpData {
    /// The structured diff of a verification.
    Diff(Vec<FieldDiff>),
    /// The result of a query.
    Query(QueryResult),
}

/// The terminal result of one operation.
#[derive(Clone, Debug, PartialEq, Eq)]
pub enum OutcomeStatus {
    /// The operation completed, with its returned data if it reads.
    Success(Option<OpData>),
    /// The operation failed, with the kind and a message naming the
    /// offending input, endpoint or remote cause.
    Failure(ErrorKind, String),
    /// The operation was never dispatched because an earlier one failed
    /// in stop-on-failure sequential mode.
    Skipped,
}

/// The terminal outcome of one operation against one chain. Immutable
/// once produced; the sole unit aggregated into a [`Report`].
#[derive(Clone, Debug, PartialEq, Eq)]
pub struct Outcome {
    pub chain: String,
    pub op: OpTag,
    pub status: OutcomeStatus,
}

/// The aggregated result of one run: outcomes in submission order plus
/// derived counts.
#[derive(Clone, Debug, PartialEq, Eq)]
pub struct Report {
    pub outcomes: Vec<Outcome>,
    pub succeeded: usize,
    pub failed: usize,
    pub skipped: usize,
}

pub open spec fn is_success(o: Outcome) -> bool {
    o.status matches OutcomeStatus::Success(_)
}

pub open spec fn is_failure(o: Outcome) -> bool {
    o.status matches OutcomeStatus::Failure(_, _)
}

pub open spec fn is_skipped(o: Outcome) -> bool {
    o.status matches OutcomeStatus::Skipped
}

pub open spec fn count_success(s: Seq<Outcome>) -> nat
    decreases s.len(),
{
    if s.len() == 0 {
        0
    } else {
        count_success(s.drop_last()) + if is_success(s.last()) {
            1nat
        } else {
            0nat
        }
    }
}

pub open spec fn count_failure(s: Seq<Outcome>) -> nat
    decreases s.len(),
{
    if s.len() == 0 {
        0
    } else {
        count_failure(s.drop_last()) + if is_failure(s.last()) {
            1nat
        } else {
            0nat
        }
    }
}

pub open spec fn count_skipped(s: Seq<Outcome>) -> nat
    decreases s.len(),
{
    if s.len() == 0 {
        0
    } else {
        count_skipped(s.drop_last()) + if is_skipped(s.last()) {
            1nat
        } else {
            0nat
        }
    }
}

/// The derived counts agree with the outcome sequence.
pub open spec fn report_wf(r: Report) -> bool {
    &&& r.succeeded == count_success(r.outcomes@)
    &&& r.failed == count_failure(r.outcomes@)
    &&& r.skipped == count_skipped(r.outcomes@)
}

/// Appending one outcome extends each count by at most one.
pub proof fn lemma_counts_push(s: Seq<Outcome>, o: Outcome)
    ensures
        count_success(s.push(o)) == count_success(s) + if is_success(o) {
            1nat
        } else {
            0nat
        },
        count_failure(s.push(o)) == count_failure(s) + if is_failure(o) {
            1nat
        } else {
            0nat
        },
        count_skipped(s.push(o)) == count_skipped(s) + if is_skipped(o) {
            1nat
        } else {
            0nat
        },
{
    assert(s.push(o).drop_last() =~= s);
    assert(s.push(o).last() == o);
}

} // verus!
