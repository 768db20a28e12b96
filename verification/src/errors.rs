//! Error kinds of the orchestrator.

use vstd::prelude::*;

verus! {

/// Why an operation or a command failed.
///
/// `ChainNotFound` and the three `Invalid*` kinds are local failures,
/// surfaced before any network attempt. `ConnectionError` and
/// `RemoteRejected` report the remote side.
#[derive(Clone, Copy, Debug, PartialEq, Eq, Structural)]
pub enum ErrorKind {
    /// A referenced chain is absent from the configuration.
    ChainNotFound,
    /// The session to a chain's endpoint could not be established.
    ConnectionError,
    /// A declared exchange rate does not parse as a non-negative decimal.
    InvalidExchangeRate,
    /// An unrecognized parameter name.
    InvalidParameter,
    /// A parameter value that does not parse or is out of range.
    InvalidValue,
    /// The chain itself rejected a submitted operation.
    RemoteRejected,
}

/// The short text of each kind, as shown to an operator.
pub open spec fn spec_error_text(k: ErrorKind) -> Seq<char> {
    match k {
        ErrorKind::ChainNotFound => "chain not found in configuration"@,
        ErrorKind::ConnectionError => "failed to connect to endpoint"@,
        ErrorKind::InvalidExchangeRate => "exchange rate is not a valid decimal"@,
        ErrorKind::InvalidParameter => "unknown parameter name"@,
        ErrorKind::InvalidValue => "value is not valid for this parameter"@,
        ErrorKind::RemoteRejected => "the chain rejected the operation"@,
    }
}

impl ErrorKind {
    /// A short description of the kind.
    pub fn describe(&self) -> (r: String)
        ensures
            r@ == spec_error_text(*self),
    {
        match self {
            ErrorKind::ChainNotFound => String::from_str("chain not found in configuration"),
            ErrorKind::ConnectionError => String::from_str("failed to connect to endpoint"),
            ErrorKind::InvalidExchangeRate => String::from_str(
                "exchange rate is not a valid decimal",
            ),
            ErrorKind::InvalidParameter => String::from_str("unknown parameter name"),
            ErrorKind::InvalidValue => String::from_str("value is not valid for this parameter"),
            ErrorKind::RemoteRejected => String::from_str("the chain rejected the operation"),
        }
    }
}

} // verus!
