//! Everything that can make an operation fail. An operation that fails
//! changes nothing.

use vstd::prelude::*;

verus! {

/// Why an exact result could not be produced by the ledger arithmetic.
#[derive(Clone, Copy, Debug, PartialEq, Eq, Structural)]
pub enum ArithmeticError {
    /// The denominator was zero.
    DivideByZero,
    /// The exact result lies outside the range of its type.
    Overflow,
}

/// Failures of the minimum-raise guard.
#[derive(Clone, Copy, Debug, PartialEq, Eq, Structural)]
pub enum ThresholdError {
    /// A threshold of zero was asked for.
    ThresholdZero,
    /// The stream raised at least its threshold.
    ThresholdReached,
    /// The stream has no threshold.
    ThresholdNotSet,
}

/// The five families of failure.
#[derive(Clone, Copy, Debug, PartialEq, Eq, Structural)]
pub enum ErrorKind {
    /// The request itself is malformed; nothing was looked at yet.
    Validation,
    /// The attached funds are not what the operation costs.
    Payment,
    /// The operation is not allowed in the stream's current state.
    State,
    /// An exact result does not fit the ledger.
    Arithmetic,
    /// The caller may not perform the operation.
    Authorization,
}

/// Why an operation on a stream or a position was rejected.
#[derive(Clone, Copy, Debug, PartialEq, Eq, Structural)]
pub enum ContractError {
    /// The name has fewer bytes than allowed.
    StreamNameTooShort,
    /// The name has more bytes than allowed.
    StreamNameTooLong,
    /// The name holds a character that is not allowed.
    InvalidStreamName,
    /// The URL has fewer bytes than allowed.
    StreamUrlTooShort,
    /// The URL has more bytes than allowed.
    StreamUrlTooLong,
    /// The URL holds a character that is not allowed.
    InvalidStreamUrl,
    /// Input and output asset are the same.
    SameDenomOnEachSide,
    /// Nothing is committed for distribution.
    ZeroOutSupply,
    /// The exit fee is more than the whole income.
    InvalidExitFeePercent,
    /// The minimum-raise guard objects.
    ThresholdError(ThresholdError),
    /// A deposit came without funds.
    NoFundsSent,
    /// The end of the schedule is not reached yet.
    StreamNotEnded,
    /// The end of the schedule is reached, or the stream is finalized.
    StreamEnded,
    /// The stream is finalized already.
    StreamAlreadyFinalized,
    /// The stream is paused.
    StreamKillswitchActive,
    /// The stream is not paused.
    StreamNotPaused,
    /// The stream is cancelled.
    StreamIsCancelled,
    /// The stream is not cancelled.
    StreamNotCancelled,
    /// The instant of the resume lies before that of the pause.
    ResumeBeforePause,
    /// A withdrawal of nothing was asked for.
    InvalidWithdrawAmount,
    /// More than the unspent balance was asked for.
    WithdrawAmountExceedsBalance,
    /// The owner has no position in the stream.
    PositionNotFound,
    /// The message names another stream.
    StreamNotFound,
    /// An exact result does not fit the ledger.
    Arithmetic(ArithmeticError),
    /// The caller may not do this.
    Unauthorized,
}

impl ContractError {
    /// The family an error belongs to.
    pub open spec fn spec_kind(self) -> ErrorKind {
        match self {
            ContractError::StreamNameTooShort
            | ContractError::StreamNameTooLong
            | ContractError::InvalidStreamName
            | ContractError::StreamUrlTooShort
            | ContractError::StreamUrlTooLong
            | ContractError::InvalidStreamUrl
            | ContractError::SameDenomOnEachSide
            | ContractError::ZeroOutSupply
            | ContractError::InvalidExitFeePercent => ErrorKind::Validation,
            ContractError::ThresholdError(ThresholdError::ThresholdZero) => ErrorKind::Validation,
            ContractError::ThresholdError(_) => ErrorKind::State,
            ContractError::NoFundsSent => ErrorKind::Payment,
            ContractError::StreamNotEnded
            | ContractError::StreamEnded
            | ContractError::StreamAlreadyFinalized
            | ContractError::StreamKillswitchActive
            | ContractError::StreamNotPaused
            | ContractError::StreamIsCancelled
            | ContractError::StreamNotCancelled
            | ContractError::ResumeBeforePause
            | ContractError::InvalidWithdrawAmount
            | ContractError::WithdrawAmountExceedsBalance
            | ContractError::PositionNotFound
            | ContractError::StreamNotFound => ErrorKind::State,
            ContractError::Arithmetic(_) => ErrorKind::Arithmetic,
            ContractError::Unauthorized => ErrorKind::Authorization,
        }
    }

    /// The family an error belongs to.
    pub fn kind(&self) -> (k: ErrorKind)
        ensures
            k == self.spec_kind(),
    {
        match self {
            ContractError::StreamNameTooShort
            | ContractError::StreamNameTooLong
            | ContractError::InvalidStreamName
            | ContractError::StreamUrlTooShort
            | ContractError::StreamUrlTooLong
            | ContractError::InvalidStreamUrl
            | ContractError::SameDenomOnEachSide
            | ContractError::ZeroOutSupply
            | ContractError::InvalidExitFeePercent => ErrorKind::Validation,
            ContractError::ThresholdError(ThresholdError::ThresholdZero) => ErrorKind::Validation,
            ContractError::ThresholdError(_) => ErrorKind::State,
            ContractError::NoFundsSent => ErrorKind::Payment,
            ContractError::StreamNotEnded
            | ContractError::StreamEnded
            | ContractError::StreamAlreadyFinalized
            | ContractError::StreamKillswitchActive
            | ContractError::StreamNotPaused
            | ContractError::StreamIsCancelled
            | ContractError::StreamNotCancelled
            | ContractError::ResumeBeforePause
            | ContractError::InvalidWithdrawAmount
            | ContractError::WithdrawAmountExceedsBalance
            | ContractError::PositionNotFound
            | ContractError::StreamNotFound => ErrorKind::State,
            ContractError::Arithmetic(_) => ErrorKind::Arithmetic,
            ContractError::Unauthorized => ErrorKind::Authorization,
        }
    }
}

} // verus!
