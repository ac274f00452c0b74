//! The lifecycle of a stream: finalizing it after its end, and the
//! killswitch that pauses, resumes or cancels it.
//!
//! `Waiting` becomes `Active` by itself, with the first update that observes
//! the start of the schedule. Every other transition is one of the functions
//! below, and each refuses a stream that is already where it would lead.
//!
//! A cancelled stream distributes nothing: its undistributed output returns
//! to the creator, all input stays for the buyers to take back, and the
//! output that positions were credited before is taken off them by
//! [`crate::pool::Pool::cancel`], which holds the positions.

use crate::decimal::{unit, Decimal};
use crate::error::{ArithmeticError, ContractError};
use crate::ratio::lemma_ratio_at_most_amount;
use crate::state::{Status, Stream};
use vstd::prelude::*;

verus! {

/// What leaves a stream when it is finalized.
#[derive(Clone, Copy, Debug, PartialEq, Eq)]
pub struct FinalizePayout {
    /// Consumed input that goes to the treasury.
    pub revenue: u128,
    /// Consumed input that goes to the fee collector.
    pub fee: u128,
    /// Output that was never distributed and returns to the treasury.
    pub unsold: u128,
}

/// What returns to the creator when a stream is cancelled. No input does:
/// all of it stays with the stream for the buyers to take back.
#[derive(Clone, Copy, Debug, PartialEq, Eq)]
pub struct CancelPayout {
    /// Output that returns to the treasury.
    pub returned: u128,
}

impl Stream {
    /// The exit fee on the consumed input.
    pub open spec fn exit_fee(self, exit_fee_percent: Decimal) -> nat {
        (exit_fee_percent@ * (self.spent_in as nat)) / unit()
    }

    /// The result of finalizing at `now`.
    ///
    /// Allowed once the end of the schedule is reached. A last update runs;
    /// the consumed input is split between treasury and fee collector, the
    /// undistributed output returns, and the stream is `Finalized`.
    pub open spec fn finalize_spec(self, now: u64, exit_fee_percent: Decimal) -> Result<
        (Stream, FinalizePayout),
        ContractError,
    > {
        if exit_fee_percent@ > unit() {
            Err(ContractError::InvalidExitFeePercent)
        } else if self.killswitch() is Some {
            Err(self.killswitch().unwrap())
        } else if self.status is Finalized {
            Err(ContractError::StreamAlreadyFinalized)
        } else if now < self.end_time {
            Err(ContractError::StreamNotEnded)
        } else {
            match self.update_spec(now) {
                Err(e) => Err(e),
                Ok((s, d)) => Ok(
                    (
                        Stream { status: Status::Finalized, out_remaining: 0, ..s },
                        FinalizePayout {
                            revenue: (s.spent_in - s.exit_fee(exit_fee_percent)) as u128,
                            fee: s.exit_fee(exit_fee_percent) as u128,
                            unsold: s.out_remaining,
                        },
                    ),
                ),
            }
        }
    }

    /// The result of pausing at `now`: the stream is brought up to date and frozen.
    pub open spec fn pause_spec(self, now: u64) -> Result<Stream, ContractError> {
        if self.killswitch() is Some {
            Err(self.killswitch().unwrap())
        } else if self.status is Finalized {
            Err(ContractError::StreamAlreadyFinalized)
        } else {
            match self.update_spec(now) {
                Err(e) => Err(e),
                Ok((s, d)) => Ok(Stream { status: Status::Paused, pause_date: Some(now), ..s }),
            }
        }
    }

    /// The result of resuming at `now`: the schedule and `last_updated` move
    /// forward by the time spent paused, and the status is what the moved
    /// schedule says.
    pub open spec fn resume_spec(self, now: u64) -> Result<Stream, ContractError> {
        if self.status is Cancelled {
            Err(ContractError::StreamIsCancelled)
        } else if !(self.status is Paused) || self.pause_date is None {
            Err(ContractError::StreamNotPaused)
        } else if now < self.pause_date.unwrap() {
            Err(ContractError::ResumeBeforePause)
        } else if self.end_time + (now - self.pause_date.unwrap()) > u64::MAX {
            Err(ContractError::Arithmetic(ArithmeticError::Overflow))
        } else {
            let paused_for = now - self.pause_date.unwrap();
            Ok(
                Stream {
                    start_time: (self.start_time + paused_for) as u64,
                    end_time: (self.end_time + paused_for) as u64,
                    last_updated: (self.last_updated + paused_for) as u64,
                    status: if now >= self.start_time + paused_for {
                        Status::Active
                    } else {
                        Status::Waiting
                    },
                    pause_date: None,
                    ..self
                },
            )
        }
    }

    /// The result of cancelling: the stream is frozen where its last update
    /// left it, and the output that it has not distributed returns to the
    /// creator.
    pub open spec fn cancel_spec(self) -> Result<(Stream, CancelPayout), ContractError> {
        if self.status is Cancelled {
            Err(ContractError::StreamIsCancelled)
        } else if self.status is Finalized {
            Err(ContractError::StreamAlreadyFinalized)
        } else {
            Ok(
                (
                    Stream {
                        status: Status::Cancelled,
                        pause_date: None,
                        out_remaining: 0,
                        ..self
                    },
                    CancelPayout { returned: self.out_remaining },
                ),
            )
        }
    }

    /// The fee never exceeds the consumed input when the percentage is at most one.
    pub proof fn lemma_exit_fee_bounded(self, exit_fee_percent: Decimal)
        requires
            exit_fee_percent@ <= unit(),
        ensures
            self.exit_fee(exit_fee_percent) <= self.spent_in,
    {
        lemma_ratio_at_most_amount(self.spent_in as nat, exit_fee_percent@, unit());
        assert(exit_fee_percent@ * (self.spent_in as nat) == (self.spent_in as nat)
            * exit_fee_percent@) by (nonlinear_arith);
    }

    /// Finalizes the stream at `now`.
    ///
    /// Anyone may call it. `exit_fee_percent` is the part of the consumed
    /// input that is kept as a fee; above one it is rejected with
    /// `InvalidExitFeePercent`.
    pub fn finalize(&self, now: u64, exit_fee_percent: Decimal) -> (r: Result<
        (Stream, FinalizePayout),
        ContractError,
    >)
        requires
            self.wf(),
            exit_fee_percent.wf(),
        ensures
            r == self.finalize_spec(now, exit_fee_percent),
            r matches Ok((s, o)) ==> s.wf() && o.revenue + o.fee == s.spent_in,
    {
        if !exit_fee_percent.le(&Decimal::one()) {
            return Err(ContractError::InvalidExitFeePercent);
        }
        if let Some(e) = self.check_killswitch() {
            return Err(e);
        }
        match self.status {
            Status::Finalized => {
                return Err(ContractError::StreamAlreadyFinalized);
            },
            _ => {},
        }
        if now < self.end_time {
            return Err(ContractError::StreamNotEnded);
        }
        let s = match self.update(now) {
            Err(e) => {
                return Err(e);
            },
            Ok((s, _)) => s,
        };
        proof {
            s.lemma_exit_fee_bounded(exit_fee_percent);
        }
        let fee: u128 = exit_fee_percent.mul_floor(s.spent_in).unwrap();
        proof {
            assert(0 * unit() == 0) by (nonlinear_arith);
        }
        Ok(
            (
                Stream { status: Status::Finalized, out_remaining: 0, ..s },
                FinalizePayout { revenue: s.spent_in - fee, fee, unsold: s.out_remaining },
            ),
        )
    }

    /// Pauses the stream at `now`.
    pub fn pause(&self, now: u64) -> (r: Result<Stream, ContractError>)
        requires
            self.wf(),
        ensures
            r == self.pause_spec(now),
            r matches Ok(s) ==> s.wf(),
    {
        if let Some(e) = self.check_killswitch() {
            return Err(e);
        }
        match self.status {
            Status::Finalized => {
                return Err(ContractError::StreamAlreadyFinalized);
            },
            _ => {},
        }
        match self.update(now) {
            Err(e) => Err(e),
            Ok((s, _)) => Ok(Stream { status: Status::Paused, pause_date: Some(now), ..s }),
        }
    }

    /// Resumes a paused stream at `now`.
    pub fn resume(&self, now: u64) -> (r: Result<Stream, ContractError>)
        requires
            self.wf(),
        ensures
            r == self.resume_spec(now),
            r matches Ok(s) ==> s.wf(),
    {
        let paused_at: u64 = match self.status {
            Status::Cancelled => {
                return Err(ContractError::StreamIsCancelled);
            },
            Status::Paused => match self.pause_date {
                Some(p) => p,
                None => {
                    return Err(ContractError::StreamNotPaused);
                },
            },
            _ => {
                return Err(ContractError::StreamNotPaused);
            },
        };
        if now < paused_at {
            return Err(ContractError::ResumeBeforePause);
        }
        let paused_for: u64 = now - paused_at;
        let end_time: u64 = match self.end_time.checked_add(paused_for) {
            Some(x) => x,
            None => {
                return Err(ContractError::Arithmetic(ArithmeticError::Overflow));
            },
        };
        let start_time: u64 = self.start_time + paused_for;
        Ok(
            Stream {
                start_time,
                end_time,
                last_updated: self.last_updated + paused_for,
                status: if now >= start_time {
                    Status::Active
                } else {
                    Status::Waiting
                },
                pause_date: None,
                ..*self
            },
        )
    }

    /// Cancels the stream for good. The output that the stream has not
    /// distributed returns to the creator; the input stays for the buyers.
    pub fn cancel(&self) -> (r: Result<(Stream, CancelPayout), ContractError>)
        requires
            self.wf(),
        ensures
            r == self.cancel_spec(),
            r matches Ok((s, o)) ==> s.wf(),
    {
        proof {
            assert(0 * unit() == 0) by (nonlinear_arith);
        }
        match self.status {
            Status::Cancelled => Err(ContractError::StreamIsCancelled),
            Status::Finalized => Err(ContractError::StreamAlreadyFinalized),
            _ => Ok(
                (
                    Stream {
                        status: Status::Cancelled,
                        pause_date: None,
                        out_remaining: 0,
                        ..*self
                    },
                    CancelPayout { returned: self.out_remaining },
                ),
            ),
        }
    }
}

} // verus!
