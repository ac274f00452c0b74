//! The minimum-raise guard: a stream that ends below its threshold can be
//! cancelled by anyone.

use crate::error::{ContractError, ThresholdError};
use crate::lifecycle::CancelPayout;
use crate::state::{Status, Stream};
use vstd::prelude::*;

verus! {

/// Whether a threshold may be set at creation: any but zero.
pub open spec fn threshold_allowed(threshold: Option<u128>) -> bool {
    threshold != Some(0u128)
}

/// Rejects a threshold of zero.
pub fn check_threshold(threshold: Option<u128>) -> (r: Result<(), ThresholdError>)
    ensures
        r == (if threshold_allowed(threshold) {
            Ok::<(), ThresholdError>(())
        } else {
            Err(ThresholdError::ThresholdZero)
        }),
{
    match threshold {
        Some(t) => if t == 0 {
            Err(ThresholdError::ThresholdZero)
        } else {
            Ok(())
        },
        None => Ok(()),
    }
}

impl Stream {
    /// Whether the stream has ended without raising its threshold.
    pub open spec fn threshold_missed(self, now: u64) -> bool {
        &&& self.threshold is Some
        &&& now >= self.end_time
        &&& self.in_supply < self.threshold.unwrap()
    }

    /// The result of cancelling at `now` on account of the threshold.
    pub open spec fn cancel_with_threshold_spec(self, now: u64) -> Result<
        (Stream, CancelPayout),
        ContractError,
    > {
        if self.status is Cancelled {
            Err(ContractError::StreamIsCancelled)
        } else if self.status is Finalized {
            Err(ContractError::StreamAlreadyFinalized)
        } else if self.status is Paused {
            Err(ContractError::StreamKillswitchActive)
        } else if self.threshold is None {
            Err(ContractError::ThresholdError(ThresholdError::ThresholdNotSet))
        } else if now < self.end_time {
            Err(ContractError::StreamNotEnded)
        } else if self.in_supply >= self.threshold.unwrap() {
            Err(ContractError::ThresholdError(ThresholdError::ThresholdReached))
        } else {
            self.cancel_spec()
        }
    }

    /// Whether the stream has ended without raising its threshold.
    pub fn is_threshold_missed(&self, now: u64) -> (b: bool)
        ensures
            b == self.threshold_missed(now),
    {
        match self.threshold {
            Some(t) => now >= self.end_time && self.in_supply < t,
            None => false,
        }
    }

    /// Cancels a stream that ended below its threshold. Anyone may call it.
    pub fn cancel_with_threshold(&self, now: u64) -> (r: Result<
        (Stream, CancelPayout),
        ContractError,
    >)
        requires
            self.wf(),
        ensures
            r == self.cancel_with_threshold_spec(now),
            r is Ok <==> self.threshold_missed(now) && (self.status is Waiting
                || self.status is Active),
            r matches Ok((s, o)) ==> s.wf() && s.status is Cancelled,
    {
        match self.status {
            Status::Cancelled => {
                return Err(ContractError::StreamIsCancelled);
            },
            Status::Finalized => {
                return Err(ContractError::StreamAlreadyFinalized);
            },
            Status::Paused => {
                return Err(ContractError::StreamKillswitchActive);
            },
            _ => {},
        }
        let threshold: u128 = match self.threshold {
            Some(t) => t,
            None => {
                return Err(ContractError::ThresholdError(ThresholdError::ThresholdNotSet));
            },
        };
        if now < self.end_time {
            return Err(ContractError::StreamNotEnded);
        }
        if self.in_supply >= threshold {
            return Err(ContractError::ThresholdError(ThresholdError::ThresholdReached));
        }
        self.cancel()
    }
}

} // verus!
