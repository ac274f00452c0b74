//! The two records of the ledger: the stream's global accounting state and a
//! buyer's position in it.

use crate::decimal::{unit, Decimal};
use vstd::prelude::*;

verus! {

/// Where a stream is in its life.
///
/// `Finalized` and `Cancelled` are absorbing. `Paused` is left only by a
/// resume or a cancel.
#[derive(Clone, Copy, Debug, PartialEq, Eq, Structural)]
pub enum Status {
    /// Created; the start of the schedule has not been observed yet.
    Waiting,
    /// Distributing.
    Active,
    /// Ended and settled with the treasury.
    Finalized,
    /// Frozen by the killswitch; may be resumed.
    Paused,
    /// Frozen for good; buyers can only take their funds back.
    Cancelled,
}

/// The global accounting state of one stream.
#[derive(Clone, Copy, Debug, PartialEq, Eq)]
pub struct Stream {
    /// Sequential identifier.
    pub id: u64,
    /// Instant at which distribution starts.
    pub start_time: u64,
    /// Instant at which distribution ends.
    pub end_time: u64,
    /// Instant through which `dist_index` is valid.
    pub last_updated: u64,
    /// Output committed at creation.
    pub out_supply: u128,
    /// Output not distributed yet.
    pub out_remaining: u128,
    /// Input deposited and not withdrawn.
    pub in_supply: u128,
    /// Input consumed by the distribution so far.
    pub spent_in: u128,
    /// Shares issued to buyers.
    pub shares: u128,
    /// Output distributed so far per share.
    pub dist_index: Decimal,
    /// Input per output of the latest distribution; for reporting only.
    pub current_streamed_price: Decimal,
    /// Lifecycle status.
    pub status: Status,
    /// Instant of the pause, while paused.
    pub pause_date: Option<u64>,
    /// Minimum raise, if any.
    pub threshold: Option<u128>,
}

/// One buyer's accounting state in one stream.
#[derive(Clone, Copy, Debug, PartialEq, Eq)]
pub struct Position {
    /// Input deposited and not yet consumed or withdrawn.
    pub in_balance: u128,
    /// This buyer's part of the stream's shares.
    pub shares: u128,
    /// The stream's `dist_index` at this position's last sync.
    pub index: Decimal,
    /// Instant of the last sync.
    pub last_updated: u64,
    /// Whole output units credited so far.
    pub purchased: u128,
    /// Credited output below one whole unit, carried to the next sync.
    pub pending_purchase: Decimal,
    /// Input consumed so far.
    pub spent: u128,
}

impl Stream {
    /// The invariant of a stream record.
    ///
    /// The schedule is not empty and `last_updated` lies inside it; what was
    /// distributed per share, at one share or more, fits in what left
    /// `out_remaining`; a pause date is kept exactly while paused; a
    /// threshold, if any, is positive.
    pub open spec fn wf(self) -> bool {
        &&& self.start_time < self.end_time
        &&& self.start_time <= self.last_updated <= self.end_time
        &&& self.out_supply > 0
        &&& self.out_remaining <= self.out_supply
        &&& self.dist_index.wf()
        &&& self.current_streamed_price.wf()
        &&& self.dist_index@ + self.out_remaining * unit() <= self.out_supply * unit()
        &&& (self.status is Paused <==> self.pause_date is Some)
        &&& self.threshold != Some(0u128)
    }

    /// The stream as it is created: nothing distributed, nothing deposited.
    pub open spec fn spec_new(
        id: u64,
        start_time: u64,
        end_time: u64,
        out_supply: u128,
        threshold: Option<u128>,
    ) -> Stream {
        Stream {
            id,
            start_time,
            end_time,
            last_updated: start_time,
            out_supply,
            out_remaining: out_supply,
            in_supply: 0,
            spent_in: 0,
            shares: 0,
            dist_index: Decimal { whole: 0, frac: 0 },
            current_streamed_price: Decimal { whole: 0, frac: 0 },
            status: Status::Waiting,
            pause_date: None,
            threshold,
        }
    }

    /// Whether the record satisfies the stream invariant.
    pub fn is_well_formed(&self) -> (b: bool)
        ensures
            b == self.wf(),
    {
        if !(self.start_time < self.end_time && self.start_time <= self.last_updated
            && self.last_updated <= self.end_time && self.out_supply > 0 && self.out_remaining
            <= self.out_supply && self.dist_index.is_well_formed()
            && self.current_streamed_price.is_well_formed()) {
            return false;
        }
        let sold = Decimal::from_uint(self.out_supply - self.out_remaining);
        proof {
            assert(sold@ + self.out_remaining * unit() == self.out_supply * unit())
                by (nonlinear_arith)
                requires
                    sold@ == (self.out_supply - self.out_remaining) * unit(),
                    self.out_remaining <= self.out_supply,
            ;
        }
        let paused = match self.status {
            Status::Paused => true,
            _ => false,
        };
        let threshold_ok = match self.threshold {
            Some(t) => t != 0,
            None => true,
        };
        self.dist_index.le(&sold) && paused == self.pause_date.is_some() && threshold_ok
    }

    /// A fresh stream in `Waiting`, or `None` where the arguments break the invariant.
    pub fn new(
        id: u64,
        start_time: u64,
        end_time: u64,
        out_supply: u128,
        threshold: Option<u128>,
    ) -> (r: Option<Stream>)
        ensures
            r == (if start_time < end_time && out_supply > 0 && threshold != Some(0u128) {
                Some(Stream::spec_new(id, start_time, end_time, out_supply, threshold))
            } else {
                None
            }),
            r matches Some(s) ==> s.wf(),
    {
        let threshold_ok = match threshold {
            Some(t) => t != 0,
            None => true,
        };
        if start_time < end_time && out_supply > 0 && threshold_ok {
            Some(
                Stream {
                    id,
                    start_time,
                    end_time,
                    last_updated: start_time,
                    out_supply,
                    out_remaining: out_supply,
                    in_supply: 0,
                    spent_in: 0,
                    shares: 0,
                    dist_index: Decimal::zero(),
                    current_streamed_price: Decimal::zero(),
                    status: Status::Waiting,
                    pause_date: None,
                    threshold,
                },
            )
        } else {
            None
        }
    }

    /// Whether no distribution can accrue any more or for now.
    pub open spec fn is_frozen(self) -> bool {
        self.status is Paused || self.status is Cancelled || self.status is Finalized
    }
}

impl Position {
    /// The invariant of a position record: the carried remainder is below one whole unit.
    pub open spec fn wf(self) -> bool {
        &&& self.index.wf()
        &&& self.pending_purchase.wf()
        &&& self.pending_purchase.whole == 0
    }

    /// The empty position of a buyer who joins at the given index.
    pub open spec fn spec_new(index: Decimal, now: u64) -> Position {
        Position {
            in_balance: 0,
            shares: 0,
            index,
            last_updated: now,
            purchased: 0,
            pending_purchase: Decimal { whole: 0, frac: 0 },
            spent: 0,
        }
    }

    /// Output credited to the position and not paid out, in atomic units.
    pub open spec fn credited(self) -> nat {
        (self.purchased * unit() + self.pending_purchase@) as nat
    }

    /// Output the position is owed at the stream index `index`, in atomic
    /// units: what is credited, and what the next sync would credit.
    pub open spec fn owed(self, index: Decimal) -> nat {
        (self.credited() + self.shares * (index@ - self.index@)) as nat
    }

    /// Whether the record satisfies the position invariant.
    pub fn is_well_formed(&self) -> (b: bool)
        ensures
            b == self.wf(),
    {
        self.index.is_well_formed() && self.pending_purchase.is_well_formed()
            && self.pending_purchase.whole == 0
    }

    /// The empty position of a buyer who joins at the given index.
    pub fn new(index: Decimal, now: u64) -> (p: Position)
        ensures
            p == Position::spec_new(index, now),
            index.wf() ==> p.wf(),
    {
        Position {
            in_balance: 0,
            shares: 0,
            index,
            last_updated: now,
            purchased: 0,
            pending_purchase: Decimal::zero(),
            spent: 0,
        }
    }
}

} // verus!
