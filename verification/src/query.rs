//! Read-only views for the time-scheduled interface.

use crate::decimal::{unit, Decimal};
use crate::factory::StreamInfo;
use crate::msg::{
    AveragePriceResponse, LatestStreamedPriceResponse, PositionResponse, StreamResponse,
};
use crate::pool::Account;
use crate::ratio::ratio_floor;
use crate::state::Stream;
use vstd::prelude::*;

verus! {

impl Stream {
    /// The part of the schedule that lies before the instant `at`, which is
    /// brought into the schedule first.
    pub open spec fn stage(self, at: u64) -> Decimal {
        let t = if at < self.start_time {
            self.start_time
        } else if at > self.end_time {
            self.end_time
        } else {
            at
        };
        Decimal::of_atomics(
            ratio_floor(
                (t - self.start_time) as nat,
                unit(),
                (self.end_time - self.start_time) as nat,
            ),
        )
    }

    /// The part of the schedule that lies before the instant `at`.
    pub fn stage_at(&self, at: u64) -> (r: Decimal)
        requires
            self.wf(),
        ensures
            r == self.stage(at),
            r.wf(),
    {
        let t: u64 = if at < self.start_time {
            self.start_time
        } else if at > self.end_time {
            self.end_time
        } else {
            at
        };
        let elapsed: u64 = t - self.start_time;
        let span: u64 = self.end_time - self.start_time;
        Decimal::from_ratio(elapsed as u128, span as u128).unwrap()
    }
}

/// A stream's state as it is reported: the stage is that of its last update.
pub fn stream_response(stream: &Stream, info: &StreamInfo) -> (r: StreamResponse)
    requires
        stream.wf(),
    ensures
        r == (StreamResponse {
            id: stream.id,
            treasury: info.treasury,
            dist_index: stream.dist_index,
            shares: stream.shares,
            current_stage: stream.stage(stream.last_updated),
            token_out_denom: info.out_denom,
            token_out_supply: stream.out_supply,
            total_out_sold: (stream.out_supply - stream.out_remaining) as u128,
            token_in_denom: info.in_denom,
            total_in_supply: stream.in_supply,
            total_in_spent: stream.spent_in,
            start_time: stream.start_time,
            end_time: stream.end_time,
        }),
{
    StreamResponse {
        id: stream.id,
        treasury: info.treasury.clone(),
        dist_index: stream.dist_index,
        shares: stream.shares,
        current_stage: stream.stage_at(stream.last_updated),
        token_out_denom: info.out_denom.clone(),
        token_out_supply: stream.out_supply,
        total_out_sold: stream.out_supply - stream.out_remaining,
        token_in_denom: info.in_denom.clone(),
        total_in_supply: stream.in_supply,
        total_in_spent: stream.spent_in,
        start_time: stream.start_time,
        end_time: stream.end_time,
    }
}

/// A position's state as it is reported: the stage is that of its last sync.
pub fn position_response(stream: &Stream, account: &Account) -> (r: PositionResponse)
    requires
        stream.wf(),
    ensures
        r == (PositionResponse {
            stream_id: stream.id,
            owner: account.owner,
            in_balance: account.position.in_balance,
            shares: account.position.shares,
            index: account.position.index,
            current_stage: stream.stage(account.position.last_updated),
            purchased: account.position.purchased,
            spent: account.position.spent,
        }),
{
    PositionResponse {
        stream_id: stream.id,
        owner: account.owner.clone(),
        in_balance: account.position.in_balance,
        shares: account.position.shares,
        index: account.position.index,
        current_stage: stream.stage_at(account.position.last_updated),
        purchased: account.position.purchased,
        spent: account.position.spent,
    }
}

/// The average price of the sale so far, rounded down to whole units.
pub fn average_price(stream: &Stream) -> (r: AveragePriceResponse)
    requires
        stream.wf(),
    ensures
        r.average_price == (if stream.out_supply == stream.out_remaining {
            0
        } else {
            stream.spent_in as int / (stream.out_supply - stream.out_remaining)
        }),
{
    let sold: u128 = stream.out_supply - stream.out_remaining;
    AveragePriceResponse {
        average_price: if sold == 0 {
            0
        } else {
            stream.spent_in / sold
        },
    }
}

/// The price of the latest distribution, rounded down to whole units.
pub fn last_streamed_price(stream: &Stream) -> (r: LatestStreamedPriceResponse)
    ensures
        r.current_streamed_price == stream.current_streamed_price.whole,
{
    LatestStreamedPriceResponse { current_streamed_price: stream.current_streamed_price.whole }
}

} // verus!
