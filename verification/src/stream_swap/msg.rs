//! Messages of a stream with killswitch and operators.

use crate::decimal::Decimal;
use crate::payment::Coin;
use crate::state::Status;
use vstd::prelude::*;

verus! {

/// What can be asked of a stream.
#[derive(Clone, Debug, PartialEq, Eq)]
pub enum ExecuteMsg {
    /// Updates the stream and its distribution state.
    UpdateStream { stream_id: u64 },
    /// Replaces the operator of the sender's position.
    UpdateOperator { stream_id: u64, new_operator: Option<String> },
    /// Subscribes to the stream, at any time before its end, by sending the
    /// input token.
    Subscribe {
        stream_id: u64,
        /// The owner on whose behalf the sender acts.
        operator_target: Option<String>,
        /// Who may subscribe, withdraw and update for the owner.
        operator: Option<String>,
    },
    /// Withdraws unspent input.
    Withdraw {
        stream_id: u64,
        cap: Option<u128>,
        /// The owner on whose behalf the sender acts.
        operator_target: Option<String>,
    },
    /// Brings a position up to date with the stream.
    UpdatePosition {
        stream_id: u64,
        /// The owner on whose behalf the sender acts.
        operator_target: Option<String>,
    },
    /// Cleans the stream up and sends its income to the treasury. Fails
    /// before the end of the stream. Anyone can call it.
    FinalizeStream { stream_id: u64, new_treasury: Option<String> },
    /// Withdraws the purchased output and the remaining input of a buyer,
    /// after the stream has ended.
    ExitStream {
        stream_id: u64,
        /// The owner on whose behalf the sender acts.
        operator_target: Option<String>,
    },
    /// Pauses the stream. Only the protocol admin and governance can.
    PauseStream { stream_id: u64 },
    /// Withdraws unspent input while the stream is paused.
    WithdrawPaused {
        stream_id: u64,
        cap: Option<u128>,
        /// The owner on whose behalf the sender acts.
        operator_target: Option<String>,
    },
    /// Returns to a buyer the whole balance they put into the stream, both
    /// spent and unspent, once the stream is cancelled.
    ExitCancelled {
        stream_id: u64,
        /// The owner on whose behalf the sender acts.
        operator_target: Option<String>,
    },
    /// Resumes the paused stream.
    ResumeStream { stream_id: u64 },
    /// Cancels the stream.
    CancelStream { stream_id: u64 },
    /// Cancels the stream for having ended below its threshold.
    CancelStreamWithThreshold { stream_id: u64 },
}

/// What can be read from a stream.
#[derive(Clone, Debug, PartialEq, Eq)]
pub enum QueryMsg {
    /// The current configuration.
    Params {},
    /// The stream's current state.
    Stream { stream_id: u64 },
    /// Streams by identifier, after `start_after`, at most `limit`.
    ListStreams { start_after: Option<u64>, limit: Option<u32> },
    /// The current state of a position.
    Position { stream_id: u64, owner: String },
    /// Positions by owner, after `start_after`, at most `limit`.
    ListPositions { stream_id: u64, start_after: Option<String>, limit: Option<u32> },
    /// The average price of the sale.
    AveragePrice { stream_id: u64 },
    /// The price of the latest distribution.
    LastStreamedPrice { stream_id: u64 },
    /// The stream's minimum raise.
    Threshold { stream_id: u64 },
}

/// The current configuration.
#[derive(Clone, Debug, PartialEq, Eq)]
pub struct ConfigResponse {
    /// Minimum blocks for a stream to last.
    pub min_stream_blocks: u64,
    /// Minimum blocks until the start block of a stream.
    pub min_blocks_until_start_block: u64,
    /// Denom accepted for subscription.
    pub accepted_in_denom: String,
    /// Denom used as fee for creating a stream.
    pub stream_creation_denom: String,
    /// Creation fee amount.
    pub stream_creation_fee: u128,
    /// The part of a stream's income that is collected as a fee.
    pub exit_fee_percent: Decimal,
    /// Address of the fee collector.
    pub fee_collector: String,
    /// Address of the protocol admin.
    pub protocol_admin: String,
}

/// A stream's current state.
#[derive(Clone, Debug, PartialEq, Eq)]
pub struct StreamResponse {
    pub id: u64,
    /// Address of the treasury where the stream earnings will be sent.
    pub treasury: String,
    /// URL of the stream.
    pub url: Option<String>,
    /// Output distributed so far per share.
    pub dist_index: Decimal,
    /// Block of the last update.
    pub last_updated_block: u64,
    pub out_asset: Coin,
    /// Output not distributed at the last update.
    pub out_remaining: u128,
    /// Denom of the input token.
    pub in_denom: String,
    /// Input on the buy side at the last update.
    pub in_supply: u128,
    /// Input spent at the last update.
    pub spent_in: u128,
    /// Shares minted.
    pub shares: u128,
    /// Block at which the emission starts.
    pub start_block: u64,
    /// Block at which the emission ends.
    pub end_block: u64,
    /// Price of the latest distribution.
    pub current_streamed_price: Decimal,
    /// Status of the stream.
    pub status: Status,
    /// Block at which the stream was paused.
    pub pause_block: Option<u64>,
    /// Address of the stream admin.
    pub stream_admin: String,
}

/// Several streams' states.
#[derive(Clone, Debug, PartialEq, Eq)]
pub struct StreamsResponse {
    pub streams: Vec<StreamResponse>,
}

/// A position's current state.
#[derive(Clone, Debug, PartialEq, Eq)]
pub struct PositionResponse {
    pub stream_id: u64,
    /// Creator of the position.
    pub owner: String,
    /// Input in the buy pool.
    pub in_balance: u128,
    pub shares: u128,
    /// The stream's index at the position's last update.
    pub index: Decimal,
    /// Block of the position's last update.
    pub last_updated_block: u64,
    /// Output purchased, in whole units.
    pub purchased: u128,
    /// Purchases below a whole unit, carried forward.
    pub pending_purchase: Decimal,
    /// Input spent.
    pub spent: u128,
    /// Who may act for the owner.
    pub operator: Option<String>,
}

/// Several positions' states.
#[derive(Clone, Debug, PartialEq, Eq)]
pub struct PositionsResponse {
    pub positions: Vec<PositionResponse>,
}

/// The average price of the sale.
#[derive(Clone, Copy, Debug, PartialEq, Eq)]
pub struct AveragePriceResponse {
    pub average_price: Decimal,
}

/// The price of the latest distribution.
#[derive(Clone, Copy, Debug, PartialEq, Eq)]
pub struct LatestStreamedPriceResponse {
    pub current_streamed_price: Decimal,
}

/// What governance can ask of a stream.
#[derive(Clone, Copy, Debug, PartialEq, Eq)]
pub enum SudoMsg {
    PauseStream { stream_id: u64 },
    CancelStream { stream_id: u64 },
    ResumeStream { stream_id: u64 },
}

/// Nothing to say on migration.
#[derive(Clone, Copy, Debug, PartialEq, Eq)]
pub struct MigrateMsg {}

} // verus!
