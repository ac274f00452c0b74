//! Messages of the time-scheduled interface: streams are addressed by their
//! identifier and instants are nanoseconds since the epoch.

use crate::decimal::Decimal;
use vstd::prelude::*;

verus! {

/// Sets the protocol up.
#[derive(Clone, Debug, PartialEq, Eq)]
pub struct InstantiateMsg {
    pub min_stream_duration: u64,
    pub min_duration_until_start_time: u64,
    pub stream_creation_denom: String,
    pub stream_creation_fee: u128,
    pub fee_collector: String,
}

/// What can be asked of the protocol.
#[derive(Clone, Debug, PartialEq, Eq)]
pub enum ExecuteMsg {
    /// Update the distribution index.
    UpdateDistribution { stream_id: u64 },
    /// Creates a new token stream. Anyone can create one; the creation fee
    /// sent along keeps spam away.
    CreateStream {
        /// Address where the stream earnings will go.
        treasury: String,
        /// Name of the stream.
        name: String,
        /// An external resource describing the stream.
        url: String,
        /// Payment denom, used to buy the output token.
        in_denom: String,
        /// Denom to stream to the buyers.
        out_denom: String,
        out_supply: u128,
        /// When the stream starts, in nanoseconds.
        start_time: u64,
        /// When the stream ends, in nanoseconds.
        end_time: u64,
    },
    /// Subscribe to a token stream, at any time before its end, by sending
    /// the input token.
    Subscribe { stream_id: u64 },
    /// Withdraws unspent input.
    Withdraw { stream_id: u64, cap: Option<u128>, recipient: Option<String> },
    /// Brings the sender's position up to date.
    UpdatePosition { stream_id: u64 },
    /// Cleans the stream up and sends its income to the treasury. Fails
    /// before the end of the stream. Anyone can call it.
    FinalizeStream { stream_id: u64, new_treasury: Option<String> },
    /// Withdraws the purchased output and the remaining input of a buyer.
    ExitStream { stream_id: u64, recipient: Option<String> },
    /// Collects the fees held by the protocol.
    CollectFees {},
}

/// What can be read from the protocol.
#[derive(Clone, Debug, PartialEq, Eq)]
pub enum QueryMsg {
    /// One stream's state.
    Stream { stream_id: u64 },
    /// Streams by identifier, after `start_after`, at most `limit`.
    ListStreams { start_after: Option<u64>, limit: Option<u32> },
    /// One position's state.
    Position { stream_id: u64, owner: String },
    /// Positions of a stream by owner, after `start_after`, at most `limit`.
    ListPositions { stream_id: u64, start_after: Option<String>, limit: Option<u32> },
    /// The average price of a stream's sale.
    AveragePrice { stream_id: u64 },
    /// The price of a stream's latest distribution.
    LastStreamedPrice { stream_id: u64 },
}

/// One stream's state.
#[derive(Clone, Debug, PartialEq, Eq)]
pub struct StreamResponse {
    pub id: u64,
    pub treasury: String,
    pub dist_index: Decimal,
    pub shares: u128,
    pub current_stage: Decimal,
    pub token_out_denom: String,
    pub token_out_supply: u128,
    pub total_out_sold: u128,
    pub token_in_denom: String,
    pub total_in_supply: u128,
    pub total_in_spent: u128,
    pub start_time: u64,
    pub end_time: u64,
}

/// Several streams' states.
#[derive(Clone, Debug, PartialEq, Eq)]
pub struct StreamsResponse {
    pub streams: Vec<StreamResponse>,
}

/// One position's state.
#[derive(Clone, Debug, PartialEq, Eq)]
pub struct PositionResponse {
    pub stream_id: u64,
    pub owner: String,
    pub in_balance: u128,
    pub shares: u128,
    pub index: Decimal,
    pub current_stage: Decimal,
    pub purchased: u128,
    pub spent: u128,
}

/// Several positions' states.
#[derive(Clone, Debug, PartialEq, Eq)]
pub struct PositionsResponse {
    pub positions: Vec<PositionResponse>,
}

/// The average price of a stream's sale, in whole units.
#[derive(Clone, Copy, Debug, PartialEq, Eq)]
pub struct AveragePriceResponse {
    pub average_price: u128,
}

/// The price of a stream's latest distribution, in whole units.
#[derive(Clone, Copy, Debug, PartialEq, Eq)]
pub struct LatestStreamedPriceResponse {
    pub current_streamed_price: u128,
}

/// What governance can ask of the protocol.
#[derive(Clone, Debug, PartialEq, Eq)]
pub enum SudoMsg {
    /// Replaces the named parameters.
    UpdateConfig {
        min_stream_duration: Option<u64>,
        min_duration_until_start_time: Option<u64>,
        stream_creation_denom: Option<String>,
        stream_creation_fee: Option<u128>,
        fee_collector: Option<String>,
    },
}

/// Nothing to say on migration.
#[derive(Clone, Copy, Debug, PartialEq, Eq)]
pub struct MigrateMsg {}

} // verus!
