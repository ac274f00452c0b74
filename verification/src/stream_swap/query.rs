//! Read-only views of a stream and its positions.

use crate::decimal::{unit, Decimal};
use crate::error::ContractError;
use crate::factory::{Params, StreamInfo};
use crate::payment::Coin;
use crate::pool::{Account, Pool, PoolView};
use crate::ratio::ratio_floor;
use crate::state::Stream;
use crate::stream_swap::msg::{
    AveragePriceResponse, ConfigResponse, LatestStreamedPriceResponse, PositionResponse,
    PositionsResponse, QueryMsg, StreamResponse, StreamsResponse,
};
use vstd::prelude::*;

verus! {

/// How many entries a list holds where the query names no limit.
pub const DEFAULT_LIMIT: u32 = 10;

/// How many entries a list holds at most.
pub const MAX_LIMIT: u32 = 30;

/// What a query is answered with.
#[derive(Clone, Debug, PartialEq, Eq)]
pub enum QueryResponse {
    Params(ConfigResponse),
    Stream(StreamResponse),
    Streams(StreamsResponse),
    Position(PositionResponse),
    Positions(PositionsResponse),
    AveragePrice(AveragePriceResponse),
    LastStreamedPrice(LatestStreamedPriceResponse),
    Threshold(Option<u128>),
}

/// The length of a page: the limit asked for, or the default, capped.
pub open spec fn page(limit: Option<u32>) -> nat {
    let asked = match limit {
        Some(n) => n,
        None => DEFAULT_LIMIT,
    };
    if asked > MAX_LIMIT {
        MAX_LIMIT as nat
    } else {
        asked as nat
    }
}

/// The configuration as it is reported.
pub open spec fn config_of(params: Params) -> ConfigResponse {
    ConfigResponse {
        min_stream_blocks: params.min_stream_blocks,
        min_blocks_until_start_block: params.min_blocks_until_start_block,
        accepted_in_denom: params.accepted_in_denom,
        stream_creation_denom: params.stream_creation_fee.denom,
        stream_creation_fee: params.stream_creation_fee.amount,
        exit_fee_percent: params.exit_fee_percent,
        fee_collector: params.fee_collector,
        protocol_admin: params.protocol_admin,
    }
}

/// A stream's state as it is reported.
pub open spec fn stream_view(stream: Stream, info: StreamInfo) -> StreamResponse {
    StreamResponse {
        id: stream.id,
        treasury: info.treasury,
        url: info.url,
        dist_index: stream.dist_index,
        last_updated_block: stream.last_updated,
        out_asset: Coin { denom: info.out_denom, amount: stream.out_supply },
        out_remaining: stream.out_remaining,
        in_denom: info.in_denom,
        in_supply: stream.in_supply,
        spent_in: stream.spent_in,
        shares: stream.shares,
        start_block: stream.start_time,
        end_block: stream.end_time,
        current_streamed_price: stream.current_streamed_price,
        status: stream.status,
        pause_block: stream.pause_date,
        stream_admin: info.stream_admin,
    }
}

/// A position's state as it is reported.
pub open spec fn position_view(stream_id: u64, account: Account) -> PositionResponse {
    PositionResponse {
        stream_id,
        owner: account.owner,
        in_balance: account.position.in_balance,
        shares: account.position.shares,
        index: account.position.index,
        last_updated_block: account.position.last_updated,
        purchased: account.position.purchased,
        pending_purchase: account.position.pending_purchase,
        spent: account.position.spent,
        operator: account.operator,
    }
}

impl PoolView {
    /// Where a list of positions starts: behind the account of the owner
    /// named in `start_after`, or at the first account where nobody or a
    /// stranger is named.
    pub open spec fn page_start(self, start_after: Option<String>) -> int {
        match start_after {
            Some(o) => if self.has(o@) {
                self.slot(o@) + 1
            } else {
                0
            },
            None => 0,
        }
    }

    /// Where a list of positions ends.
    pub open spec fn page_end(self, start_after: Option<String>, limit: Option<u32>) -> int {
        if self.page_start(start_after) + page(limit) > self.accounts.len() {
            self.accounts.len() as int
        } else {
            self.page_start(start_after) + page(limit)
        }
    }

    /// Whether `positions` is the page of position reports that follows
    /// `start_after`, in the order the buyers joined.
    pub open spec fn is_page(
        self,
        positions: Seq<PositionResponse>,
        start_after: Option<String>,
        limit: Option<u32>,
    ) -> bool {
        &&& positions.len() == self.page_end(start_after, limit) - self.page_start(start_after)
        &&& forall|i: int|
            0 <= i < positions.len() ==> #[trigger] positions[i] == position_view(
                self.stream.id,
                self.accounts[self.page_start(start_after) + i],
            )
    }
}

impl Stream {
    /// Output that has left `out_remaining`.
    pub open spec fn sold(self) -> nat {
        (self.out_supply - self.out_remaining) as nat
    }

    /// Consumed input per output that has left `out_remaining`; zero before
    /// any has.
    pub open spec fn average_price(self) -> Decimal {
        if self.sold() == 0 {
            Decimal { whole: 0, frac: 0 }
        } else {
            Decimal::of_atomics(ratio_floor(self.spent_in as nat, unit(), self.sold()))
        }
    }
}

/// The configuration as it is reported.
pub fn query_params(params: &Params) -> (r: ConfigResponse)
    ensures
        r == config_of(*params),
{
    ConfigResponse {
        min_stream_blocks: params.min_stream_blocks,
        min_blocks_until_start_block: params.min_blocks_until_start_block,
        accepted_in_denom: params.accepted_in_denom.clone(),
        stream_creation_denom: params.stream_creation_fee.denom.clone(),
        stream_creation_fee: params.stream_creation_fee.amount,
        exit_fee_percent: params.exit_fee_percent,
        fee_collector: params.fee_collector.clone(),
        protocol_admin: params.protocol_admin.clone(),
    }
}

/// A stream's state as it is reported.
pub fn query_stream(stream: &Stream, info: &StreamInfo) -> (r: StreamResponse)
    ensures
        r == stream_view(*stream, *info),
{
    StreamResponse {
        id: stream.id,
        treasury: info.treasury.clone(),
        url: match &info.url {
            Some(u) => Some(u.clone()),
            None => None,
        },
        dist_index: stream.dist_index,
        last_updated_block: stream.last_updated,
        out_asset: Coin { denom: info.out_denom.clone(), amount: stream.out_supply },
        out_remaining: stream.out_remaining,
        in_denom: info.in_denom.clone(),
        in_supply: stream.in_supply,
        spent_in: stream.spent_in,
        shares: stream.shares,
        start_block: stream.start_time,
        end_block: stream.end_time,
        current_streamed_price: stream.current_streamed_price,
        status: stream.status,
        pause_block: stream.pause_date,
        stream_admin: info.stream_admin.clone(),
    }
}

/// A position's state as it is reported.
pub fn query_position(stream_id: u64, account: &Account) -> (r: PositionResponse)
    ensures
        r == position_view(stream_id, *account),
{
    PositionResponse {
        stream_id,
        owner: account.owner.clone(),
        in_balance: account.position.in_balance,
        shares: account.position.shares,
        index: account.position.index,
        last_updated_block: account.position.last_updated,
        purchased: account.position.purchased,
        pending_purchase: account.position.pending_purchase,
        spent: account.position.spent,
        operator: match &account.operator {
            Some(o) => Some(o.clone()),
            None => None,
        },
    }
}

/// The length of a page: the limit asked for, or the default, capped.
pub fn page_length(limit: Option<u32>) -> (n: usize)
    ensures
        n == page(limit),
{
    let asked: u32 = match limit {
        Some(n) => n,
        None => DEFAULT_LIMIT,
    };
    if asked > MAX_LIMIT {
        MAX_LIMIT as usize
    } else {
        asked as usize
    }
}

/// The stream in a list of streams: it is listed if its identifier lies
/// behind `start_after` and the page has room.
pub fn list_streams(
    stream: &Stream,
    info: &StreamInfo,
    start_after: Option<u64>,
    limit: Option<u32>,
) -> (r: StreamsResponse)
    ensures
        r.streams@ == (if (start_after matches Some(after) ==> stream.id > after) && page(limit)
            > 0 {
            seq![stream_view(*stream, *info)]
        } else {
            Seq::<StreamResponse>::empty()
        }),
{
    let behind = match start_after {
        Some(after) => stream.id > after,
        None => true,
    };
    let mut streams: Vec<StreamResponse> = Vec::new();
    if behind && page_length(limit) > 0 {
        streams.push(query_stream(stream, info));
        proof {
            assert(streams@ =~= seq![stream_view(*stream, *info)]);
        }
    }
    StreamsResponse { streams }
}

/// A page of the positions of a pool, in the order the buyers joined.
pub fn list_positions(pool: &Pool, start_after: &Option<String>, limit: Option<u32>) -> (r:
    PositionsResponse)
    requires
        pool@.wf(),
    ensures
        pool@.is_page(r.positions@, *start_after, limit),
{
    let total: usize = pool.accounts.len();
    let start: usize = match start_after {
        Some(o) => match pool.find(o) {
            Some(i) => i + 1,
            None => 0,
        },
        None => 0,
    };
    let length = page_length(limit);
    let end: usize = if length > total - start {
        total
    } else {
        start + length
    };
    let mut positions: Vec<PositionResponse> = Vec::new();
    let mut i: usize = start;
    while i < end
        invariant
            start <= i <= end <= pool.accounts@.len(),
            positions@.len() == i - start,
            forall|k: int|
                0 <= k < positions@.len() ==> #[trigger] positions@[k] == position_view(
                    pool.stream.id,
                    pool.accounts@[start + k],
                ),
        decreases end - i,
    {
        positions.push(query_position(pool.stream.id, &pool.accounts[i]));
        i += 1;
    }
    PositionsResponse { positions }
}

/// The average price of the sale so far: consumed input per output sold.
pub fn query_average_price(stream: &Stream) -> (r: AveragePriceResponse)
    requires
        stream.wf(),
    ensures
        r.average_price == stream.average_price(),
{
    let sold: u128 = stream.out_supply - stream.out_remaining;
    let average_price = match Decimal::from_ratio(stream.spent_in, sold) {
        Ok(p) => p,
        Err(_) => Decimal::zero(),
    };
    AveragePriceResponse { average_price }
}

/// The price of the latest distribution.
pub fn query_last_streamed_price(stream: &Stream) -> (r: LatestStreamedPriceResponse)
    ensures
        r.current_streamed_price == stream.current_streamed_price,
{
    LatestStreamedPriceResponse { current_streamed_price: stream.current_streamed_price }
}

/// The stream's minimum raise, if it has one.
pub fn query_threshold(stream: &Stream) -> (r: Option<u128>)
    ensures
        r == stream.threshold,
{
    stream.threshold
}

/// Answers a query about the stream of a pool.
///
/// A query that names another stream fails with `StreamNotFound`, one for
/// the position of an owner without an account with `PositionNotFound`.
pub fn query(pool: &Pool, info: &StreamInfo, params: &Params, msg: QueryMsg) -> (r: Result<
    QueryResponse,
    ContractError,
>)
    requires
        pool@.wf(),
    ensures
        match msg {
            QueryMsg::Params {  } => r == Ok::<QueryResponse, ContractError>(
                QueryResponse::Params(config_of(*params)),
            ),
            QueryMsg::ListStreams { start_after, limit } => r matches Ok(
                QueryResponse::Streams(list),
            ) && list.streams@ == (if (start_after matches Some(after) ==> pool.stream.id > after)
                && page(limit) > 0 {
                seq![stream_view(pool.stream, *info)]
            } else {
                Seq::<StreamResponse>::empty()
            }),
            QueryMsg::Stream { stream_id } => r == (if stream_id == pool.stream.id {
                Ok::<QueryResponse, ContractError>(
                    QueryResponse::Stream(stream_view(pool.stream, *info)),
                )
            } else {
                Err(ContractError::StreamNotFound)
            }),
            QueryMsg::Position { stream_id, owner } => r == (if stream_id != pool.stream.id {
                Err::<QueryResponse, ContractError>(ContractError::StreamNotFound)
            } else if !pool@.has(owner@) {
                Err(ContractError::PositionNotFound)
            } else {
                Ok(
                    QueryResponse::Position(
                        position_view(stream_id, pool@.accounts[pool@.slot(owner@)]),
                    ),
                )
            }),
            QueryMsg::ListPositions { stream_id, start_after, limit } => if stream_id
                != pool.stream.id {
                r == Err::<QueryResponse, ContractError>(ContractError::StreamNotFound)
            } else {
                r matches Ok(QueryResponse::Positions(list)) && pool@.is_page(
                    list.positions@,
                    start_after,
                    limit,
                )
            },
            QueryMsg::AveragePrice { stream_id } => r == (if stream_id == pool.stream.id {
                Ok::<QueryResponse, ContractError>(
                    QueryResponse::AveragePrice(
                        AveragePriceResponse { average_price: pool.stream.average_price() },
                    ),
                )
            } else {
                Err(ContractError::StreamNotFound)
            }),
            QueryMsg::LastStreamedPrice { stream_id } => r == (if stream_id == pool.stream.id {
                Ok::<QueryResponse, ContractError>(
                    QueryResponse::LastStreamedPrice(
                        LatestStreamedPriceResponse {
                            current_streamed_price: pool.stream.current_streamed_price,
                        },
                    ),
                )
            } else {
                Err(ContractError::StreamNotFound)
            }),
            QueryMsg::Threshold { stream_id } => r == (if stream_id == pool.stream.id {
                Ok::<QueryResponse, ContractError>(QueryResponse::Threshold(pool.stream.threshold))
            } else {
                Err(ContractError::StreamNotFound)
            }),
        },
{
    match msg {
        QueryMsg::Params {  } => Ok(QueryResponse::Params(query_params(params))),
        QueryMsg::ListStreams { start_after, limit } => Ok(
            QueryResponse::Streams(list_streams(&pool.stream, info, start_after, limit)),
        ),
        QueryMsg::Stream { stream_id } => {
            if stream_id != pool.stream.id {
                return Err(ContractError::StreamNotFound);
            }
            Ok(QueryResponse::Stream(query_stream(&pool.stream, info)))
        },
        QueryMsg::Position { stream_id, owner } => {
            if stream_id != pool.stream.id {
                return Err(ContractError::StreamNotFound);
            }
            match pool.find(&owner) {
                None => Err(ContractError::PositionNotFound),
                Some(i) => Ok(QueryResponse::Position(query_position(stream_id, &pool.accounts[i]))),
            }
        },
        QueryMsg::ListPositions { stream_id, start_after, limit } => {
            if stream_id != pool.stream.id {
                return Err(ContractError::StreamNotFound);
            }
            Ok(QueryResponse::Positions(list_positions(pool, &start_after, limit)))
        },
        QueryMsg::AveragePrice { stream_id } => {
            if stream_id != pool.stream.id {
                return Err(ContractError::StreamNotFound);
            }
            Ok(QueryResponse::AveragePrice(query_average_price(&pool.stream)))
        },
        QueryMsg::LastStreamedPrice { stream_id } => {
            if stream_id != pool.stream.id {
                return Err(ContractError::StreamNotFound);
            }
            Ok(QueryResponse::LastStreamedPrice(query_last_streamed_price(&pool.stream)))
        },
        QueryMsg::Threshold { stream_id } => {
            if stream_id != pool.stream.id {
                return Err(ContractError::StreamNotFound);
            }
            Ok(QueryResponse::Threshold(query_threshold(&pool.stream)))
        },
    }
}

} // verus!
