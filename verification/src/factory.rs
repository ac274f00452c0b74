//! Creating streams: the protocol parameters, the checks a request has to
//! pass, and the sequential allocation of stream identifiers.

use crate::decimal::Decimal;
use crate::error::{ArithmeticError, ContractError, ErrorKind, ThresholdError};
use crate::payment::{check_payment, copy_coin, nonzero, same_funds, Coin, CustomPaymentError};
use crate::state::Stream;
use crate::validation::{check_name_and_url, name_and_url_verdict};
use vstd::prelude::*;

verus! {

/// Protocol parameters that every stream creation is held to.
#[derive(Clone, Debug, PartialEq, Eq)]
pub struct Params {
    /// What creating a stream costs.
    pub stream_creation_fee: Coin,
    /// The part of a stream's income kept as a fee.
    pub exit_fee_percent: Decimal,
    /// Shortest accepted schedule.
    pub min_stream_blocks: u64,
    /// Shortest accepted time between creation and start.
    pub min_blocks_until_start_block: u64,
    /// The one input asset that streams may ask for.
    pub accepted_in_denom: String,
    /// Who receives the fees.
    pub fee_collector: String,
    /// Who may pause, resume and cancel streams.
    pub protocol_admin: String,
}

/// A request to create a stream.
#[derive(Clone, Debug, PartialEq, Eq)]
pub struct CreateStreamMsg {
    /// Where the stream's income goes.
    pub treasury: String,
    /// Who administers the stream.
    pub stream_admin: String,
    /// The stream's name.
    pub name: String,
    /// A resource describing the stream.
    pub url: Option<String>,
    /// The asset and amount to distribute.
    pub out_asset: Coin,
    /// The asset buyers pay with.
    pub in_denom: String,
    /// Instant at which distribution starts.
    pub start_block: u64,
    /// Instant at which distribution ends.
    pub end_block: u64,
    /// Minimum raise, if any.
    pub threshold: Option<u128>,
}

/// The descriptive part of a stream, fixed at creation.
#[derive(Clone, Debug, PartialEq, Eq)]
pub struct StreamInfo {
    /// The stream's name.
    pub name: String,
    /// A resource describing the stream.
    pub url: Option<String>,
    /// Where the stream's income goes.
    pub treasury: String,
    /// Who administers the stream.
    pub stream_admin: String,
    /// The asset buyers pay with.
    pub in_denom: String,
    /// The asset that is distributed.
    pub out_denom: String,
}

/// Why a stream was not created.
#[derive(Clone, Debug, PartialEq, Eq)]
pub enum FactoryError {
    /// The input asset is not the accepted one.
    InDenomIsNotAccepted,
    /// The schedule does not end after it starts.
    StreamInvalidEndBlock,
    /// The schedule starts in the past.
    StreamInvalidStartBlock,
    /// The schedule is shorter than the protocol allows.
    StreamDurationTooShort,
    /// The schedule starts sooner than the protocol allows.
    StreamStartsTooSoon,
    /// The attached funds are not the creation fee and the output supply.
    CustomPayment(CustomPaymentError),
    /// The stream itself refused its parameters.
    Stream(ContractError),
}

impl FactoryError {
    /// The family an error belongs to: a refused asset or schedule is a
    /// validation failure, refused funds a payment failure, and what the
    /// stream refuses is of the stream's own kind.
    pub open spec fn spec_kind(self) -> ErrorKind {
        match self {
            FactoryError::CustomPayment(_) => ErrorKind::Payment,
            FactoryError::Stream(e) => e.spec_kind(),
            _ => ErrorKind::Validation,
        }
    }

    /// The family an error belongs to.
    pub fn kind(&self) -> (k: ErrorKind)
        ensures
            k == self.spec_kind(),
    {
        match self {
            FactoryError::CustomPayment(_) => ErrorKind::Payment,
            FactoryError::Stream(e) => e.kind(),
            _ => ErrorKind::Validation,
        }
    }
}

/// Allocates stream identifiers and holds the protocol parameters.
#[derive(Clone, Debug, PartialEq, Eq)]
pub struct Factory {
    /// The protocol parameters.
    pub params: Params,
    /// The identifier of the stream created last; zero before the first.
    pub last_stream_id: u64,
}

impl StreamInfo {
    /// Names a new treasury where the present treasury asks for one; any
    /// other sender's wish is ignored.
    pub fn redirect_treasury(&mut self, sender: &String, new_treasury: Option<String>)
        ensures
            *final(self) == (StreamInfo {
                treasury: if new_treasury is Some && sender@ == old(self).treasury@ {
                    new_treasury->Some_0
                } else {
                    old(self).treasury
                },
                ..*old(self)
            }),
    {
        match new_treasury {
            Some(t) => {
                if *sender == self.treasury {
                    self.treasury = t;
                }
            },
            None => {},
        }
    }
}

/// What is wrong with a schedule, if anything.
pub open spec fn schedule_fault(
    min_stream_blocks: u64,
    min_blocks_until_start_block: u64,
    now: u64,
    start: u64,
    end: u64,
) -> Option<FactoryError> {
    if end <= start {
        Some(FactoryError::StreamInvalidEndBlock)
    } else if now > start {
        Some(FactoryError::StreamInvalidStartBlock)
    } else if end - start < min_stream_blocks {
        Some(FactoryError::StreamDurationTooShort)
    } else if start - now < min_blocks_until_start_block {
        Some(FactoryError::StreamStartsTooSoon)
    } else {
        None
    }
}

/// What the stream itself finds wrong with a request, if anything: the name
/// and the URL, then the two assets, then the supply, then the threshold.
pub open spec fn stream_fault(msg: CreateStreamMsg) -> Option<ContractError> {
    let url = match msg.url {
        Some(u) => Some(u@),
        None => None,
    };
    if name_and_url_verdict(msg.name@, url) is Err {
        Some(name_and_url_verdict(msg.name@, url)->Err_0)
    } else if msg.in_denom@ == msg.out_asset.denom@ {
        Some(ContractError::SameDenomOnEachSide)
    } else if msg.out_asset.amount == 0 {
        Some(ContractError::ZeroOutSupply)
    } else if msg.threshold == Some(0u128) {
        Some(ContractError::ThresholdError(ThresholdError::ThresholdZero))
    } else {
        None
    }
}

/// Judges a schedule against the protocol's minimum durations.
pub fn check_schedule(
    min_stream_blocks: u64,
    min_blocks_until_start_block: u64,
    now: u64,
    start: u64,
    end: u64,
) -> (r: Result<(), FactoryError>)
    ensures
        match r {
            Ok(()) => schedule_fault(
                min_stream_blocks,
                min_blocks_until_start_block,
                now,
                start,
                end,
            ) is None,
            Err(e) => schedule_fault(
                min_stream_blocks,
                min_blocks_until_start_block,
                now,
                start,
                end,
            ) == Some(e),
        },
{
    if end <= start {
        Err(FactoryError::StreamInvalidEndBlock)
    } else if now > start {
        Err(FactoryError::StreamInvalidStartBlock)
    } else if end - start < min_stream_blocks {
        Err(FactoryError::StreamDurationTooShort)
    } else if start - now < min_blocks_until_start_block {
        Err(FactoryError::StreamStartsTooSoon)
    } else {
        Ok(())
    }
}

/// Judges what the stream itself asks of a request.
pub fn check_stream_params(msg: &CreateStreamMsg) -> (r: Result<(), ContractError>)
    ensures
        match r {
            Ok(()) => stream_fault(*msg) is None,
            Err(e) => stream_fault(*msg) == Some(e),
        },
{
    match check_name_and_url(&msg.name, &msg.url) {
        Err(e) => {
            return Err(e);
        },
        Ok(()) => {},
    }
    if msg.in_denom == msg.out_asset.denom {
        return Err(ContractError::SameDenomOnEachSide);
    }
    if msg.out_asset.amount == 0 {
        return Err(ContractError::ZeroOutSupply);
    }
    match msg.threshold {
        Some(t) => if t == 0 {
            return Err(ContractError::ThresholdError(ThresholdError::ThresholdZero));
        },
        None => {},
    }
    Ok(())
}

impl Factory {
    /// The funds a creation has to come with: the fee and the output supply.
    pub open spec fn expected_funds(self, msg: CreateStreamMsg) -> Seq<Coin> {
        seq![self.params.stream_creation_fee, msg.out_asset]
    }

    /// Whether a request at `now` with the attached funds is accepted.
    pub open spec fn accepts(self, msg: CreateStreamMsg, funds: Seq<Coin>, now: u64) -> bool {
        &&& msg.in_denom@ == self.params.accepted_in_denom@
        &&& schedule_fault(
            self.params.min_stream_blocks,
            self.params.min_blocks_until_start_block,
            now,
            msg.start_block,
            msg.end_block,
        ) is None
        &&& same_funds(funds, nonzero(self.expected_funds(msg)))
        &&& stream_fault(msg) is None
        &&& self.last_stream_id < u64::MAX
    }

    /// Whether `e` is the error that a request is rejected with: the first
    /// that applies, in the order asset, schedule, funds, stream, identifier.
    pub open spec fn rejects_with(
        self,
        msg: CreateStreamMsg,
        funds: Seq<Coin>,
        now: u64,
        e: FactoryError,
    ) -> bool {
        let schedule = schedule_fault(
            self.params.min_stream_blocks,
            self.params.min_blocks_until_start_block,
            now,
            msg.start_block,
            msg.end_block,
        );
        if msg.in_denom@ != self.params.accepted_in_denom@ {
            e == FactoryError::InDenomIsNotAccepted
        } else if schedule is Some {
            e == schedule.unwrap()
        } else if !same_funds(funds, nonzero(self.expected_funds(msg))) {
            e matches FactoryError::CustomPayment(
                CustomPaymentError::InsufficientFunds { expected, actual },
            ) && expected@ == nonzero(self.expected_funds(msg)) && actual@ == funds
        } else if stream_fault(msg) is Some {
            e == FactoryError::Stream(stream_fault(msg).unwrap())
        } else {
            self.last_stream_id == u64::MAX && e == FactoryError::Stream(
                ContractError::Arithmetic(ArithmeticError::Overflow),
            )
        }
    }

    /// A factory that has created no stream yet.
    pub fn new(params: Params) -> (f: Factory)
        ensures
            f.params == params,
            f.last_stream_id == 0,
    {
        Factory { params, last_stream_id: 0 }
    }

    /// Creates a stream from a request that arrives at `now` with `funds`.
    ///
    /// An accepted request gets the next identifier; its stream starts in
    /// `Waiting` with the whole supply remaining. A rejected request
    /// allocates nothing.
    pub fn create_stream(&mut self, msg: CreateStreamMsg, funds: &Vec<Coin>, now: u64) -> (r:
        Result<(Stream, StreamInfo), FactoryError>)
        ensures
            match r {
                Ok((stream, info)) => {
                    &&& old(self).accepts(msg, funds@, now)
                    &&& final(self).params == old(self).params
                    &&& final(self).last_stream_id == old(self).last_stream_id + 1
                    &&& stream == Stream::spec_new(
                        final(self).last_stream_id,
                        msg.start_block,
                        msg.end_block,
                        msg.out_asset.amount,
                        msg.threshold,
                    )
                    &&& stream.wf()
                    &&& info == (StreamInfo {
                        name: msg.name,
                        url: msg.url,
                        treasury: msg.treasury,
                        stream_admin: msg.stream_admin,
                        in_denom: msg.in_denom,
                        out_denom: msg.out_asset.denom,
                    })
                },
                Err(e) => {
                    &&& !old(self).accepts(msg, funds@, now)
                    &&& old(self).rejects_with(msg, funds@, now, e)
                    &&& *final(self) == *old(self)
                },
            },
    {
        if !(msg.in_denom == self.params.accepted_in_denom) {
            return Err(FactoryError::InDenomIsNotAccepted);
        }
        match check_schedule(
            self.params.min_stream_blocks,
            self.params.min_blocks_until_start_block,
            now,
            msg.start_block,
            msg.end_block,
        ) {
            Err(e) => {
                return Err(e);
            },
            Ok(()) => {},
        }
        let mut expected: Vec<Coin> = Vec::new();
        expected.push(copy_coin(&self.params.stream_creation_fee));
        expected.push(copy_coin(&msg.out_asset));
        proof {
            assert(expected@ =~= self.expected_funds(msg));
        }
        match check_payment(funds, &expected) {
            Err(e) => {
                return Err(FactoryError::CustomPayment(e));
            },
            Ok(()) => {},
        }
        match check_stream_params(&msg) {
            Err(e) => {
                return Err(FactoryError::Stream(e));
            },
            Ok(()) => {},
        }
        if self.last_stream_id == u64::MAX {
            return Err(
                FactoryError::Stream(ContractError::Arithmetic(ArithmeticError::Overflow)),
            );
        }
        let id: u64 = self.last_stream_id + 1;
        let stream = Stream::new(
            id,
            msg.start_block,
            msg.end_block,
            msg.out_asset.amount,
            msg.threshold,
        ).unwrap();
        self.last_stream_id = id;
        Ok(
            (
                stream,
                StreamInfo {
                    name: msg.name,
                    url: msg.url,
                    treasury: msg.treasury,
                    stream_admin: msg.stream_admin,
                    in_denom: msg.in_denom,
                    out_denom: msg.out_asset.denom,
                },
            ),
        )
    }
}

} // verus!
