//! Dispatch of messages to the operations of a pool.
//!
//! A message names the stream it is meant for; one that names another
//! stream is refused. Every other refusal, and every effect, is that of the
//! operation the message stands for.

use crate::distribution::Distribution;
use crate::error::ContractError;
use crate::factory::Params;
use crate::lifecycle::{CancelPayout, FinalizePayout};
use crate::operations::ExitPayout;
use crate::pool::{Pool, PoolView};
use crate::stream_swap::msg::{ExecuteMsg, SudoMsg};
use vstd::prelude::*;

verus! {

/// What a call did.
#[derive(Clone, Copy, Debug, PartialEq, Eq)]
pub enum Response {
    /// The stream was brought up to date.
    StreamUpdated(Distribution),
    /// The position has a new operator.
    OperatorUpdated,
    /// The attached funds were deposited.
    Subscribed,
    /// The amount is to be sent back to the buyer.
    Withdrawn(u128),
    /// The position was brought up to date.
    PositionUpdated,
    /// The stream was finalized; the payout is to be sent.
    Finalized(FinalizePayout),
    /// The buyer left; the payout is to be sent.
    Exited(ExitPayout),
    /// The stream is paused.
    Paused,
    /// The stream runs again.
    Resumed,
    /// The stream is cancelled; the payout is to be sent to the creator.
    Cancelled(CancelPayout),
}

/// Who calls, when, and with how much of the input asset attached.
#[derive(Clone, Debug, PartialEq, Eq)]
pub struct CallInfo {
    /// The current block height.
    pub now: u64,
    /// The caller's address.
    pub sender: String,
    /// The attached amount of the stream's input asset.
    pub funds: u128,
}

impl ExecuteMsg {
    /// The stream a message is meant for.
    pub open spec fn spec_stream_id(self) -> u64 {
        match self {
            ExecuteMsg::UpdateStream { stream_id } => stream_id,
            ExecuteMsg::UpdateOperator { stream_id, .. } => stream_id,
            ExecuteMsg::Subscribe { stream_id, .. } => stream_id,
            ExecuteMsg::Withdraw { stream_id, .. } => stream_id,
            ExecuteMsg::UpdatePosition { stream_id, .. } => stream_id,
            ExecuteMsg::FinalizeStream { stream_id, .. } => stream_id,
            ExecuteMsg::ExitStream { stream_id, .. } => stream_id,
            ExecuteMsg::PauseStream { stream_id } => stream_id,
            ExecuteMsg::WithdrawPaused { stream_id, .. } => stream_id,
            ExecuteMsg::ExitCancelled { stream_id, .. } => stream_id,
            ExecuteMsg::ResumeStream { stream_id } => stream_id,
            ExecuteMsg::CancelStream { stream_id } => stream_id,
            ExecuteMsg::CancelStreamWithThreshold { stream_id } => stream_id,
        }
    }

    /// The stream a message is meant for.
    pub fn stream_id(&self) -> (id: u64)
        ensures
            id == self.spec_stream_id(),
    {
        match self {
            ExecuteMsg::UpdateStream { stream_id } => *stream_id,
            ExecuteMsg::UpdateOperator { stream_id, .. } => *stream_id,
            ExecuteMsg::Subscribe { stream_id, .. } => *stream_id,
            ExecuteMsg::Withdraw { stream_id, .. } => *stream_id,
            ExecuteMsg::UpdatePosition { stream_id, .. } => *stream_id,
            ExecuteMsg::FinalizeStream { stream_id, .. } => *stream_id,
            ExecuteMsg::ExitStream { stream_id, .. } => *stream_id,
            ExecuteMsg::PauseStream { stream_id } => *stream_id,
            ExecuteMsg::WithdrawPaused { stream_id, .. } => *stream_id,
            ExecuteMsg::ExitCancelled { stream_id, .. } => *stream_id,
            ExecuteMsg::ResumeStream { stream_id } => *stream_id,
            ExecuteMsg::CancelStream { stream_id } => *stream_id,
            ExecuteMsg::CancelStreamWithThreshold { stream_id } => *stream_id,
        }
    }
}

impl SudoMsg {
    /// The stream a message is meant for.
    pub open spec fn spec_stream_id(self) -> u64 {
        match self {
            SudoMsg::PauseStream { stream_id } => stream_id,
            SudoMsg::CancelStream { stream_id } => stream_id,
            SudoMsg::ResumeStream { stream_id } => stream_id,
        }
    }

    /// The stream a message is meant for.
    pub fn stream_id(&self) -> (id: u64)
        ensures
            id == self.spec_stream_id(),
    {
        match self {
            SudoMsg::PauseStream { stream_id } => *stream_id,
            SudoMsg::CancelStream { stream_id } => *stream_id,
            SudoMsg::ResumeStream { stream_id } => *stream_id,
        }
    }
}

/// The owner a call acts for: the named target, else the sender.
pub open spec fn acting_for(sender: String, operator_target: Option<String>) -> String {
    match operator_target {
        Some(t) => t,
        None => sender,
    }
}

impl PoolView {
    /// The pool after a call, and what the call did.
    pub open spec fn execute(self, params: Params, info: CallInfo, msg: ExecuteMsg) -> Result<
        (PoolView, Response),
        ContractError,
    > {
        if msg.spec_stream_id() != self.stream.id {
            Err(ContractError::StreamNotFound)
        } else {
            match msg {
                ExecuteMsg::UpdateStream { .. } => match self.update(info.now) {
                    Err(e) => Err(e),
                    Ok((v, d)) => Ok((v, Response::StreamUpdated(d))),
                },
                ExecuteMsg::UpdateOperator { new_operator, .. } => match self.update_operator(
                    info.sender,
                    new_operator,
                ) {
                    Err(e) => Err(e),
                    Ok(v) => Ok((v, Response::OperatorUpdated)),
                },
                ExecuteMsg::Subscribe { operator_target, operator, .. } => match self.subscribe(
                    info.sender,
                    acting_for(info.sender, operator_target),
                    operator,
                    info.funds,
                    info.now,
                ) {
                    Err(e) => Err(e),
                    Ok(v) => Ok((v, Response::Subscribed)),
                },
                ExecuteMsg::Withdraw { cap, operator_target, .. } => match self.withdraw(
                    info.sender@,
                    acting_for(info.sender, operator_target)@,
                    cap,
                    info.now,
                ) {
                    Err(e) => Err(e),
                    Ok((v, a)) => Ok((v, Response::Withdrawn(a))),
                },
                ExecuteMsg::UpdatePosition { operator_target, .. } => match self.update_position(
                    info.sender@,
                    acting_for(info.sender, operator_target)@,
                    info.now,
                ) {
                    Err(e) => Err(e),
                    Ok(v) => Ok((v, Response::PositionUpdated)),
                },
                ExecuteMsg::FinalizeStream { .. } => match self.finalize(
                    info.now,
                    params.exit_fee_percent,
                ) {
                    Err(e) => Err(e),
                    Ok((v, o)) => Ok((v, Response::Finalized(o))),
                },
                ExecuteMsg::ExitStream { operator_target, .. } => match self.exit(
                    info.sender@,
                    acting_for(info.sender, operator_target)@,
                    info.now,
                ) {
                    Err(e) => Err(e),
                    Ok((v, o)) => Ok((v, Response::Exited(o))),
                },
                ExecuteMsg::PauseStream { .. } => match self.pause(
                    info.sender@,
                    params.protocol_admin@,
                    info.now,
                ) {
                    Err(e) => Err(e),
                    Ok(v) => Ok((v, Response::Paused)),
                },
                ExecuteMsg::WithdrawPaused { cap, operator_target, .. } => match self.withdraw_paused(
                    info.sender@,
                    acting_for(info.sender, operator_target)@,
                    cap,
                ) {
                    Err(e) => Err(e),
                    Ok((v, a)) => Ok((v, Response::Withdrawn(a))),
                },
                ExecuteMsg::ExitCancelled { operator_target, .. } => match self.exit_cancelled(
                    info.sender@,
                    acting_for(info.sender, operator_target)@,
                ) {
                    Err(e) => Err(e),
                    Ok((v, o)) => Ok((v, Response::Exited(o))),
                },
                ExecuteMsg::ResumeStream { .. } => match self.resume(
                    info.sender@,
                    params.protocol_admin@,
                    info.now,
                ) {
                    Err(e) => Err(e),
                    Ok(v) => Ok((v, Response::Resumed)),
                },
                ExecuteMsg::CancelStream { .. } => match self.cancel(
                    info.sender@,
                    params.protocol_admin@,
                ) {
                    Err(e) => Err(e),
                    Ok((v, o)) => Ok((v, Response::Cancelled(o))),
                },
                ExecuteMsg::CancelStreamWithThreshold { .. } => match self.cancel_with_threshold(
                    info.now,
                ) {
                    Err(e) => Err(e),
                    Ok((v, o)) => Ok((v, Response::Cancelled(o))),
                },
            }
        }
    }

    /// The pool after a call of governance, which needs no authorization.
    pub open spec fn sudo(self, params: Params, now: u64, msg: SudoMsg) -> Result<
        (PoolView, Response),
        ContractError,
    > {
        if msg.spec_stream_id() != self.stream.id {
            Err(ContractError::StreamNotFound)
        } else {
            match msg {
                SudoMsg::PauseStream { .. } => match self.stream.pause_spec(now) {
                    Err(e) => Err(e),
                    Ok(s) => Ok((self.with_stream(s), Response::Paused)),
                },
                SudoMsg::CancelStream { .. } => match self.cancelled() {
                    Err(e) => Err(e),
                    Ok((v, o)) => Ok((v, Response::Cancelled(o))),
                },
                SudoMsg::ResumeStream { .. } => match self.stream.resume_spec(now) {
                    Err(e) => Err(e),
                    Ok(s) => Ok((self.with_stream(s), Response::Resumed)),
                },
            }
        }
    }
}

/// Performs the operation that `msg` stands for.
///
/// On success the pool is as the operation leaves it and the response says
/// what is to be paid out; on failure the pool is untouched.
pub fn execute(pool: &mut Pool, params: &Params, info: &CallInfo, msg: ExecuteMsg) -> (r: Result<
    Response,
    ContractError,
>)
    requires
        old(pool)@.wf(),
        params.exit_fee_percent.wf(),
    ensures
        final(pool)@.wf(),
        match old(pool)@.execute(*params, *info, msg) {
            Ok((v, resp)) => r == Ok::<Response, ContractError>(resp) && final(pool)@ == v,
            Err(e) => r == Err::<Response, ContractError>(e) && final(pool)@ == old(pool)@,
        },
{
    if msg.stream_id() != pool.stream.id {
        return Err(ContractError::StreamNotFound);
    }
    match msg {
        ExecuteMsg::UpdateStream { .. } => match pool.update(info.now) {
            Err(e) => Err(e),
            Ok(d) => Ok(Response::StreamUpdated(d)),
        },
        ExecuteMsg::UpdateOperator { new_operator, .. } => match pool.update_operator(
            &info.sender,
            new_operator,
        ) {
            Err(e) => Err(e),
            Ok(()) => Ok(Response::OperatorUpdated),
        },
        ExecuteMsg::Subscribe { operator_target, operator, .. } => {
            let owner: &String = match &operator_target {
                Some(t) => t,
                None => &info.sender,
            };
            match pool.subscribe(&info.sender, owner, operator, info.funds, info.now) {
                Err(e) => Err(e),
                Ok(()) => Ok(Response::Subscribed),
            }
        },
        ExecuteMsg::Withdraw { cap, operator_target, .. } => {
            let owner: &String = match &operator_target {
                Some(t) => t,
                None => &info.sender,
            };
            match pool.withdraw(&info.sender, owner, cap, info.now) {
                Err(e) => Err(e),
                Ok(a) => Ok(Response::Withdrawn(a)),
            }
        },
        ExecuteMsg::UpdatePosition { operator_target, .. } => {
            let owner: &String = match &operator_target {
                Some(t) => t,
                None => &info.sender,
            };
            match pool.update_position(&info.sender, owner, info.now) {
                Err(e) => Err(e),
                Ok(()) => Ok(Response::PositionUpdated),
            }
        },
        ExecuteMsg::FinalizeStream { .. } => match pool.finalize(
            info.now,
            params.exit_fee_percent,
        ) {
            Err(e) => Err(e),
            Ok(o) => Ok(Response::Finalized(o)),
        },
        ExecuteMsg::ExitStream { operator_target, .. } => {
            let owner: &String = match &operator_target {
                Some(t) => t,
                None => &info.sender,
            };
            match pool.exit(&info.sender, owner, info.now) {
                Err(e) => Err(e),
                Ok(o) => Ok(Response::Exited(o)),
            }
        },
        ExecuteMsg::PauseStream { .. } => match pool.pause(
            &info.sender,
            &params.protocol_admin,
            info.now,
        ) {
            Err(e) => Err(e),
            Ok(()) => Ok(Response::Paused),
        },
        ExecuteMsg::WithdrawPaused { cap, operator_target, .. } => {
            let owner: &String = match &operator_target {
                Some(t) => t,
                None => &info.sender,
            };
            match pool.withdraw_paused(&info.sender, owner, cap) {
                Err(e) => Err(e),
                Ok(a) => Ok(Response::Withdrawn(a)),
            }
        },
        ExecuteMsg::ExitCancelled { operator_target, .. } => {
            let owner: &String = match &operator_target {
                Some(t) => t,
                None => &info.sender,
            };
            match pool.exit_cancelled(&info.sender, owner) {
                Err(e) => Err(e),
                Ok(o) => Ok(Response::Exited(o)),
            }
        },
        ExecuteMsg::ResumeStream { .. } => match pool.resume(
            &info.sender,
            &params.protocol_admin,
            info.now,
        ) {
            Err(e) => Err(e),
            Ok(()) => Ok(Response::Resumed),
        },
        ExecuteMsg::CancelStream { .. } => match pool.cancel(
            &info.sender,
            &params.protocol_admin,
        ) {
            Err(e) => Err(e),
            Ok(o) => Ok(Response::Cancelled(o)),
        },
        ExecuteMsg::CancelStreamWithThreshold { .. } => match pool.cancel_with_threshold(
            info.now,
        ) {
            Err(e) => Err(e),
            Ok(o) => Ok(Response::Cancelled(o)),
        },
    }
}

/// Performs the operation that governance asks for. No sender is checked.
pub fn sudo(pool: &mut Pool, params: &Params, now: u64, msg: SudoMsg) -> (r: Result<
    Response,
    ContractError,
>)
    requires
        old(pool)@.wf(),
    ensures
        final(pool)@.wf(),
        match old(pool)@.sudo(*params, now, msg) {
            Ok((v, resp)) => r == Ok::<Response, ContractError>(resp) && final(pool)@ == v,
            Err(e) => r == Err::<Response, ContractError>(e) && final(pool)@ == old(pool)@,
        },
{
    if msg.stream_id() != pool.stream.id {
        return Err(ContractError::StreamNotFound);
    }
    match msg {
        SudoMsg::PauseStream { .. } => match pool.pause(
            &params.protocol_admin,
            &params.protocol_admin,
            now,
        ) {
            Err(e) => Err(e),
            Ok(()) => Ok(Response::Paused),
        },
        SudoMsg::CancelStream { .. } => match pool.cancel(
            &params.protocol_admin,
            &params.protocol_admin,
        ) {
            Err(e) => Err(e),
            Ok(o) => Ok(Response::Cancelled(o)),
        },
        SudoMsg::ResumeStream { .. } => match pool.resume(
            &params.protocol_admin,
            &params.protocol_admin,
            now,
        ) {
            Err(e) => Err(e),
            Ok(()) => Ok(Response::Resumed),
        },
    }
}

} // verus!
