//! What buyers do with a stream: subscribe, withdraw, bring a position up to
//! date, and leave.
//!
//! Every operation takes the stream and the position as they are and returns
//! them as they become; where it fails, nothing has changed.
//!
//! Leaving an ended stream pays the output that was bought and the input
//! that was not consumed. Leaving a cancelled stream pays back all input,
//! consumed or not, and no output.

use crate::decimal::Decimal;
use crate::error::{ArithmeticError, ContractError};
use crate::ratio::{lemma_ratio_at_most_amount, mul_ratio, ratio_floor};
use crate::state::{Position, Status, Stream};
use vstd::prelude::*;

verus! {

/// What a buyer takes out of a stream when leaving it.
#[derive(Clone, Copy, Debug, PartialEq, Eq)]
pub struct ExitPayout {
    /// Whole output units that the buyer keeps.
    pub purchased: u128,
    /// Input that returns to the buyer.
    pub refunded: u128,
}

impl Stream {
    /// Stream update followed by the sync of one position.
    pub open spec fn advance_spec(self, position: Position, now: u64) -> Result<
        (Stream, Position),
        ContractError,
    > {
        match self.update_spec(now) {
            Err(e) => Err(e),
            Ok((s, d)) => match position.sync_spec(s.dist_index, d.elapsed_fraction, s.last_updated) {
                Err(e) => Err(e),
                Ok(p) => Ok((s, p)),
            },
        }
    }

    /// Why the stream takes no ordinary buyer operation in its status, if it does not.
    pub open spec fn killswitch(self) -> Option<ContractError> {
        match self.status {
            Status::Cancelled => Some(ContractError::StreamIsCancelled),
            Status::Paused => Some(ContractError::StreamKillswitchActive),
            _ => None,
        }
    }

    /// Why the stream takes no deposit at `now`, if it does not.
    pub open spec fn closed(self, now: u64) -> Option<ContractError> {
        if self.killswitch() is Some {
            self.killswitch()
        } else if self.status is Finalized || now >= self.end_time {
            Some(ContractError::StreamEnded)
        } else {
            None
        }
    }

    /// Shares issued for a deposit of `amount`: the deposit itself while the
    /// stream has no shares or no input, else the deposit divided by the
    /// stream's input per share.
    pub open spec fn shares_for(self, amount: u128) -> nat {
        if self.shares == 0 || self.in_supply == 0 {
            amount as nat
        } else {
            ratio_floor(amount as nat, self.shares as nat, self.in_supply as nat)
        }
    }

    /// Whether the sums of a deposit exist in 128 bits.
    pub open spec fn deposit_fits(self, position: Position, amount: u128) -> bool {
        &&& self.in_supply + amount <= u128::MAX
        &&& self.shares + self.shares_for(amount) <= u128::MAX
        &&& position.in_balance + amount <= u128::MAX
        &&& position.shares + self.shares_for(amount) <= u128::MAX
    }

    /// The stream and the position after a deposit of `amount` at `now`.
    pub open spec fn subscribe_spec(self, position: Position, amount: u128, now: u64) -> Result<
        (Stream, Position),
        ContractError,
    > {
        if amount == 0 {
            Err(ContractError::NoFundsSent)
        } else if self.closed(now) is Some {
            Err(self.closed(now).unwrap())
        } else {
            match self.advance_spec(position, now) {
                Err(e) => Err(e),
                Ok((s, p)) => if !s.deposit_fits(p, amount) {
                    Err(ContractError::Arithmetic(ArithmeticError::Overflow))
                } else {
                    Ok(
                        (
                            Stream {
                                in_supply: (s.in_supply + amount) as u128,
                                shares: (s.shares + s.shares_for(amount)) as u128,
                                ..s
                            },
                            Position {
                                in_balance: (p.in_balance + amount) as u128,
                                shares: (p.shares + s.shares_for(amount)) as u128,
                                ..p
                            },
                        ),
                    )
                },
            }
        }
    }

    /// Shares given up with a withdrawal of `amount` from a position: all of
    /// them with the whole balance, else in proportion.
    pub open spec fn shares_released(position: Position, amount: u128) -> nat {
        if amount == position.in_balance {
            position.shares as nat
        } else {
            ratio_floor(position.shares as nat, amount as nat, position.in_balance as nat)
        }
    }

    /// The stream and the position, both up to date, after taking out the
    /// capped amount, and the amount taken.
    pub open spec fn settle_withdrawal_spec(self, position: Position, cap: Option<u128>) -> Result<
        (Stream, Position, u128),
        ContractError,
    > {
        let amount = match cap {
            Some(c) => c,
            None => position.in_balance,
        };
        if amount > position.in_balance {
            Err(ContractError::WithdrawAmountExceedsBalance)
        } else if amount == 0 {
            Err(ContractError::InvalidWithdrawAmount)
        } else if self.in_supply < amount || self.shares < Stream::shares_released(
            position,
            amount,
        ) {
            Err(ContractError::Arithmetic(ArithmeticError::Overflow))
        } else {
            Ok(
                (
                    Stream {
                        in_supply: (self.in_supply - amount) as u128,
                        shares: (self.shares - Stream::shares_released(position, amount)) as u128,
                        ..self
                    },
                    Position {
                        in_balance: (position.in_balance - amount) as u128,
                        shares: (position.shares - Stream::shares_released(
                            position,
                            amount,
                        )) as u128,
                        ..position
                    },
                    amount,
                ),
            )
        }
    }

    /// The result of a withdrawal at `now` from a stream that is neither
    /// paused nor cancelled.
    pub open spec fn withdraw_spec(self, position: Position, cap: Option<u128>, now: u64) -> Result<
        (Stream, Position, u128),
        ContractError,
    > {
        if self.killswitch() is Some {
            Err(self.killswitch().unwrap())
        } else {
            match self.advance_spec(position, now) {
                Err(e) => Err(e),
                Ok((s, p)) => s.settle_withdrawal_spec(p, cap),
            }
        }
    }

    /// The result of a withdrawal from a paused stream.
    pub open spec fn withdraw_paused_spec(self, position: Position, cap: Option<u128>) -> Result<
        (Stream, Position, u128),
        ContractError,
    > {
        if self.status is Cancelled {
            Err(ContractError::StreamIsCancelled)
        } else if !(self.status is Paused) {
            Err(ContractError::StreamNotPaused)
        } else {
            match position.sync_spec(
                self.dist_index,
                Decimal { whole: 0, frac: 0 },
                self.last_updated,
            ) {
                Err(e) => Err(e),
                Ok(p) => self.settle_withdrawal_spec(p, cap),
            }
        }
    }

    /// The result of bringing a position up to date at `now`.
    pub open spec fn update_position_spec(self, position: Position, now: u64) -> Result<
        (Stream, Position),
        ContractError,
    > {
        if self.killswitch() is Some {
            Err(self.killswitch().unwrap())
        } else {
            self.advance_spec(position, now)
        }
    }

    /// The result of leaving an ended stream at `now`.
    pub open spec fn exit_spec(self, position: Position, now: u64) -> Result<
        (Stream, Position, ExitPayout),
        ContractError,
    > {
        if self.killswitch() is Some {
            Err(self.killswitch().unwrap())
        } else if now < self.end_time {
            Err(ContractError::StreamNotEnded)
        } else {
            match self.advance_spec(position, now) {
                Err(e) => Err(e),
                Ok((s, p)) => s.release_spec(p),
            }
        }
    }

    /// The result of leaving a cancelled stream: the buyer gets back all the
    /// input that the position holds, consumed or not, and no output; the
    /// position is zeroed and its shares are retired.
    pub open spec fn exit_cancelled_spec(self, position: Position) -> Result<
        (Stream, Position, ExitPayout),
        ContractError,
    > {
        if !(self.status is Cancelled) {
            Err(ContractError::StreamNotCancelled)
        } else if position.in_balance + position.spent > u128::MAX || self.shares
            < position.shares {
            Err(ContractError::Arithmetic(ArithmeticError::Overflow))
        } else {
            Ok(
                (
                    Stream { shares: (self.shares - position.shares) as u128, ..self },
                    Position::spec_new(self.dist_index, self.last_updated),
                    ExitPayout {
                        purchased: 0,
                        refunded: (position.in_balance + position.spent) as u128,
                    },
                ),
            )
        }
    }

    /// Zeroes a position, hands out what it holds and retires its shares.
    pub open spec fn release_spec(self, position: Position) -> Result<
        (Stream, Position, ExitPayout),
        ContractError,
    > {
        if self.shares < position.shares {
            Err(ContractError::Arithmetic(ArithmeticError::Overflow))
        } else {
            Ok(
                (
                    Stream { shares: (self.shares - position.shares) as u128, ..self },
                    Position::spec_new(self.dist_index, self.last_updated),
                    ExitPayout { purchased: position.purchased, refunded: position.in_balance },
                ),
            )
        }
    }

    /// A withdrawal gives up no more shares than the position has.
    pub proof fn lemma_shares_released_bounded(position: Position, amount: u128)
        requires
            0 < amount <= position.in_balance,
        ensures
            Stream::shares_released(position, amount) <= position.shares,
    {
        lemma_ratio_at_most_amount(
            position.shares as nat,
            amount as nat,
            position.in_balance as nat,
        );
    }

    /// Why the stream takes no ordinary buyer operation in its status, if it does not.
    pub fn check_killswitch(&self) -> (r: Option<ContractError>)
        ensures
            r == self.killswitch(),
    {
        match self.status {
            Status::Cancelled => Some(ContractError::StreamIsCancelled),
            Status::Paused => Some(ContractError::StreamKillswitchActive),
            _ => None,
        }
    }

    /// Why the stream takes no deposit at `now`, if it does not.
    pub fn check_open(&self, now: u64) -> (r: Option<ContractError>)
        ensures
            r == self.closed(now),
    {
        match self.status {
            Status::Cancelled => Some(ContractError::StreamIsCancelled),
            Status::Paused => Some(ContractError::StreamKillswitchActive),
            Status::Finalized => Some(ContractError::StreamEnded),
            _ => if now >= self.end_time {
                Some(ContractError::StreamEnded)
            } else {
                None
            },
        }
    }

    /// Updates the stream to `now` and syncs the position against it.
    pub fn advance(&self, position: &Position, now: u64) -> (r: Result<
        (Stream, Position),
        ContractError,
    >)
        requires
            self.wf(),
            position.wf(),
        ensures
            r == self.advance_spec(*position, now),
            r matches Ok((s, p)) ==> s.wf() && p.wf(),
    {
        match self.update(now) {
            Err(e) => Err(e),
            Ok((s, d)) => match position.sync(s.dist_index, d.elapsed_fraction, s.last_updated) {
                Err(e) => Err(e),
                Ok(p) => Ok((s, p)),
            },
        }
    }

    /// Deposits `amount` of input into the position at `now`.
    ///
    /// Rejects an empty deposit with `NoFundsSent`, a stream that is
    /// cancelled, paused, finalized or past its end with the matching state
    /// error, and sums beyond 128 bits with `Overflow`.
    pub fn subscribe(&self, position: &Position, amount: u128, now: u64) -> (r: Result<
        (Stream, Position),
        ContractError,
    >)
        requires
            self.wf(),
            position.wf(),
        ensures
            r == self.subscribe_spec(*position, amount, now),
            r matches Ok((s, p)) ==> s.wf() && p.wf(),
    {
        if amount == 0 {
            return Err(ContractError::NoFundsSent);
        }
        if let Some(e) = self.check_open(now) {
            return Err(e);
        }
        let (s, p) = match self.advance(position, now) {
            Err(e) => {
                return Err(e);
            },
            Ok(pair) => pair,
        };
        let overflow = Err(ContractError::Arithmetic(ArithmeticError::Overflow));
        let issued: u128 = if s.shares == 0 || s.in_supply == 0 {
            amount
        } else {
            match mul_ratio(amount, s.shares, s.in_supply) {
                Ok(x) => x,
                Err(_) => {
                    return overflow;
                },
            }
        };
        let in_supply: u128 = match s.in_supply.checked_add(amount) {
            Some(x) => x,
            None => {
                return overflow;
            },
        };
        let shares: u128 = match s.shares.checked_add(issued) {
            Some(x) => x,
            None => {
                return overflow;
            },
        };
        let in_balance: u128 = match p.in_balance.checked_add(amount) {
            Some(x) => x,
            None => {
                return overflow;
            },
        };
        let own_shares: u128 = match p.shares.checked_add(issued) {
            Some(x) => x,
            None => {
                return overflow;
            },
        };
        Ok(
            (
                Stream { in_supply, shares, ..s },
                Position { in_balance, shares: own_shares, ..p },
            ),
        )
    }

    /// Takes the capped amount out of an up-to-date position.
    pub fn settle_withdrawal(&self, position: &Position, cap: Option<u128>) -> (r: Result<
        (Stream, Position, u128),
        ContractError,
    >)
        requires
            self.wf(),
            position.wf(),
        ensures
            r == self.settle_withdrawal_spec(*position, cap),
            r matches Ok((s, p, a)) ==> s.wf() && p.wf(),
    {
        let amount: u128 = match cap {
            Some(c) => c,
            None => position.in_balance,
        };
        if amount > position.in_balance {
            return Err(ContractError::WithdrawAmountExceedsBalance);
        }
        if amount == 0 {
            return Err(ContractError::InvalidWithdrawAmount);
        }
        proof {
            Stream::lemma_shares_released_bounded(*position, amount);
        }
        let released: u128 = if amount == position.in_balance {
            position.shares
        } else {
            mul_ratio(position.shares, amount, position.in_balance).unwrap()
        };
        if self.in_supply < amount || self.shares < released {
            return Err(ContractError::Arithmetic(ArithmeticError::Overflow));
        }
        Ok(
            (
                Stream {
                    in_supply: self.in_supply - amount,
                    shares: self.shares - released,
                    ..*self
                },
                Position {
                    in_balance: position.in_balance - amount,
                    shares: position.shares - released,
                    ..*position
                },
                amount,
            ),
        )
    }

    /// Withdraws unspent input from the position at `now`: all of it, or `cap`.
    ///
    /// A cap above the balance that is left after the sync is rejected with
    /// `WithdrawAmountExceedsBalance`, an empty withdrawal with
    /// `InvalidWithdrawAmount`.
    pub fn withdraw(&self, position: &Position, cap: Option<u128>, now: u64) -> (r: Result<
        (Stream, Position, u128),
        ContractError,
    >)
        requires
            self.wf(),
            position.wf(),
        ensures
            r == self.withdraw_spec(*position, cap, now),
            r matches Ok((s, p, a)) ==> s.wf() && p.wf(),
    {
        if let Some(e) = self.check_killswitch() {
            return Err(e);
        }
        match self.advance(position, now) {
            Err(e) => Err(e),
            Ok((s, p)) => s.settle_withdrawal(&p, cap),
        }
    }

    /// Withdraws unspent input from the position while the stream is paused.
    pub fn withdraw_paused(&self, position: &Position, cap: Option<u128>) -> (r: Result<
        (Stream, Position, u128),
        ContractError,
    >)
        requires
            self.wf(),
            position.wf(),
        ensures
            r == self.withdraw_paused_spec(*position, cap),
            r matches Ok((s, p, a)) ==> s.wf() && p.wf(),
    {
        match self.status {
            Status::Cancelled => {
                return Err(ContractError::StreamIsCancelled);
            },
            Status::Paused => {},
            _ => {
                return Err(ContractError::StreamNotPaused);
            },
        }
        match position.sync(self.dist_index, Decimal::zero(), self.last_updated) {
            Err(e) => Err(e),
            Ok(p) => self.settle_withdrawal(&p, cap),
        }
    }

    /// Brings the stream and the position up to date at `now`.
    pub fn update_position(&self, position: &Position, now: u64) -> (r: Result<
        (Stream, Position),
        ContractError,
    >)
        requires
            self.wf(),
            position.wf(),
        ensures
            r == self.update_position_spec(*position, now),
            r matches Ok((s, p)) ==> s.wf() && p.wf(),
    {
        if let Some(e) = self.check_killswitch() {
            return Err(e);
        }
        self.advance(position, now)
    }

    /// Zeroes a position, hands out what it holds and retires its shares.
    pub fn release(&self, position: &Position) -> (r: Result<
        (Stream, Position, ExitPayout),
        ContractError,
    >)
        requires
            self.wf(),
        ensures
            r == self.release_spec(*position),
            r matches Ok((s, p, o)) ==> s.wf() && p.wf(),
    {
        if self.shares < position.shares {
            return Err(ContractError::Arithmetic(ArithmeticError::Overflow));
        }
        Ok(
            (
                Stream { shares: self.shares - position.shares, ..*self },
                Position::new(self.dist_index, self.last_updated),
                ExitPayout { purchased: position.purchased, refunded: position.in_balance },
            ),
        )
    }

    /// Leaves the stream once it has ended: the position is brought up to
    /// date, paid out and zeroed.
    pub fn exit(&self, position: &Position, now: u64) -> (r: Result<
        (Stream, Position, ExitPayout),
        ContractError,
    >)
        requires
            self.wf(),
            position.wf(),
        ensures
            r == self.exit_spec(*position, now),
            r matches Ok((s, p, o)) ==> s.wf() && p.wf(),
    {
        if let Some(e) = self.check_killswitch() {
            return Err(e);
        }
        if now < self.end_time {
            return Err(ContractError::StreamNotEnded);
        }
        match self.advance(position, now) {
            Err(e) => Err(e),
            Ok((s, p)) => s.release(&p),
        }
    }

    /// Leaves a cancelled stream: all input of the position, consumed or
    /// not, returns to the buyer, no output is paid, and the position is
    /// zeroed.
    pub fn exit_cancelled(&self, position: &Position) -> (r: Result<
        (Stream, Position, ExitPayout),
        ContractError,
    >)
        requires
            self.wf(),
        ensures
            r == self.exit_cancelled_spec(*position),
            r matches Ok((s, p, o)) ==> s.wf() && p.wf(),
    {
        match self.status {
            Status::Cancelled => {},
            _ => {
                return Err(ContractError::StreamNotCancelled);
            },
        }
        let refunded: u128 = match position.in_balance.checked_add(position.spent) {
            Some(x) => x,
            None => {
                return Err(ContractError::Arithmetic(ArithmeticError::Overflow));
            },
        };
        if self.shares < position.shares {
            return Err(ContractError::Arithmetic(ArithmeticError::Overflow));
        }
        Ok(
            (
                Stream { shares: self.shares - position.shares, ..*self },
                Position::new(self.dist_index, self.last_updated),
                ExitPayout { purchased: 0, refunded },
            ),
        )
    }
}

} // verus!
