//! A stream together with all of its positions.
//!
//! The operations here are those of [`crate::operations`] and
//! [`crate::lifecycle`], applied to the account of the named owner after the
//! caller has been authorized. What they add is the invariant that only
//! holds of all positions at once: the shares add up, and the output that is
//! left or owed never exceeds what was committed.

use crate::decimal::{unit, Decimal};
use crate::distribution::Distribution;
use crate::error::ContractError;
use crate::lifecycle::{CancelPayout, FinalizePayout};
use crate::operations::ExitPayout;
use crate::state::{Position, Stream};
use crate::decimal::representable;
use crate::tally::{
    lemma_sum_affine, lemma_sum_bounds_element, lemma_sum_prefix, lemma_sum_push,
    lemma_sum_take_next, lemma_sum_update, sum,
};
use vstd::prelude::*;

verus! {

/// A buyer's position with the addresses that may act on it.
#[derive(Clone, Debug, PartialEq, Eq)]
pub struct Account {
    /// The buyer.
    pub owner: String,
    /// A delegate allowed to act for the buyer.
    pub operator: Option<String>,
    /// The buyer's accounting state.
    pub position: Position,
}

/// A stream and the accounts of its buyers, in the order they joined.
#[derive(Clone, Debug, PartialEq, Eq)]
pub struct Pool {
    /// The stream's accounting state.
    pub stream: Stream,
    /// One account per buyer.
    pub accounts: Vec<Account>,
}

/// The mathematical model of a [`Pool`].
pub struct PoolView {
    /// The stream's accounting state.
    pub stream: Stream,
    /// One account per buyer.
    pub accounts: Seq<Account>,
}

impl View for Pool {
    type V = PoolView;

    open spec fn view(&self) -> PoolView {
        PoolView { stream: self.stream, accounts: self.accounts@ }
    }
}

impl PoolView {
    /// The shares of each position.
    pub open spec fn shares(self) -> Seq<int> {
        Seq::new(self.accounts.len(), |i: int| self.accounts[i].position.shares as int)
    }

    /// The output owed to each position at the stream's index, in atomic units.
    pub open spec fn owed(self) -> Seq<int> {
        Seq::new(
            self.accounts.len(),
            |i: int| self.accounts[i].position.owed(self.stream.dist_index) as int,
        )
    }

    /// The input each position has deposited and not withdrawn.
    pub open spec fn inputs(self) -> Seq<int> {
        Seq::new(
            self.accounts.len(),
            |i: int| self.accounts[i].position.in_balance + self.accounts[i].position.spent,
        )
    }

    /// The output that is accounted for, in atomic units: what remains
    /// with the stream and what the positions are owed.
    pub open spec fn accounted(self) -> int {
        self.stream.out_remaining * unit() + sum(self.owed())
    }

    /// The invariant of a pool.
    ///
    /// Stream and positions are well formed and no position is ahead of the
    /// stream's index; no owner has two accounts; the positions' shares add
    /// up to the stream's; the output that remains and the output owed to
    /// the positions stay within the committed supply; the input of the
    /// positions stays within the stream's.
    pub open spec fn wf(self) -> bool {
        &&& self.stream.wf()
        &&& forall|i: int|
            #![trigger self.accounts[i]]
            0 <= i < self.accounts.len() ==> self.accounts[i].position.wf()
                && self.accounts[i].position.index@ <= self.stream.dist_index@
        &&& forall|i: int, j: int|
            #![trigger self.accounts[i], self.accounts[j]]
            0 <= i < j < self.accounts.len() ==> self.accounts[i].owner@ != self.accounts[j].owner@
        &&& sum(self.shares()) == self.stream.shares
        &&& self.accounted() <= self.stream.out_supply * unit()
        &&& sum(self.inputs()) <= self.stream.in_supply
    }

    /// Whether `owner` has an account.
    pub open spec fn has(self, owner: Seq<char>) -> bool {
        exists|i: int| 0 <= i < self.accounts.len() && #[trigger] self.accounts[i].owner@ == owner
    }

    /// Where the account of `owner` is.
    pub open spec fn slot(self, owner: Seq<char>) -> int {
        choose|i: int| 0 <= i < self.accounts.len() && #[trigger] self.accounts[i].owner@ == owner
    }

    /// Whether `sender` is the owner or the operator of the account at `i`.
    pub open spec fn may_act(self, i: int, sender: Seq<char>) -> bool {
        self.accounts[i].owner@ == sender || (self.accounts[i].operator matches Some(o) && o@
            == sender)
    }

    /// The account that `sender` may act on in the name of `owner`.
    pub open spec fn acting(self, sender: Seq<char>, owner: Seq<char>) -> Result<
        int,
        ContractError,
    > {
        if !self.has(owner) {
            Err(ContractError::PositionNotFound)
        } else if !self.may_act(self.slot(owner), sender) {
            Err(ContractError::Unauthorized)
        } else {
            Ok(self.slot(owner))
        }
    }

    /// The pool with a new stream state.
    pub open spec fn with_stream(self, stream: Stream) -> PoolView {
        PoolView { stream, accounts: self.accounts }
    }

    /// The pool with a new stream state and a new state of the position at `i`.
    pub open spec fn put(self, stream: Stream, i: int, position: Position) -> PoolView {
        PoolView {
            stream,
            accounts: self.accounts.update(i, Account { position, ..self.accounts[i] }),
        }
    }

    /// The pool with one more account.
    pub open spec fn joined(self, stream: Stream, account: Account) -> PoolView {
        PoolView { stream, accounts: self.accounts.push(account) }
    }

    /// The pool after an update of its stream at `now`.
    pub open spec fn update(self, now: u64) -> Result<(PoolView, Distribution), ContractError> {
        match self.stream.update_spec(now) {
            Err(e) => Err(e),
            Ok((s, d)) => Ok((self.with_stream(s), d)),
        }
    }

    /// The pool after `sender` deposits `amount` for `owner` at `now`.
    ///
    /// An owner without an account gets one, with the given operator, but
    /// only on their own deposit.
    pub open spec fn subscribe(
        self,
        sender: String,
        owner: String,
        operator: Option<String>,
        amount: u128,
        now: u64,
    ) -> Result<PoolView, ContractError> {
        if self.has(owner@) {
            if !self.may_act(self.slot(owner@), sender@) {
                Err(ContractError::Unauthorized)
            } else {
                match self.stream.subscribe_spec(
                    self.accounts[self.slot(owner@)].position,
                    amount,
                    now,
                ) {
                    Err(e) => Err(e),
                    Ok((s, p)) => Ok(self.put(s, self.slot(owner@), p)),
                }
            }
        } else if sender@ != owner@ {
            Err(ContractError::Unauthorized)
        } else {
            match self.stream.subscribe_spec(
                Position::spec_new(self.stream.dist_index, self.stream.last_updated),
                amount,
                now,
            ) {
                Err(e) => Err(e),
                Ok((s, p)) => Ok(self.joined(s, Account { owner, operator, position: p })),
            }
        }
    }

    /// The pool after a withdrawal at `now`, and the amount withdrawn.
    pub open spec fn withdraw(
        self,
        sender: Seq<char>,
        owner: Seq<char>,
        cap: Option<u128>,
        now: u64,
    ) -> Result<(PoolView, u128), ContractError> {
        match self.acting(sender, owner) {
            Err(e) => Err(e),
            Ok(i) => match self.stream.withdraw_spec(self.accounts[i].position, cap, now) {
                Err(e) => Err(e),
                Ok((s, p, a)) => Ok((self.put(s, i, p), a)),
            },
        }
    }

    /// The pool after a withdrawal while paused, and the amount withdrawn.
    pub open spec fn withdraw_paused(
        self,
        sender: Seq<char>,
        owner: Seq<char>,
        cap: Option<u128>,
    ) -> Result<(PoolView, u128), ContractError> {
        match self.acting(sender, owner) {
            Err(e) => Err(e),
            Ok(i) => match self.stream.withdraw_paused_spec(self.accounts[i].position, cap) {
                Err(e) => Err(e),
                Ok((s, p, a)) => Ok((self.put(s, i, p), a)),
            },
        }
    }

    /// The pool after bringing the position of `owner` up to date at `now`.
    pub open spec fn update_position(self, sender: Seq<char>, owner: Seq<char>, now: u64) -> Result<
        PoolView,
        ContractError,
    > {
        match self.acting(sender, owner) {
            Err(e) => Err(e),
            Ok(i) => match self.stream.update_position_spec(self.accounts[i].position, now) {
                Err(e) => Err(e),
                Ok((s, p)) => Ok(self.put(s, i, p)),
            },
        }
    }

    /// The pool after `owner` leaves the ended stream at `now`, and the payout.
    pub open spec fn exit(self, sender: Seq<char>, owner: Seq<char>, now: u64) -> Result<
        (PoolView, ExitPayout),
        ContractError,
    > {
        match self.acting(sender, owner) {
            Err(e) => Err(e),
            Ok(i) => match self.stream.exit_spec(self.accounts[i].position, now) {
                Err(e) => Err(e),
                Ok((s, p, o)) => Ok((self.put(s, i, p), o)),
            },
        }
    }

    /// The pool after `owner` leaves the cancelled stream, and the payout.
    pub open spec fn exit_cancelled(self, sender: Seq<char>, owner: Seq<char>) -> Result<
        (PoolView, ExitPayout),
        ContractError,
    > {
        match self.acting(sender, owner) {
            Err(e) => Err(e),
            Ok(i) => match self.stream.exit_cancelled_spec(self.accounts[i].position) {
                Err(e) => Err(e),
                Ok((s, p, o)) => Ok((self.put(s, i, p), o)),
            },
        }
    }

    /// The pool after the owner `sender` names a new operator, or none.
    pub open spec fn update_operator(self, sender: String, operator: Option<String>) -> Result<
        PoolView,
        ContractError,
    > {
        if !self.has(sender@) {
            Err(ContractError::PositionNotFound)
        } else {
            Ok(
                PoolView {
                    stream: self.stream,
                    accounts: self.accounts.update(
                        self.slot(sender@),
                        Account { operator, ..self.accounts[self.slot(sender@)] },
                    ),
                },
            )
        }
    }

    /// An owner's account is where it is found: owners are unique.
    pub proof fn lemma_slot(self, owner: Seq<char>, i: int)
        requires
            self.wf(),
            0 <= i < self.accounts.len(),
            self.accounts[i].owner@ == owner,
        ensures
            self.has(owner),
            self.slot(owner) == i,
    {
        let j = self.slot(owner);
        if j < i {
            assert(self.accounts[j].owner@ != self.accounts[i].owner@);
        } else if i < j {
            assert(self.accounts[i].owner@ != self.accounts[j].owner@);
        }
    }

    /// Replacing stream and one position keeps the invariant if the stream's
    /// index and supply stay, nothing more is left or owed, and shares and
    /// input change by the same amounts on both sides.
    pub proof fn lemma_put_wf(self, stream: Stream, i: int, position: Position)
        requires
            self.wf(),
            0 <= i < self.accounts.len(),
            stream.wf(),
            position.wf(),
            stream.dist_index == self.stream.dist_index,
            stream.out_supply == self.stream.out_supply,
            stream.out_remaining <= self.stream.out_remaining,
            position.index@ <= stream.dist_index@,
            position.owed(stream.dist_index) <= self.accounts[i].position.owed(
                stream.dist_index,
            ),
            stream.shares - position.shares == self.stream.shares
                - self.accounts[i].position.shares,
            stream.in_supply - (position.in_balance + position.spent) >= self.stream.in_supply - (
            self.accounts[i].position.in_balance + self.accounts[i].position.spent),
        ensures
            self.put(stream, i, position).wf(),
            self.put(stream, i, position).accounted() <= self.accounted(),
            self.put(stream, i, position).accounted() == self.accounted() - (
            self.stream.out_remaining - stream.out_remaining) * unit() - (
            self.accounts[i].position.owed(stream.dist_index) - position.owed(stream.dist_index)),
    {
        let after = self.put(stream, i, position);
        let m = unit();
        assert((self.stream.out_remaining - stream.out_remaining) * m
            == self.stream.out_remaining * m - stream.out_remaining * m) by (nonlinear_arith);
        assert(after.shares() =~= self.shares().update(i, position.shares as int));
        lemma_sum_update(self.shares(), i, position.shares as int);
        assert(after.owed() =~= self.owed().update(i, position.owed(stream.dist_index) as int));
        lemma_sum_update(self.owed(), i, position.owed(stream.dist_index) as int);
        assert(after.inputs() =~= self.inputs().update(
            i,
            position.in_balance + position.spent,
        ));
        lemma_sum_update(self.inputs(), i, position.in_balance + position.spent);
        assert(stream.out_remaining * m <= self.stream.out_remaining * m) by (nonlinear_arith)
            requires
                stream.out_remaining <= self.stream.out_remaining,
                m > 0,
        ;
        assert forall|a: int, b: int|
            #![trigger after.accounts[a], after.accounts[b]]
            0 <= a < b < after.accounts.len() implies after.accounts[a].owner@
            != after.accounts[b].owner@ by {
            assert(self.accounts[a].owner@ != self.accounts[b].owner@);
        }
        assert forall|a: int|
            #![trigger after.accounts[a]]
            0 <= a < after.accounts.len() implies after.accounts[a].position.wf()
            && after.accounts[a].position.index@ <= after.stream.dist_index@ by {
            if a != i {
                assert(self.accounts[a].position.wf());
            }
        }
    }

    /// Changing the stream alone keeps the invariant if its index, supply
    /// and shares stay, no more output is left and no less input is held.
    pub proof fn lemma_with_stream_wf(self, stream: Stream)
        requires
            self.wf(),
            stream.wf(),
            stream.dist_index == self.stream.dist_index,
            stream.out_supply == self.stream.out_supply,
            stream.out_remaining <= self.stream.out_remaining,
            stream.shares == self.stream.shares,
            stream.in_supply >= self.stream.in_supply,
        ensures
            self.with_stream(stream).wf(),
            self.with_stream(stream).accounted() <= self.accounted(),
            self.with_stream(stream).accounted() == self.accounted() - (
            self.stream.out_remaining - stream.out_remaining) * unit(),
    {
        let after = self.with_stream(stream);
        let m = unit();
        assert((self.stream.out_remaining - stream.out_remaining) * m
            == self.stream.out_remaining * m - stream.out_remaining * m) by (nonlinear_arith);
        assert(after.shares() =~= self.shares());
        assert(after.owed() =~= self.owed());
        assert(after.inputs() =~= self.inputs());
        assert(stream.out_remaining * m <= self.stream.out_remaining * m) by (nonlinear_arith)
            requires
                stream.out_remaining <= self.stream.out_remaining,
                m > 0,
        ;
        assert forall|a: int|
            #![trigger after.accounts[a]]
            0 <= a < after.accounts.len() implies after.accounts[a].position.wf()
            && after.accounts[a].position.index@ <= after.stream.dist_index@ by {
            assert(self.accounts[a].position.wf());
        }
    }

    /// An update of the stream keeps the invariant: what the index gains,
    /// summed over all shares, is at most what left `out_remaining`.
    pub proof fn lemma_update_wf(self, now: u64)
        requires
            self.wf(),
        ensures
            self.stream.update_spec(now) matches Ok((s, d)) ==> {
                &&& self.with_stream(s).wf()
                &&& self.with_stream(s).accounted() <= self.accounted()
                &&& self.with_stream(s).accounted() == self.accounted() - self.stream.lost(now)
                &&& s.dist_index@ >= self.stream.dist_index@
                &&& d.elapsed_fraction.wf()
                &&& d.elapsed_fraction@ <= unit()
            },
    {
        if let Ok((s, d)) = self.stream.update_spec(now) {
            let after = self.with_stream(s);
            let m = unit() as int;
            self.stream.lemma_update_wf(now);
            self.stream.lemma_update_bounds(now);
            if self.stream.accrues(now) {
                let gain = self.stream.index_gain(now) as int;
                Decimal::lemma_of_atomics_exact(self.stream.dist_index@ + self.stream.index_gain(now));
                assert(s.dist_index@ == self.stream.dist_index@ + gain);
                assert forall|a: int| 0 <= a < after.accounts.len() implies after.owed()[a]
                    == self.owed()[a] + gain * #[trigger] self.shares()[a] by {
                    let p = self.accounts[a].position;
                    assert(p.wf());
                    assert(p.shares * (s.dist_index@ - p.index@) == p.shares * (
                    self.stream.dist_index@ - p.index@) + gain * p.shares) by (nonlinear_arith)
                        requires
                            s.dist_index@ == self.stream.dist_index@ + gain,
                    ;
                    assert(p.shares * (self.stream.dist_index@ - p.index@) >= 0)
                        by (nonlinear_arith)
                        requires
                            p.index@ <= self.stream.dist_index@,
                    ;
                    assert(gain * p.shares >= 0) by (nonlinear_arith)
                        requires
                            gain >= 0,
                    ;
                }
                lemma_sum_affine(self.owed(), self.shares(), after.owed(), gain);
                assert(after.shares() =~= self.shares());
                assert(after.inputs() =~= self.inputs());
                let rel = self.stream.released(now) as int;
                assert(after.accounted() == self.accounted() - self.stream.lost(now))
                    by (nonlinear_arith)
                    requires
                        after.accounted() == s.out_remaining * m + sum(after.owed()),
                        self.accounted() == self.stream.out_remaining * m + sum(self.owed()),
                        self.stream.lost(now) == rel * m - gain * self.stream.shares,
                        s.out_remaining == self.stream.out_remaining - rel,
                        sum(after.owed()) == sum(self.owed()) + gain * sum(self.shares()),
                        sum(self.shares()) == self.stream.shares,
                ;
                assert(s.out_remaining * m + sum(after.owed()) <= s.out_supply * m)
                    by (nonlinear_arith)
                    requires
                        s.out_remaining == self.stream.out_remaining - rel,
                        s.out_supply == self.stream.out_supply,
                        sum(after.owed()) == sum(self.owed()) + gain * sum(self.shares()),
                        sum(self.shares()) == self.stream.shares,
                        gain * self.stream.shares <= rel * m,
                        self.stream.out_remaining * m + sum(self.owed())
                            <= self.stream.out_supply * m,
                ;
                assert forall|a: int|
                    #![trigger after.accounts[a]]
                    0 <= a < after.accounts.len() implies after.accounts[a].position.wf()
                    && after.accounts[a].position.index@ <= after.stream.dist_index@ by {
                    assert(self.accounts[a].position.wf());
                }
            } else {
                assert(self.stream.elapsed(now) == 0);
            }
        }
    }

    /// A sync of one position against the stream's index keeps the invariant.
    pub proof fn lemma_sync_wf(self, i: int, fraction: Decimal, now: u64)
        requires
            self.wf(),
            0 <= i < self.accounts.len(),
        ensures
            self.accounts[i].position.sync_spec(self.stream.dist_index, fraction, now) matches Ok(
                p,
            ) ==> self.put(self.stream, i, p).wf() && self.put(self.stream, i, p).accounted()
                == self.accounted() && p.index == self.stream.dist_index
                && p.wf(),
    {
        let before = self.accounts[i].position;
        assert(before.wf());
        before.lemma_sync_keeps_owed(self.stream.dist_index, fraction, now);
        if let Ok(p) = before.sync_spec(self.stream.dist_index, fraction, now) {
            self.lemma_put_wf(self.stream, i, p);
        }
    }

    /// Updating the stream and syncing one position keeps the invariant.
    pub proof fn lemma_advance_wf(self, i: int, now: u64)
        requires
            self.wf(),
            0 <= i < self.accounts.len(),
        ensures
            self.stream.advance_spec(self.accounts[i].position, now) matches Ok((s, p))
                ==> self.put(s, i, p).wf() && self.put(s, i, p).accounted() <= self.accounted()
                && self.put(s, i, p).accounted() == self.accounted() - self.stream.lost(now)
                && p.index == s.dist_index && s.wf() && p.wf() && p.owed(s.dist_index)
                == self.accounts[i].position.owed(s.dist_index),
    {
        self.lemma_update_wf(now);
        if let Ok((s, d)) = self.stream.update_spec(now) {
            let mid = self.with_stream(s);
            mid.lemma_sync_wf(i, d.elapsed_fraction, s.last_updated);
            assert(self.accounts[i].position.wf());
            self.accounts[i].position.lemma_sync_keeps_owed(
                s.dist_index,
                d.elapsed_fraction,
                s.last_updated,
            );
            if let Ok(p) = self.accounts[i].position.sync_spec(
                s.dist_index,
                d.elapsed_fraction,
                s.last_updated,
            ) {
                assert(mid.put(s, i, p).accounts =~= self.put(s, i, p).accounts);
            }
        }
    }

    /// Once a position is at the stream's index, changing its balance and
    /// shares together with the stream's keeps the invariant.
    pub proof fn lemma_adjust_wf(self, stream: Stream, i: int, position: Position)
        requires
            self.wf(),
            0 <= i < self.accounts.len(),
            self.accounts[i].position.index == self.stream.dist_index,
            stream == (Stream { in_supply: stream.in_supply, shares: stream.shares, ..self.stream }),
            position == (Position {
                in_balance: position.in_balance,
                shares: position.shares,
                ..self.accounts[i].position
            }),
            stream.shares - position.shares == self.stream.shares
                - self.accounts[i].position.shares,
            stream.in_supply - position.in_balance == self.stream.in_supply
                - self.accounts[i].position.in_balance,
        ensures
            self.put(stream, i, position).wf(),
            self.put(stream, i, position).accounted() == self.accounted(),
    {
        let before = self.accounts[i].position;
        assert(before.wf());
        assert(position.shares * (stream.dist_index@ - position.index@) == 0)
            by (nonlinear_arith)
            requires
                stream.dist_index@ == position.index@,
        ;
        assert(before.shares * (stream.dist_index@ - before.index@) == 0) by (nonlinear_arith)
            requires
                stream.dist_index@ == before.index@,
        ;
        self.lemma_put_wf(stream, i, position);
    }

    /// Zeroing a position and retiring its shares keeps the invariant.
    pub proof fn lemma_release_wf(self, i: int)
        requires
            self.wf(),
            0 <= i < self.accounts.len(),
        ensures
            self.stream.release_spec(self.accounts[i].position) matches Ok((s, p, o))
                ==> self.put(s, i, p).wf() && self.put(s, i, p).accounted() + o.purchased
                * unit() <= self.accounted() && self.put(s, i, p).accounted()
                + self.accounts[i].position.owed(self.stream.dist_index) == self.accounted(),
            self.stream.release_spec(self.accounts[i].position) is Ok,
    {
        let before = self.accounts[i].position;
        assert(before.wf());
        crate::tally::lemma_sum_bounds_element(self.shares(), i);
        assert(before.shares * (self.stream.dist_index@ - before.index@) >= 0)
            by (nonlinear_arith)
            requires
                before.index@ <= self.stream.dist_index@,
        ;
        if let Ok((s, p, o)) = self.stream.release_spec(before) {
            assert(p.shares * (s.dist_index@ - p.index@) == 0) by (nonlinear_arith)
                requires
                    p.shares == 0,
            ;
            assert(p.purchased * unit() == 0) by (nonlinear_arith)
                requires
                    p.purchased == 0,
            ;
            assert(p.pending_purchase@ == 0);
            self.lemma_put_wf(s, i, p);
        }
    }

    /// A new account with an empty position keeps the invariant.
    pub proof fn lemma_joined_wf(self, account: Account)
        requires
            self.wf(),
            !self.has(account.owner@),
            account.position == Position::spec_new(
                self.stream.dist_index,
                account.position.last_updated,
            ),
        ensures
            self.joined(self.stream, account).wf(),
            self.joined(self.stream, account).accounted() == self.accounted(),
    {
        let after = self.joined(self.stream, account);
        let p = account.position;
        assert(p.shares * (self.stream.dist_index@ - p.index@) == 0) by (nonlinear_arith)
            requires
                p.shares == 0,
        ;
        assert(p.purchased * unit() == 0) by (nonlinear_arith)
            requires
                p.purchased == 0,
        ;
        assert(after.shares() =~= self.shares().push(0));
        lemma_sum_push(self.shares(), 0);
        assert(after.owed() =~= self.owed().push(0));
        lemma_sum_push(self.owed(), 0);
        assert(after.inputs() =~= self.inputs().push(0));
        lemma_sum_push(self.inputs(), 0);
        assert forall|a: int, b: int|
            #![trigger after.accounts[a], after.accounts[b]]
            0 <= a < b < after.accounts.len() implies after.accounts[a].owner@
            != after.accounts[b].owner@ by {
            if b < self.accounts.len() {
                assert(self.accounts[a].owner@ != self.accounts[b].owner@);
            } else {
                assert(self.accounts[a].owner@ != account.owner@);
            }
        }
        assert forall|a: int|
            #![trigger after.accounts[a]]
            0 <= a < after.accounts.len() implies after.accounts[a].position.wf()
            && after.accounts[a].position.index@ <= after.stream.dist_index@ by {
            if a < self.accounts.len() {
                assert(self.accounts[a].position.wf());
            }
        }
    }

    /// The pool after finalizing its stream at `now`, and the payout.
    pub open spec fn finalize(self, now: u64, exit_fee_percent: Decimal) -> Result<
        (PoolView, FinalizePayout),
        ContractError,
    > {
        match self.stream.finalize_spec(now, exit_fee_percent) {
            Err(e) => Err(e),
            Ok((s, o)) => Ok((self.with_stream(s), o)),
        }
    }

    /// The pool after the admin pauses its stream at `now`.
    pub open spec fn pause(self, sender: Seq<char>, admin: Seq<char>, now: u64) -> Result<
        PoolView,
        ContractError,
    > {
        if sender != admin {
            Err(ContractError::Unauthorized)
        } else {
            match self.stream.pause_spec(now) {
                Err(e) => Err(e),
                Ok(s) => Ok(self.with_stream(s)),
            }
        }
    }

    /// The pool after the admin resumes its stream at `now`.
    pub open spec fn resume(self, sender: Seq<char>, admin: Seq<char>, now: u64) -> Result<
        PoolView,
        ContractError,
    > {
        if sender != admin {
            Err(ContractError::Unauthorized)
        } else {
            match self.stream.resume_spec(now) {
                Err(e) => Err(e),
                Ok(s) => Ok(self.with_stream(s)),
            }
        }
    }

    /// The whole output units credited to each position.
    pub open spec fn purchased(self) -> Seq<int> {
        Seq::new(self.accounts.len(), |i: int| self.accounts[i].position.purchased as int)
    }

    /// The output credited to each position, in atomic units.
    pub open spec fn credited(self) -> Seq<int> {
        Seq::new(self.accounts.len(), |i: int| self.accounts[i].position.credited() as int)
    }

    /// The pool with a new stream state and with nothing credited to any
    /// position any more.
    pub open spec fn swept(self, stream: Stream) -> PoolView {
        PoolView {
            stream,
            accounts: Seq::new(
                self.accounts.len(),
                |i: int|
                    Account {
                        position: Position {
                            purchased: 0,
                            pending_purchase: Decimal { whole: 0, frac: 0 },
                            ..self.accounts[i].position
                        },
                        ..self.accounts[i]
                    },
            ),
        }
    }

    /// The pool after its stream is cancelled: no output stays credited to
    /// any buyer. What returns to the creator is the output that the stream
    /// had not distributed and every whole unit that was credited.
    pub open spec fn cancelled(self) -> Result<(PoolView, CancelPayout), ContractError> {
        match self.stream.cancel_spec() {
            Err(e) => Err(e),
            Ok((s, o)) => Ok(
                (
                    self.swept(s),
                    CancelPayout { returned: (o.returned + sum(self.purchased())) as u128 },
                ),
            ),
        }
    }

    /// The pool after the admin cancels its stream, and what returns to the creator.
    pub open spec fn cancel(self, sender: Seq<char>, admin: Seq<char>) -> Result<
        (PoolView, CancelPayout),
        ContractError,
    > {
        if sender != admin {
            Err(ContractError::Unauthorized)
        } else {
            self.cancelled()
        }
    }

    /// The pool after its stream is cancelled for missing its threshold.
    pub open spec fn cancel_with_threshold(self, now: u64) -> Result<
        (PoolView, CancelPayout),
        ContractError,
    > {
        match self.stream.cancel_with_threshold_spec(now) {
            Err(e) => Err(e),
            Ok((s, o)) => self.cancelled(),
        }
    }

    /// Cancelling keeps the invariant. What returns to the creator is
    /// within the supply and was accounted for, and nothing stays credited.
    pub proof fn lemma_cancelled_wf(self)
        requires
            self.wf(),
        ensures
            0 <= sum(self.purchased()),
            self.stream.out_remaining + sum(self.purchased()) <= self.stream.out_supply,
            self.cancelled() matches Ok((v, o)) ==> {
                &&& v.wf()
                &&& o.returned == self.stream.out_remaining + sum(self.purchased())
                &&& v.accounted() + o.returned * unit() <= self.accounted()
                &&& v.stream.status is Cancelled
            },
    {
        let m = unit() as int;
        let n = self.accounts.len();
        let pending = Seq::new(n, |i: int| self.accounts[i].position.pending_purchase@ as int);
        assert forall|i: int| 0 <= i < n implies self.credited()[i] == pending[i] + m
            * #[trigger] self.purchased()[i] by {
            let p = self.accounts[i].position;
            assert(p.purchased * m == m * p.purchased) by (nonlinear_arith);
        }
        lemma_sum_affine(pending, self.purchased(), self.credited(), m);
        crate::tally::lemma_sum_nonnegative(pending);
        crate::tally::lemma_sum_nonnegative(self.purchased());
        let rest = Seq::new(
            n,
            |i: int|
                self.accounts[i].position.shares * (self.stream.dist_index@
                    - self.accounts[i].position.index@),
        );
        assert forall|i: int| 0 <= i < n implies 0 <= #[trigger] rest[i] by {
            let p = self.accounts[i].position;
            assert(p.wf());
            assert(p.shares * (self.stream.dist_index@ - p.index@) >= 0) by (nonlinear_arith)
                requires
                    p.index@ <= self.stream.dist_index@,
            ;
        }
        assert forall|i: int| 0 <= i < n implies self.owed()[i] == rest[i] + 1
            * #[trigger] self.credited()[i] by {}
        lemma_sum_affine(rest, self.credited(), self.owed(), 1);
        crate::tally::lemma_sum_nonnegative(rest);
        let total = sum(self.purchased());
        let left = self.stream.out_remaining as int;
        assert((left + total) * m <= self.stream.out_supply * m) by (nonlinear_arith)
            requires
                left * m + sum(self.owed()) <= self.stream.out_supply * m,
                sum(self.owed()) == sum(rest) + sum(self.credited()),
                sum(self.credited()) == sum(pending) + m * total,
                sum(rest) >= 0,
                sum(pending) >= 0,
        ;
        assert(left + total <= self.stream.out_supply) by (nonlinear_arith)
            requires
                (left + total) * m <= self.stream.out_supply * m,
                m > 0,
        ;
        if let Ok((v, o)) = self.cancelled() {
            assert(0 * unit() == 0) by (nonlinear_arith);
            assert(v.shares() =~= self.shares());
            assert(v.inputs() =~= self.inputs());
            assert(v.owed() =~= rest) by {
                assert forall|i: int| 0 <= i < n implies v.owed()[i] == rest[i] by {
                    let p = v.accounts[i].position;
                    assert(p.purchased * unit() == 0) by (nonlinear_arith)
                        requires
                            p.purchased == 0,
                    ;
                }
            }
            assert(o.returned * unit() == left * m + total * m) by (nonlinear_arith)
                requires
                    o.returned == left + total,
                    m == unit(),
            ;
            assert(total * m == m * total) by (nonlinear_arith);
            assert forall|a: int, b: int|
                #![trigger v.accounts[a], v.accounts[b]]
                0 <= a < b < v.accounts.len() implies v.accounts[a].owner@
                != v.accounts[b].owner@ by {
                assert(self.accounts[a].owner@ != self.accounts[b].owner@);
            }
            assert forall|a: int|
                #![trigger v.accounts[a]]
                0 <= a < v.accounts.len() implies v.accounts[a].position.wf()
                && v.accounts[a].position.index@ <= v.stream.dist_index@ by {
                assert(self.accounts[a].position.wf());
            }
        }
    }

    /// Leaving a cancelled stream keeps the invariant; it pays no output,
    /// and never fails for want of range in a well-formed pool.
    pub proof fn lemma_exit_cancelled_wf(self, i: int)
        requires
            self.wf(),
            0 <= i < self.accounts.len(),
        ensures
            self.stream.exit_cancelled_spec(self.accounts[i].position) matches Ok((s, p, o))
                ==> self.put(s, i, p).wf() && self.put(s, i, p).accounted() <= self.accounted()
                && o.purchased == 0 && o.refunded == self.accounts[i].position.in_balance
                + self.accounts[i].position.spent,
            self.stream.status is Cancelled ==> self.stream.exit_cancelled_spec(
                self.accounts[i].position,
            ) is Ok,
    {
        let before = self.accounts[i].position;
        assert(before.wf());
        lemma_sum_bounds_element(self.shares(), i);
        lemma_sum_bounds_element(self.inputs(), i);
        assert(before.shares * (self.stream.dist_index@ - before.index@) >= 0)
            by (nonlinear_arith)
            requires
                before.index@ <= self.stream.dist_index@,
        ;
        if let Ok((s, p, o)) = self.stream.exit_cancelled_spec(before) {
            assert(p.shares * (s.dist_index@ - p.index@) == 0) by (nonlinear_arith)
                requires
                    p.shares == 0,
            ;
            assert(p.purchased * unit() == 0) by (nonlinear_arith)
                requires
                    p.purchased == 0,
            ;
            assert(p.pending_purchase@ == 0);
            self.lemma_put_wf(s, i, p);
        }
    }

    /// A deposit keeps the invariant.
    pub proof fn lemma_subscribe_wf(self, i: int, amount: u128, now: u64)
        requires
            self.wf(),
            0 <= i < self.accounts.len(),
        ensures
            self.stream.subscribe_spec(self.accounts[i].position, amount, now) matches Ok((s, p))
                ==> self.put(s, i, p).wf() && self.put(s, i, p).accounted() <= self.accounted()
                && self.put(s, i, p).accounted() == self.accounted() - self.stream.lost(now),
    {
        if let Ok((s, p)) = self.stream.subscribe_spec(self.accounts[i].position, amount, now) {
            self.lemma_advance_wf(i, now);
            let (updated, synced) = self.stream.advance_spec(self.accounts[i].position, now).unwrap();
            let mid = self.put(updated, i, synced);
            mid.lemma_adjust_wf(s, i, p);
            assert(mid.put(s, i, p).accounts =~= self.put(s, i, p).accounts);
        }
    }

    /// Taking input out of an up-to-date position keeps the invariant.
    pub proof fn lemma_settle_wf(self, i: int, cap: Option<u128>)
        requires
            self.wf(),
            0 <= i < self.accounts.len(),
            self.accounts[i].position.index == self.stream.dist_index,
        ensures
            self.stream.settle_withdrawal_spec(self.accounts[i].position, cap) matches Ok(
                (s, p, a),
            ) ==> self.put(s, i, p).wf() && self.put(s, i, p).accounted() <= self.accounted()
                && self.put(s, i, p).accounted() == self.accounted(),
    {
        if let Ok((s, p, a)) = self.stream.settle_withdrawal_spec(self.accounts[i].position, cap) {
            Stream::lemma_shares_released_bounded(self.accounts[i].position, a);
            self.lemma_adjust_wf(s, i, p);
        }
    }

    /// A withdrawal keeps the invariant.
    pub proof fn lemma_withdraw_wf(self, i: int, cap: Option<u128>, now: u64)
        requires
            self.wf(),
            0 <= i < self.accounts.len(),
        ensures
            self.stream.withdraw_spec(self.accounts[i].position, cap, now) matches Ok((s, p, a))
                ==> self.put(s, i, p).wf() && self.put(s, i, p).accounted() <= self.accounted()
                && self.put(s, i, p).accounted() == self.accounted() - self.stream.lost(now),
    {
        if let Ok((s, p, a)) = self.stream.withdraw_spec(self.accounts[i].position, cap, now) {
            self.lemma_advance_wf(i, now);
            let (updated, synced) = self.stream.advance_spec(self.accounts[i].position, now).unwrap();
            let mid = self.put(updated, i, synced);
            mid.lemma_settle_wf(i, cap);
            assert(mid.put(s, i, p).accounts =~= self.put(s, i, p).accounts);
        }
    }

    /// A withdrawal while paused keeps the invariant.
    pub proof fn lemma_withdraw_paused_wf(self, i: int, cap: Option<u128>)
        requires
            self.wf(),
            0 <= i < self.accounts.len(),
        ensures
            self.stream.withdraw_paused_spec(self.accounts[i].position, cap) matches Ok((s, p, a))
                ==> self.put(s, i, p).wf() && self.put(s, i, p).accounted() <= self.accounted()
                && self.put(s, i, p).accounted() == self.accounted(),
    {
        if let Ok((s, p, a)) = self.stream.withdraw_paused_spec(self.accounts[i].position, cap) {
            let zero = Decimal { whole: 0, frac: 0 };
            self.lemma_sync_wf(i, zero, self.stream.last_updated);
            let synced = self.accounts[i].position.sync_spec(
                self.stream.dist_index,
                zero,
                self.stream.last_updated,
            ).unwrap();
            let mid = self.put(self.stream, i, synced);
            mid.lemma_settle_wf(i, cap);
            assert(mid.put(s, i, p).accounts =~= self.put(s, i, p).accounts);
        }
    }

    /// Leaving an ended stream keeps the invariant.
    pub proof fn lemma_exit_wf(self, i: int, now: u64)
        requires
            self.wf(),
            0 <= i < self.accounts.len(),
        ensures
            self.stream.exit_spec(self.accounts[i].position, now) matches Ok((s, p, o))
                ==> self.put(s, i, p).wf() && self.put(s, i, p).accounted() + o.purchased
                * unit() <= self.accounted() && self.put(s, i, p).accounted()
                + self.accounts[i].position.owed(s.dist_index) == self.accounted()
                - self.stream.lost(now),
    {
        if let Ok((s, p, o)) = self.stream.exit_spec(self.accounts[i].position, now) {
            self.lemma_advance_wf(i, now);
            let (updated, synced) = self.stream.advance_spec(self.accounts[i].position, now).unwrap();
            let mid = self.put(updated, i, synced);
            mid.lemma_release_wf(i);
            assert(mid.put(s, i, p).accounts =~= self.put(s, i, p).accounts);
        }
    }

    /// Finalizing keeps the invariant.
    pub proof fn lemma_finalize_wf(self, now: u64, exit_fee_percent: Decimal)
        requires
            self.wf(),
        ensures
            self.stream.finalize_spec(now, exit_fee_percent) matches Ok((s, o))
                ==> self.with_stream(s).wf() && self.with_stream(s).accounted() + o.unsold
                * unit() <= self.accounted() && self.with_stream(s).accounted() + o.unsold
                * unit() == self.accounted() - self.stream.lost(now),
    {
        if let Ok((s, o)) = self.stream.finalize_spec(now, exit_fee_percent) {
            self.lemma_update_wf(now);
            let (updated, d) = self.stream.update_spec(now).unwrap();
            assert(0 * unit() == 0) by (nonlinear_arith);
            let mid = self.with_stream(updated);
            mid.lemma_with_stream_wf(s);
            assert(mid.with_stream(s).owed() =~= mid.owed());
        }
    }

    /// Pausing keeps the invariant.
    pub proof fn lemma_pause_wf(self, now: u64)
        requires
            self.wf(),
        ensures
            self.stream.pause_spec(now) matches Ok(s) ==> self.with_stream(s).wf()
                && self.with_stream(s).accounted() <= self.accounted() && self.with_stream(
                s,
            ).accounted() == self.accounted() - self.stream.lost(now),
    {
        if let Ok(s) = self.stream.pause_spec(now) {
            self.lemma_update_wf(now);
            let (updated, d) = self.stream.update_spec(now).unwrap();
            self.with_stream(updated).lemma_with_stream_wf(s);
        }
    }

    /// The first deposit of a new owner keeps the invariant.
    pub proof fn lemma_join_wf(
        self,
        owner: String,
        operator: Option<String>,
        amount: u128,
        now: u64,
    )
        requires
            self.wf(),
            !self.has(owner@),
        ensures
            self.stream.subscribe_spec(
                Position::spec_new(self.stream.dist_index, self.stream.last_updated),
                amount,
                now,
            ) matches Ok((s, p)) ==> self.joined(s, Account { owner, operator, position: p }).wf() && self.joined(
                s,
                Account { owner, operator, position: p },
            ).accounted() <= self.accounted() && self.joined(
                s,
                Account { owner, operator, position: p },
            ).accounted() == self.accounted() - self.stream.lost(now),
    {
        let fresh = Position::spec_new(self.stream.dist_index, self.stream.last_updated);
        let account = Account { owner, operator, position: fresh };
        self.lemma_joined_wf(account);
        let with_fresh = self.joined(self.stream, account);
        let n = self.accounts.len() as int;
        with_fresh.lemma_subscribe_wf(n, amount, now);
        if let Ok((s, p)) = self.stream.subscribe_spec(fresh, amount, now) {
            assert(with_fresh.put(s, n, p).accounts =~= self.joined(
                s,
                Account { owner, operator, position: p },
            ).accounts);
        }
    }

    /// Naming a new operator keeps the invariant.
    pub proof fn lemma_update_operator_wf(self, sender: String, operator: Option<String>)
        requires
            self.wf(),
        ensures
            self.update_operator(sender, operator) matches Ok(v) ==> v.wf() && v.accounted() == self.accounted(),
    {
        if let Ok(after) = self.update_operator(sender, operator) {
            assert(after.shares() =~= self.shares());
            assert(after.owed() =~= self.owed());
            assert(after.inputs() =~= self.inputs());
            assert forall|a: int, b: int|
                #![trigger after.accounts[a], after.accounts[b]]
                0 <= a < b < after.accounts.len() implies after.accounts[a].owner@
                != after.accounts[b].owner@ by {
                assert(self.accounts[a].owner@ != self.accounts[b].owner@);
            }
            assert forall|a: int|
                #![trigger after.accounts[a]]
                0 <= a < after.accounts.len() implies after.accounts[a].position.wf()
                && after.accounts[a].position.index@ <= after.stream.dist_index@ by {
                assert(self.accounts[a].position.wf());
            }
        }
    }
}

impl Pool {
    /// The pool of a stream that nobody has joined yet, or `None` where the
    /// stream is not well formed or already has shares.
    pub fn new(stream: Stream) -> (r: Option<Pool>)
        ensures
            r is Some <==> stream.wf() && stream.shares == 0,
            r matches Some(pool) ==> pool@.wf() && pool.stream == stream && pool.accounts@.len()
                == 0,
    {
        if stream.is_well_formed() && stream.shares == 0 {
            let pool = Pool { stream, accounts: Vec::new() };
            proof {
                assert(pool@.shares() =~= Seq::<int>::empty());
                assert(pool@.owed() =~= Seq::<int>::empty());
                assert(pool@.inputs() =~= Seq::<int>::empty());
            }
            Some(pool)
        } else {
            None
        }
    }

    /// Whether every position is well formed and none is ahead of the stream's index.
    pub fn positions_in_order(&self) -> (b: bool)
        requires
            self.stream.wf(),
        ensures
            b == (forall|i: int|
                #![trigger self@.accounts[i]]
                0 <= i < self@.accounts.len() ==> self@.accounts[i].position.wf()
                    && self@.accounts[i].position.index@ <= self@.stream.dist_index@),
    {
        let mut i: usize = 0;
        while i < self.accounts.len()
            invariant
                i <= self.accounts@.len(),
                self.stream.wf(),
                forall|j: int|
                    #![trigger self@.accounts[j]]
                    0 <= j < i ==> self@.accounts[j].position.wf()
                        && self@.accounts[j].position.index@ <= self@.stream.dist_index@,
            decreases self.accounts@.len() - i,
        {
            let p = &self.accounts[i].position;
            if !p.is_well_formed() || !p.index.le(&self.stream.dist_index) {
                assert(!(self@.accounts[i as int].position.wf() && self@.accounts[i as int].position.index@
                    <= self@.stream.dist_index@));
                return false;
            }
            i += 1;
        }
        true
    }

    /// Whether no owner has two accounts.
    pub fn owners_distinct(&self) -> (b: bool)
        ensures
            b == (forall|i: int, j: int|
                #![trigger self@.accounts[i], self@.accounts[j]]
                0 <= i < j < self@.accounts.len() ==> self@.accounts[i].owner@
                    != self@.accounts[j].owner@),
    {
        let mut j: usize = 0;
        while j < self.accounts.len()
            invariant
                j <= self.accounts@.len(),
                forall|a: int, b: int|
                    #![trigger self@.accounts[a], self@.accounts[b]]
                    0 <= a < b < j ==> self@.accounts[a].owner@ != self@.accounts[b].owner@,
            decreases self.accounts@.len() - j,
        {
            let mut i: usize = 0;
            while i < j
                invariant
                    i <= j < self.accounts@.len(),
                    forall|a: int|
                        #![trigger self@.accounts[a]]
                        0 <= a < i ==> self@.accounts[a].owner@ != self@.accounts[j as int].owner@,
                decreases j - i,
            {
                if self.accounts[i].owner == self.accounts[j].owner {
                    assert(self@.accounts[i as int].owner@ == self@.accounts[j as int].owner@);
                    return false;
                }
                i += 1;
            }
            j += 1;
        }
        true
    }

    /// Whether the positions' shares add up to the stream's.
    pub fn shares_add_up(&self) -> (b: bool)
        ensures
            b == (sum(self@.shares()) == self.stream.shares),
    {
        let ghost all = self@.shares();
        let mut total: u128 = 0;
        let mut i: usize = 0;
        while i < self.accounts.len()
            invariant
                i <= self.accounts@.len(),
                all == self@.shares(),
                total == sum(all.take(i as int)),
            decreases self.accounts@.len() - i,
        {
            proof {
                lemma_sum_take_next(all, i as int);
                lemma_sum_prefix(all, i + 1);
            }
            total = match total.checked_add(self.accounts[i].position.shares) {
                Some(t) => t,
                None => {
                    return false;
                },
            };
            i += 1;
        }
        proof {
            assert(all.take(all.len() as int) =~= all);
        }
        total == self.stream.shares
    }

    /// Whether the input of the positions, unspent and spent, stays within the stream's.
    pub fn inputs_within_supply(&self) -> (b: bool)
        ensures
            b == (sum(self@.inputs()) <= self.stream.in_supply),
    {
        let ghost all = self@.inputs();
        let mut total: u128 = 0;
        let mut i: usize = 0;
        while i < self.accounts.len()
            invariant
                i <= self.accounts@.len(),
                all == self@.inputs(),
                total == sum(all.take(i as int)),
            decreases self.accounts@.len() - i,
        {
            proof {
                lemma_sum_take_next(all, i as int);
                lemma_sum_prefix(all, i + 1);
            }
            let p = &self.accounts[i].position;
            let own: u128 = match p.in_balance.checked_add(p.spent) {
                Some(t) => t,
                None => {
                    return false;
                },
            };
            total = match total.checked_add(own) {
                Some(t) => t,
                None => {
                    return false;
                },
            };
            i += 1;
        }
        proof {
            assert(all.take(all.len() as int) =~= all);
        }
        total <= self.stream.in_supply
    }

    /// Whether the output that remains and the output owed to the positions
    /// stay within the committed supply.
    pub fn output_conserved(&self) -> (b: bool)
        requires
            self.stream.wf(),
            forall|i: int|
                #![trigger self@.accounts[i]]
                0 <= i < self@.accounts.len() ==> self@.accounts[i].position.wf()
                    && self@.accounts[i].position.index@ <= self@.stream.dist_index@,
        ensures
            b == (self.stream.out_remaining * unit() + sum(self@.owed()) <= self.stream.out_supply
                * unit()),
    {
        let ghost all = self@.owed();
        let ghost m = unit() as int;
        let budget = Decimal::from_uint(self.stream.out_supply - self.stream.out_remaining);
        proof {
            assert(budget@ + self.stream.out_remaining * m == self.stream.out_supply * m)
                by (nonlinear_arith)
                requires
                    budget@ == (self.stream.out_supply - self.stream.out_remaining) * m,
            ;
            budget.lemma_of_atomics_view();
        }
        let mut total = Decimal::zero();
        let mut i: usize = 0;
        while i < self.accounts.len()
            invariant
                i <= self.accounts@.len(),
                all == self@.owed(),
                m == unit(),
                self.stream.wf(),
                total.wf(),
                total@ == sum(all.take(i as int)),
                budget.wf(),
                representable(budget@),
                budget@ + self.stream.out_remaining * m == self.stream.out_supply * m,
                forall|j: int|
                    #![trigger self@.accounts[j]]
                    0 <= j < self@.accounts.len() ==> self@.accounts[j].position.wf()
                        && self@.accounts[j].position.index@ <= self@.stream.dist_index@,
            decreases self.accounts@.len() - i,
        {
            let p = &self.accounts[i].position;
            proof {
                assert(self@.accounts[i as int].position.wf());
                lemma_sum_take_next(all, i as int);
                lemma_sum_prefix(all, i + 1);
                lemma_sum_bounds_element(all, i as int);
                assert(p.shares * (self.stream.dist_index@ - p.index@) >= 0) by (nonlinear_arith)
                    requires
                        p.index@ <= self.stream.dist_index@,
                ;
            }
            let delta = self.stream.dist_index.checked_sub(&p.index).unwrap();
            proof {
                assert(delta@ * (p.shares as nat) == p.shares * (self.stream.dist_index@
                    - p.index@)) by (nonlinear_arith)
                    requires
                        delta@ == self.stream.dist_index@ - p.index@,
                ;
            }
            let credited = Decimal { whole: p.purchased, frac: p.pending_purchase.frac };
            let owed = match delta.checked_mul_int(p.shares) {
                Err(_) => {
                    proof {
                        crate::position::lemma_representable_monotone(
                            delta@ * (p.shares as nat),
                            budget@,
                        );
                    }
                    return false;
                },
                Ok(gross) => match gross.checked_add(&credited) {
                    Err(_) => {
                        proof {
                            crate::position::lemma_representable_monotone(
                                gross@ + credited@,
                                budget@,
                            );
                        }
                        return false;
                    },
                    Ok(o) => o,
                },
            };
            total = match total.checked_add(&owed) {
                Err(_) => {
                    proof {
                        crate::position::lemma_representable_monotone(total@ + owed@, budget@);
                    }
                    return false;
                },
                Ok(t) => t,
            };
            if !total.le(&budget) {
                return false;
            }
            i += 1;
        }
        proof {
            assert(all.take(all.len() as int) =~= all);
        }
        total.le(&budget)
    }

    /// Whether the pool satisfies its invariant.
    pub fn is_well_formed(&self) -> (b: bool)
        ensures
            b == self@.wf(),
    {
        self.stream.is_well_formed() && self.positions_in_order() && self.owners_distinct()
            && self.shares_add_up() && self.output_conserved() && self.inputs_within_supply()
    }

    /// Where the account of `owner` is, if there is one.
    pub fn find(&self, owner: &String) -> (r: Option<usize>)
        requires
            self@.wf(),
        ensures
            match r {
                Some(i) => self@.has(owner@) && i == self@.slot(owner@) && i
                    < self.accounts@.len(),
                None => !self@.has(owner@),
            },
    {
        let mut i: usize = 0;
        while i < self.accounts.len()
            invariant
                i <= self.accounts@.len(),
                self@.wf(),
                forall|j: int| 0 <= j < i ==> (#[trigger] self.accounts@[j]).owner@ != owner@,
            decreases self.accounts@.len() - i,
        {
            if self.accounts[i].owner == *owner {
                proof {
                    self@.lemma_slot(owner@, i as int);
                }
                return Some(i);
            }
            i += 1;
        }
        None
    }

    /// The account that `sender` may act on in the name of `owner`.
    pub fn resolve(&self, sender: &String, owner: &String) -> (r: Result<usize, ContractError>)
        requires
            self@.wf(),
        ensures
            match r {
                Ok(i) => self@.acting(sender@, owner@) == Ok::<int, ContractError>(i as int) && i
                    < self.accounts@.len(),
                Err(e) => self@.acting(sender@, owner@) == Err::<int, ContractError>(e),
            },
    {
        match self.find(owner) {
            None => Err(ContractError::PositionNotFound),
            Some(i) => {
                let allowed = self.accounts[i].owner == *sender || match &self.accounts[i].operator {
                    Some(o) => *o == *sender,
                    None => false,
                };
                if allowed {
                    Ok(i)
                } else {
                    Err(ContractError::Unauthorized)
                }
            },
        }
    }

    /// Stores a new stream state and a new state of the position at `i`.
    fn commit(&mut self, stream: Stream, i: usize, position: Position)
        requires
            i < old(self).accounts@.len(),
        ensures
            final(self)@ == old(self)@.put(stream, i as int, position),
    {
        self.stream = stream;
        self.accounts[i].position = position;
        proof {
            assert(self@.accounts =~= old(self)@.put(stream, i as int, position).accounts);
        }
    }

    /// Brings the stream to the instant `now`.
    pub fn update(&mut self, now: u64) -> (r: Result<Distribution, ContractError>)
        requires
            old(self)@.wf(),
        ensures
            final(self)@.wf(),
            match old(self)@.update(now) {
                Ok((v, d)) => r == Ok::<Distribution, ContractError>(d) && final(self)@ == v,
                Err(e) => r == Err::<Distribution, ContractError>(e) && final(self)@ == old(
                    self,
                )@,
            },
    {
        proof {
            self@.lemma_update_wf(now);
        }
        match self.stream.update(now) {
            Err(e) => Err(e),
            Ok((s, d)) => {
                self.stream = s;
                Ok(d)
            },
        }
    }

    /// Deposits `amount` of input for `owner` at `now`.
    ///
    /// `sender` must be the owner or the operator of the account. An owner
    /// without an account gets one, with `operator` as its operator, but
    /// only on their own deposit.
    pub fn subscribe(
        &mut self,
        sender: &String,
        owner: &String,
        operator: Option<String>,
        amount: u128,
        now: u64,
    ) -> (r: Result<(), ContractError>)
        requires
            old(self)@.wf(),
        ensures
            final(self)@.wf(),
            match old(self)@.subscribe(*sender, *owner, operator, amount, now) {
                Ok(v) => r is Ok && final(self)@ == v,
                Err(e) => r == Err::<(), ContractError>(e) && final(self)@ == old(self)@,
            },
    {
        match self.find(owner) {
            Some(i) => {
                let allowed = self.accounts[i].owner == *sender || match &self.accounts[i].operator {
                    Some(o) => *o == *sender,
                    None => false,
                };
                if !allowed {
                    return Err(ContractError::Unauthorized);
                }
                proof {
                    assert(self@.accounts[i as int].position.wf());
                    self@.lemma_subscribe_wf(i as int, amount, now);
                }
                match self.stream.subscribe(&self.accounts[i].position, amount, now) {
                    Err(e) => Err(e),
                    Ok((s, p)) => {
                        self.commit(s, i, p);
                        Ok(())
                    },
                }
            },
            None => {
                if !(*sender == *owner) {
                    return Err(ContractError::Unauthorized);
                }
                let fresh = Position::new(self.stream.dist_index, self.stream.last_updated);
                let name = owner.clone();
                proof {
                    self@.lemma_join_wf(name, operator, amount, now);
                }
                match self.stream.subscribe(&fresh, amount, now) {
                    Err(e) => Err(e),
                    Ok((s, p)) => {
                        self.stream = s;
                        self.accounts.push(Account { owner: name, operator, position: p });
                        Ok(())
                    },
                }
            },
        }
    }

    /// Withdraws unspent input of `owner` at `now`: all of it, or `cap`.
    /// Returns the amount withdrawn.
    pub fn withdraw(&mut self, sender: &String, owner: &String, cap: Option<u128>, now: u64) -> (r:
        Result<u128, ContractError>)
        requires
            old(self)@.wf(),
        ensures
            final(self)@.wf(),
            match old(self)@.withdraw(sender@, owner@, cap, now) {
                Ok((v, a)) => r == Ok::<u128, ContractError>(a) && final(self)@ == v,
                Err(e) => r == Err::<u128, ContractError>(e) && final(self)@ == old(self)@,
            },
    {
        let i = match self.resolve(sender, owner) {
            Err(e) => {
                return Err(e);
            },
            Ok(i) => i,
        };
        proof {
            assert(self@.accounts[i as int].position.wf());
            self@.lemma_withdraw_wf(i as int, cap, now);
        }
        match self.stream.withdraw(&self.accounts[i].position, cap, now) {
            Err(e) => Err(e),
            Ok((s, p, a)) => {
                self.commit(s, i, p);
                Ok(a)
            },
        }
    }

    /// Withdraws unspent input of `owner` while the stream is paused.
    /// Returns the amount withdrawn.
    pub fn withdraw_paused(&mut self, sender: &String, owner: &String, cap: Option<u128>) -> (r:
        Result<u128, ContractError>)
        requires
            old(self)@.wf(),
        ensures
            final(self)@.wf(),
            match old(self)@.withdraw_paused(sender@, owner@, cap) {
                Ok((v, a)) => r == Ok::<u128, ContractError>(a) && final(self)@ == v,
                Err(e) => r == Err::<u128, ContractError>(e) && final(self)@ == old(self)@,
            },
    {
        let i = match self.resolve(sender, owner) {
            Err(e) => {
                return Err(e);
            },
            Ok(i) => i,
        };
        proof {
            assert(self@.accounts[i as int].position.wf());
            self@.lemma_withdraw_paused_wf(i as int, cap);
        }
        match self.stream.withdraw_paused(&self.accounts[i].position, cap) {
            Err(e) => Err(e),
            Ok((s, p, a)) => {
                self.commit(s, i, p);
                Ok(a)
            },
        }
    }

    /// Brings the stream and the position of `owner` up to date at `now`.
    pub fn update_position(&mut self, sender: &String, owner: &String, now: u64) -> (r: Result<
        (),
        ContractError,
    >)
        requires
            old(self)@.wf(),
        ensures
            final(self)@.wf(),
            match old(self)@.update_position(sender@, owner@, now) {
                Ok(v) => r is Ok && final(self)@ == v,
                Err(e) => r == Err::<(), ContractError>(e) && final(self)@ == old(self)@,
            },
    {
        let i = match self.resolve(sender, owner) {
            Err(e) => {
                return Err(e);
            },
            Ok(i) => i,
        };
        proof {
            assert(self@.accounts[i as int].position.wf());
            self@.lemma_advance_wf(i as int, now);
        }
        match self.stream.update_position(&self.accounts[i].position, now) {
            Err(e) => Err(e),
            Ok((s, p)) => {
                self.commit(s, i, p);
                Ok(())
            },
        }
    }

    /// `owner` leaves the ended stream at `now`. Returns what is paid out.
    pub fn exit(&mut self, sender: &String, owner: &String, now: u64) -> (r: Result<
        ExitPayout,
        ContractError,
    >)
        requires
            old(self)@.wf(),
        ensures
            final(self)@.wf(),
            match old(self)@.exit(sender@, owner@, now) {
                Ok((v, o)) => r == Ok::<ExitPayout, ContractError>(o) && final(self)@ == v,
                Err(e) => r == Err::<ExitPayout, ContractError>(e) && final(self)@ == old(
                    self,
                )@,
            },
    {
        let i = match self.resolve(sender, owner) {
            Err(e) => {
                return Err(e);
            },
            Ok(i) => i,
        };
        proof {
            assert(self@.accounts[i as int].position.wf());
            self@.lemma_exit_wf(i as int, now);
        }
        match self.stream.exit(&self.accounts[i].position, now) {
            Err(e) => Err(e),
            Ok((s, p, o)) => {
                self.commit(s, i, p);
                Ok(o)
            },
        }
    }

    /// `owner` leaves the cancelled stream and takes all of their input
    /// back, consumed or not. Returns what is paid out.
    pub fn exit_cancelled(&mut self, sender: &String, owner: &String) -> (r: Result<
        ExitPayout,
        ContractError,
    >)
        requires
            old(self)@.wf(),
        ensures
            final(self)@.wf(),
            match old(self)@.exit_cancelled(sender@, owner@) {
                Ok((v, o)) => r == Ok::<ExitPayout, ContractError>(o) && final(self)@ == v,
                Err(e) => r == Err::<ExitPayout, ContractError>(e) && final(self)@ == old(
                    self,
                )@,
            },
    {
        let i = match self.resolve(sender, owner) {
            Err(e) => {
                return Err(e);
            },
            Ok(i) => i,
        };
        proof {
            self@.lemma_exit_cancelled_wf(i as int);
        }
        match self.stream.exit_cancelled(&self.accounts[i].position) {
            Err(e) => Err(e),
            Ok((s, p, o)) => {
                self.commit(s, i, p);
                Ok(o)
            },
        }
    }

    /// The owner `sender` names a new operator for their account, or none.
    pub fn update_operator(&mut self, sender: &String, operator: Option<String>) -> (r: Result<
        (),
        ContractError,
    >)
        requires
            old(self)@.wf(),
        ensures
            final(self)@.wf(),
            match old(self)@.update_operator(*sender, operator) {
                Ok(v) => r is Ok && final(self)@ == v,
                Err(e) => r == Err::<(), ContractError>(e) && final(self)@ == old(self)@,
            },
    {
        match self.find(sender) {
            None => Err(ContractError::PositionNotFound),
            Some(i) => {
                proof {
                    self@.lemma_update_operator_wf(*sender, operator);
                }
                self.accounts[i].operator = operator;
                proof {
                    assert(self@.accounts =~= old(self)@.update_operator(
                        *sender,
                        operator,
                    ).unwrap().accounts);
                }
                Ok(())
            },
        }
    }

    /// Finalizes the stream at `now`. Anyone may call it.
    pub fn finalize(&mut self, now: u64, exit_fee_percent: Decimal) -> (r: Result<
        FinalizePayout,
        ContractError,
    >)
        requires
            old(self)@.wf(),
            exit_fee_percent.wf(),
        ensures
            final(self)@.wf(),
            match old(self)@.finalize(now, exit_fee_percent) {
                Ok((v, o)) => r == Ok::<FinalizePayout, ContractError>(o) && final(self)@ == v,
                Err(e) => r == Err::<FinalizePayout, ContractError>(e) && final(self)@ == old(
                    self,
                )@,
            },
    {
        proof {
            self@.lemma_finalize_wf(now, exit_fee_percent);
        }
        match self.stream.finalize(now, exit_fee_percent) {
            Err(e) => Err(e),
            Ok((s, o)) => {
                self.stream = s;
                Ok(o)
            },
        }
    }

    /// Pauses the stream at `now`. Only the admin may.
    pub fn pause(&mut self, sender: &String, admin: &String, now: u64) -> (r: Result<
        (),
        ContractError,
    >)
        requires
            old(self)@.wf(),
        ensures
            final(self)@.wf(),
            match old(self)@.pause(sender@, admin@, now) {
                Ok(v) => r is Ok && final(self)@ == v,
                Err(e) => r == Err::<(), ContractError>(e) && final(self)@ == old(self)@,
            },
    {
        if !(*sender == *admin) {
            return Err(ContractError::Unauthorized);
        }
        proof {
            self@.lemma_pause_wf(now);
        }
        match self.stream.pause(now) {
            Err(e) => Err(e),
            Ok(s) => {
                self.stream = s;
                Ok(())
            },
        }
    }

    /// Resumes the paused stream at `now`. Only the admin may.
    pub fn resume(&mut self, sender: &String, admin: &String, now: u64) -> (r: Result<
        (),
        ContractError,
    >)
        requires
            old(self)@.wf(),
        ensures
            final(self)@.wf(),
            match old(self)@.resume(sender@, admin@, now) {
                Ok(v) => r is Ok && final(self)@ == v,
                Err(e) => r == Err::<(), ContractError>(e) && final(self)@ == old(self)@,
            },
    {
        if !(*sender == *admin) {
            return Err(ContractError::Unauthorized);
        }
        match self.stream.resume(now) {
            Err(e) => Err(e),
            Ok(s) => {
                proof {
                    self@.lemma_with_stream_wf(s);
                }
                self.stream = s;
                Ok(())
            },
        }
    }

    /// Takes every credited unit of output off the positions and returns how
    /// many whole units there were.
    fn sweep(&mut self) -> (total: u128)
        requires
            sum(old(self)@.purchased()) <= u128::MAX,
        ensures
            total == sum(old(self)@.purchased()),
            final(self)@ == old(self)@.swept(old(self).stream),
    {
        let ghost before = self@;
        let ghost all = before.purchased();
        let mut total: u128 = 0;
        let mut i: usize = 0;
        while i < self.accounts.len()
            invariant
                i <= self.accounts@.len(),
                self.accounts@.len() == before.accounts.len(),
                self.stream == before.stream,
                all == before.purchased(),
                sum(all) <= u128::MAX,
                total == sum(all.take(i as int)),
                forall|j: int|
                    0 <= j < i ==> #[trigger] self.accounts@[j] == before.swept(
                        before.stream,
                    ).accounts[j],
                forall|j: int|
                    i <= j < self.accounts@.len() ==> #[trigger] self.accounts@[j]
                        == before.accounts[j],
            decreases self.accounts@.len() - i,
        {
            proof {
                lemma_sum_take_next(all, i as int);
                lemma_sum_prefix(all, i + 1);
            }
            let p = self.accounts[i].position;
            total = total + p.purchased;
            self.accounts[i].position = Position {
                purchased: 0,
                pending_purchase: Decimal::zero(),
                ..p
            };
            i += 1;
        }
        proof {
            assert(all.take(all.len() as int) =~= all);
            assert(self@.accounts =~= before.swept(before.stream).accounts);
        }
        total
    }

    /// Cancels the stream of the pool, whoever asks.
    fn cancel_stream(&mut self) -> (r: Result<CancelPayout, ContractError>)
        requires
            old(self)@.wf(),
        ensures
            final(self)@.wf(),
            match old(self)@.cancelled() {
                Ok((v, o)) => r == Ok::<CancelPayout, ContractError>(o) && final(self)@ == v,
                Err(e) => r == Err::<CancelPayout, ContractError>(e) && final(self)@ == old(
                    self,
                )@,
            },
    {
        proof {
            self@.lemma_cancelled_wf();
        }
        match self.stream.cancel() {
            Err(e) => Err(e),
            Ok((s, o)) => {
                let credited = self.sweep();
                self.stream = s;
                Ok(CancelPayout { returned: o.returned + credited })
            },
        }
    }

    /// Cancels the stream. Only the admin may. Nothing stays credited to
    /// any buyer; returns the output that goes back to the creator.
    pub fn cancel(&mut self, sender: &String, admin: &String) -> (r: Result<
        CancelPayout,
        ContractError,
    >)
        requires
            old(self)@.wf(),
        ensures
            final(self)@.wf(),
            match old(self)@.cancel(sender@, admin@) {
                Ok((v, o)) => r == Ok::<CancelPayout, ContractError>(o) && final(self)@ == v,
                Err(e) => r == Err::<CancelPayout, ContractError>(e) && final(self)@ == old(
                    self,
                )@,
            },
    {
        if !(*sender == *admin) {
            return Err(ContractError::Unauthorized);
        }
        self.cancel_stream()
    }

    /// Cancels a stream that ended below its threshold. Anyone may call it.
    /// Nothing stays credited to any buyer; returns the output that goes
    /// back to the creator.
    pub fn cancel_with_threshold(&mut self, now: u64) -> (r: Result<CancelPayout, ContractError>)
        requires
            old(self)@.wf(),
        ensures
            final(self)@.wf(),
            match old(self)@.cancel_with_threshold(now) {
                Ok((v, o)) => r == Ok::<CancelPayout, ContractError>(o) && final(self)@ == v,
                Err(e) => r == Err::<CancelPayout, ContractError>(e) && final(self)@ == old(
                    self,
                )@,
            },
    {
        match self.stream.cancel_with_threshold(now) {
            Err(e) => Err(e),
            Ok(_) => self.cancel_stream(),
        }
    }
}

} // verus!
