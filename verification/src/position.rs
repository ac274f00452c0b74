//! Reconciling one buyer's position against the stream's distribution index.
//!
//! The growth of the index since the position's last sync, times the
//! position's shares, is what the buyer has bought in the meantime. Whole
//! units are credited to `purchased`; what is left below a whole unit is
//! carried in `pending_purchase` and counted again at the next sync, so that
//! rounding never loses any of it.

use crate::decimal::{representable, unit, Decimal};
use crate::error::{ArithmeticError, ContractError};
use crate::state::Position;
use vstd::arithmetic::div_mod::*;
use vstd::prelude::*;

verus! {

impl Position {
    /// Output that a sync at the stream index `index` has to account for, in
    /// atomic units: the shares times the growth of the index, and the
    /// remainder carried from the previous sync.
    pub open spec fn raw_purchase(self, index: Decimal) -> nat {
        (self.shares * (index@ - self.index@) + self.pending_purchase@) as nat
    }

    /// Input that a sync consumes when the stream update it follows covered
    /// `fraction` of the schedule.
    pub open spec fn spent_delta(self, fraction: Decimal) -> nat {
        (fraction@ * (self.in_balance as nat)) / unit()
    }

    /// Whether the exact result of a sync exists in the ledger's types.
    pub open spec fn sync_fits(self, index: Decimal, fraction: Decimal) -> bool {
        &&& self.index@ <= index@
        &&& self.purchased + self.raw_purchase(index) / unit() <= u128::MAX
        &&& self.spent_delta(fraction) <= self.in_balance
        &&& self.spent + self.spent_delta(fraction) <= u128::MAX
    }

    /// The position after a sync against `index` at the instant `now`.
    ///
    /// The whole units of the raw purchase are credited and its remainder is
    /// carried; the consumed input moves from `in_balance` to `spent`; the
    /// position's index becomes the stream's.
    pub open spec fn sync_spec(self, index: Decimal, fraction: Decimal, now: u64) -> Result<
        Position,
        ContractError,
    > {
        if !self.sync_fits(index, fraction) {
            Err(ContractError::Arithmetic(ArithmeticError::Overflow))
        } else {
            Ok(
                Position {
                    in_balance: (self.in_balance - self.spent_delta(fraction)) as u128,
                    shares: self.shares,
                    index,
                    last_updated: now,
                    purchased: (self.purchased + self.raw_purchase(index) / unit()) as u128,
                    pending_purchase: Decimal {
                        whole: 0,
                        frac: (self.raw_purchase(index) % unit()) as u128,
                    },
                    spent: (self.spent + self.spent_delta(fraction)) as u128,
                },
            )
        }
    }

    /// A sync neither creates nor loses output: what the position is owed at
    /// `index` before the sync is what it has been credited after it.
    pub proof fn lemma_sync_keeps_owed(self, index: Decimal, fraction: Decimal, now: u64)
        requires
            self.wf(),
            index.wf(),
        ensures
            self.sync_spec(index, fraction, now) matches Ok(p) ==> p.wf() && p.credited()
                == self.owed(index) && p.owed(index) == self.owed(index) && p.index == index
                && p.shares == self.shares && p.in_balance + p.spent == self.in_balance
                + self.spent && p.in_balance <= self.in_balance && p.purchased
                >= self.purchased,
    {
        if let Ok(p) = self.sync_spec(index, fraction, now) {
            let raw = self.raw_purchase(index);
            let m = unit();
            lemma_fundamental_div_mod(raw as int, m as int);
            lemma_mod_bound(raw as int, m as int);
            lemma_div_pos_is_pos(raw as int, m as int);
            assert(p.pending_purchase@ == raw % m) by (nonlinear_arith)
                requires
                    p.pending_purchase.whole == 0,
                    p.pending_purchase.frac == raw % m,
                    p.pending_purchase@ == p.pending_purchase.whole * m + p.pending_purchase.frac,
            ;
            assert(p.credited() == self.purchased * m + raw) by (nonlinear_arith)
                requires
                    p.credited() == p.purchased * m + p.pending_purchase@,
                    p.purchased == self.purchased + raw / m,
                    p.pending_purchase@ == raw % m,
                    raw == m * (raw / m) + raw % m,
            ;
            assert(p.shares * (index@ - p.index@) == 0) by (nonlinear_arith)
                requires
                    p.index@ == index@,
            ;
        }
    }

    /// A position that is already at the stream's index, synced again with
    /// nothing elapsed, stays as it is.
    pub proof fn lemma_sync_at_rest(self, now: u64)
        requires
            self.wf(),
        ensures
            self.sync_spec(self.index, Decimal { whole: 0, frac: 0 }, now) == Ok::<
                Position,
                ContractError,
            >(Position { last_updated: now, ..self }),
    {
        let m = unit();
        let zero = Decimal { whole: 0, frac: 0 };
        assert(self.shares * (self.index@ - self.index@) == 0) by (nonlinear_arith);
        let raw = self.raw_purchase(self.index);
        assert(raw == self.pending_purchase.frac) by (nonlinear_arith)
            requires
                raw == self.pending_purchase@,
                self.pending_purchase@ == self.pending_purchase.whole * m
                    + self.pending_purchase.frac,
                self.pending_purchase.whole == 0,
        ;
        lemma_small_mod(raw, m);
        lemma_basic_div(raw as int, m as int);
        assert(zero@ * (self.in_balance as nat) == 0) by (nonlinear_arith)
            requires
                zero@ == 0,
        ;
        lemma_div_of0(m as int);
    }

    /// Brings the position to the stream index `index`.
    ///
    /// `fraction` is the part of the schedule covered by the stream update
    /// that this sync follows, and `now` the instant of that update. Fails
    /// with `Overflow` exactly where the result has no exact representation,
    /// which includes an `index` behind the position's own.
    pub fn sync(&self, index: Decimal, fraction: Decimal, now: u64) -> (r: Result<
        Position,
        ContractError,
    >)
        requires
            self.wf(),
            index.wf(),
            fraction.wf(),
        ensures
            r == self.sync_spec(index, fraction, now),
            r matches Ok(p) ==> p.wf(),
    {
        let ghost m = unit();
        let ghost raw = self.raw_purchase(index);
        let overflow = Err(ContractError::Arithmetic(ArithmeticError::Overflow));
        let delta = match index.checked_sub(&self.index) {
            Ok(d) => d,
            Err(_) => {
                return overflow;
            },
        };
        proof {
            assert(delta@ * (self.shares as nat) == self.shares * (index@ - self.index@))
                by (nonlinear_arith)
                requires
                    delta@ == index@ - self.index@,
            ;
            lemma_div_is_ordered((delta@ * (self.shares as nat)) as int, raw as int, m as int);
            lemma_fundamental_div_mod(raw as int, m as int);
            lemma_mod_bound(raw as int, m as int);
            lemma_div_pos_is_pos(raw as int, m as int);
        }
        let gross = match delta.checked_mul_int(self.shares) {
            Ok(g) => g,
            Err(_) => {
                return overflow;
            },
        };
        let total = match gross.checked_add(&self.pending_purchase) {
            Ok(t) => t,
            Err(_) => {
                return overflow;
            },
        };
        proof {
            Decimal::lemma_of_atomics_exact(raw);
            total.lemma_of_atomics_view();
        }
        let purchased: u128 = match self.purchased.checked_add(total.to_uint_floor()) {
            Some(x) => x,
            None => {
                return overflow;
            },
        };
        let consumed: u128 = match fraction.mul_floor(self.in_balance) {
            Ok(x) => x,
            Err(_) => {
                return overflow;
            },
        };
        if consumed > self.in_balance {
            return overflow;
        }
        let spent: u128 = match self.spent.checked_add(consumed) {
            Some(x) => x,
            None => {
                return overflow;
            },
        };
        Ok(
            Position {
                in_balance: self.in_balance - consumed,
                shares: self.shares,
                index,
                last_updated: now,
                purchased,
                pending_purchase: total.fract(),
                spent,
            },
        )
    }
}

/// A count of atomic units that cannot be represented exceeds every one that can.
pub proof fn lemma_representable_monotone(a: nat, b: nat)
    requires
        !representable(a),
        representable(b),
    ensures
        b < a,
{
    if a <= b {
        lemma_div_is_ordered(a as int, b as int, unit() as int);
    }
}

} // verus!
