//! Time integration: bringing a stream's distribution index from the instant
//! it was last updated to a target instant.
//!
//! The target instant is brought into the schedule. The time since
//! `last_updated`, as a fraction of the whole schedule, is the part of the
//! remaining output that is released and the part of the input supply that
//! is consumed. What is released is spread over the shares and added to the
//! index. A stream that is frozen, or still waiting for its start, is left
//! untouched; a stream without shares only moves in time.

use crate::decimal::{representable, unit, Decimal};
use crate::error::{ArithmeticError, ContractError};
use crate::ratio::{lemma_ratio_at_most_amount, ratio_floor};
use crate::state::{Status, Stream};
use vstd::arithmetic::div_mod::*;
use vstd::prelude::*;

verus! {

/// What one update of a stream distributed.
#[derive(Clone, Copy, Debug, PartialEq, Eq)]
pub struct Distribution {
    /// The part of the schedule that elapsed since the previous update.
    pub elapsed_fraction: Decimal,
    /// Output moved from `out_remaining` into the distribution index.
    pub released: u128,
    /// Input added to `spent_in`.
    pub consumed: u128,
}

impl Distribution {
    /// The outcome of an update that distributed nothing.
    pub open spec fn nothing() -> Distribution {
        Distribution { elapsed_fraction: Decimal { whole: 0, frac: 0 }, released: 0, consumed: 0 }
    }
}

impl Stream {
    /// The target instant brought into the schedule.
    pub open spec fn clamp(self, now: u64) -> u64 {
        if now < self.start_time {
            self.start_time
        } else if now > self.end_time {
            self.end_time
        } else {
            now
        }
    }

    /// Whether an update at `now` advances the stream at all: it is neither
    /// frozen nor still waiting for its start.
    pub open spec fn accrues(self, now: u64) -> bool {
        match self.status {
            Status::Active => true,
            Status::Waiting => now >= self.start_time,
            _ => false,
        }
    }

    /// Time that an update at `now` integrates over.
    pub open spec fn elapsed(self, now: u64) -> nat {
        if self.accrues(now) && self.clamp(now) > self.last_updated {
            (self.clamp(now) - self.last_updated) as nat
        } else {
            0
        }
    }

    /// The elapsed time as a fraction of the whole schedule.
    pub open spec fn elapsed_fraction(self, now: u64) -> Decimal {
        Decimal::of_atomics(
            ratio_floor(self.elapsed(now), unit(), (self.end_time - self.start_time) as nat),
        )
    }

    /// Output that an update at `now` distributes: the elapsed fraction of
    /// what remains, if anyone holds shares.
    pub open spec fn released(self, now: u64) -> nat {
        if self.shares > 0 {
            (self.elapsed_fraction(now)@ * (self.out_remaining as nat)) / unit()
        } else {
            0
        }
    }

    /// Input that an update at `now` consumes: the elapsed fraction of the
    /// input supply, if anyone holds shares.
    pub open spec fn consumed(self, now: u64) -> nat {
        if self.shares > 0 {
            (self.elapsed_fraction(now)@ * (self.in_supply as nat)) / unit()
        } else {
            0
        }
    }

    /// Growth of the distribution index, in atomic units: the released
    /// output per share.
    pub open spec fn index_gain(self, now: u64) -> nat {
        if self.shares > 0 {
            ratio_floor(self.released(now), unit(), self.shares as nat)
        } else {
            0
        }
    }

    /// Output that an update at `now` takes out of `out_remaining` and that
    /// rounding keeps from the index, in atomic units: what is released,
    /// less what the index gains over all shares.
    pub open spec fn lost(self, now: u64) -> int {
        self.released(now) * unit() - self.index_gain(now) * self.shares
    }

    /// The reported price after an update at `now`.
    pub open spec fn price_after(self, now: u64) -> Decimal {
        if self.released(now) > 0 {
            Decimal::of_atomics(ratio_floor(self.consumed(now), unit(), self.released(now)))
        } else {
            self.current_streamed_price
        }
    }

    /// The stream after an update at `now`, and what the update distributed.
    ///
    /// A stream that does not accrue is left as it is. Otherwise it is
    /// `Active`, `last_updated` has moved to the clamped instant if that is
    /// later, and the released output has moved from `out_remaining` into
    /// `dist_index`. The one failure is a `spent_in` beyond 128 bits.
    pub open spec fn update_spec(self, now: u64) -> Result<(Stream, Distribution), ContractError> {
        if !self.accrues(now) {
            Ok((self, Distribution::nothing()))
        } else if self.spent_in + self.consumed(now) > u128::MAX {
            Err(ContractError::Arithmetic(ArithmeticError::Overflow))
        } else {
            Ok(
                (
                    Stream {
                        status: Status::Active,
                        last_updated: if self.clamp(now) > self.last_updated {
                            self.clamp(now)
                        } else {
                            self.last_updated
                        },
                        dist_index: Decimal::of_atomics(self.dist_index@ + self.index_gain(now)),
                        out_remaining: (self.out_remaining - self.released(now)) as u128,
                        spent_in: (self.spent_in + self.consumed(now)) as u128,
                        current_streamed_price: self.price_after(now),
                        ..self
                    },
                    Distribution {
                        elapsed_fraction: self.elapsed_fraction(now),
                        released: self.released(now) as u128,
                        consumed: self.consumed(now) as u128,
                    },
                ),
            )
        }
    }

    /// The elapsed fraction is a well-formed decimal of at most one.
    pub proof fn lemma_elapsed_fraction(self, now: u64)
        requires
            self.wf(),
        ensures
            self.elapsed(now) <= self.end_time - self.start_time,
            self.elapsed_fraction(now).wf(),
            self.elapsed_fraction(now)@ == ratio_floor(
                self.elapsed(now),
                unit(),
                (self.end_time - self.start_time) as nat,
            ),
            self.elapsed_fraction(now)@ <= unit(),
            self.elapsed(now) == 0 ==> self.elapsed_fraction(now) == (Decimal { whole: 0, frac: 0 }),
    {
        let span = (self.end_time - self.start_time) as nat;
        let e = self.elapsed(now);
        lemma_ratio_at_most_amount(unit(), e, span);
        assert(unit() * e == e * unit()) by (nonlinear_arith);
        let a = ratio_floor(e, unit(), span);
        lemma_div_is_ordered(a as int, unit() as int, unit() as int);
        lemma_div_by_self(unit() as int);
        Decimal::lemma_of_atomics_exact(a);
        if e == 0 {
            assert(e * unit() == 0) by (nonlinear_arith)
                requires
                    e == 0,
            ;
            lemma_div_of0(span as int);
            lemma_small_mod(0, unit());
            lemma_div_of0(unit() as int);
        }
    }

    /// What an update releases and consumes is bounded by what is there, and
    /// the index gain by what is released.
    pub proof fn lemma_update_bounds(self, now: u64)
        requires
            self.wf(),
        ensures
            self.released(now) <= self.out_remaining,
            self.consumed(now) <= self.in_supply,
            self.index_gain(now) <= self.released(now) * unit(),
            self.index_gain(now) * self.shares <= self.released(now) * unit(),
            0 <= self.lost(now),
            self.shares > 0 ==> self.lost(now) < self.shares,
            self.elapsed(now) == 0 ==> self.lost(now) == 0,
            representable(self.dist_index@ + self.index_gain(now)),
            self.elapsed(now) == 0 ==> self.released(now) == 0 && self.consumed(now) == 0
                && self.index_gain(now) == 0,
    {
        self.lemma_elapsed_fraction(now);
        let f = self.elapsed_fraction(now)@;
        let m = unit();
        if self.shares > 0 {
            lemma_ratio_at_most_amount(self.out_remaining as nat, f, m);
            assert(f * (self.out_remaining as nat) == (self.out_remaining as nat) * f)
                by (nonlinear_arith);
            lemma_ratio_at_most_amount(self.in_supply as nat, f, m);
            assert(f * (self.in_supply as nat) == (self.in_supply as nat) * f)
                by (nonlinear_arith);
            let rel = self.released(now);
            crate::ratio::lemma_ratio_times_denominator(rel, m, self.shares as nat);
            let g = self.index_gain(now);
            assert(g <= rel * m) by (nonlinear_arith)
                requires
                    g * self.shares <= rel * m,
                    self.shares >= 1,
                    g >= 0,
            ;
            if self.elapsed(now) == 0 {
                assert(0 * (self.out_remaining as nat) == 0) by (nonlinear_arith);
                assert(0 * (self.in_supply as nat) == 0) by (nonlinear_arith);
                lemma_div_of0(m as int);
                assert(0 * m == 0) by (nonlinear_arith);
                lemma_div_of0(self.shares as int);
            }
        } else {
            assert(0 * (self.shares as nat) == 0) by (nonlinear_arith);
            assert(0 * m == 0) by (nonlinear_arith);
        }
        let total = self.dist_index@ + self.index_gain(now);
        assert(total <= self.out_supply * m) by (nonlinear_arith)
            requires
                total == self.dist_index@ + self.index_gain(now),
                self.dist_index@ + self.out_remaining * m <= self.out_supply * m,
                self.index_gain(now) <= self.released(now) * m,
                self.released(now) <= self.out_remaining,
        ;
        lemma_div_is_ordered(total as int, (self.out_supply * m) as int, m as int);
        lemma_div_multiples_vanish(self.out_supply as int, m as int);
        assert(self.out_supply * m == m * self.out_supply) by (nonlinear_arith);
    }

    /// An update keeps the stream invariant.
    pub proof fn lemma_update_wf(self, now: u64)
        requires
            self.wf(),
        ensures
            self.update_spec(now) matches Ok((s, d)) ==> s.wf() && d.elapsed_fraction.wf()
                && d.elapsed_fraction@ <= unit(),
    {
        self.lemma_elapsed_fraction(now);
        self.lemma_update_bounds(now);
        if let Ok((s, d)) = self.update_spec(now) {
            if self.accrues(now) {
                let m = unit();
                Decimal::lemma_of_atomics_exact(self.dist_index@ + self.index_gain(now));
                if self.released(now) > 0 {
                    let p = ratio_floor(self.consumed(now), m, self.released(now));
                    crate::ratio::lemma_ratio_times_denominator(
                        self.consumed(now),
                        m,
                        self.released(now),
                    );
                    lemma_ratio_at_most_amount(self.consumed(now), 1, self.released(now));
                    assert(representable(p)) by {
                        // p <= consumed * m, so its whole part is at most `consumed`.
                        assert(p <= self.consumed(now) * m) by (nonlinear_arith)
                            requires
                                p * self.released(now) <= self.consumed(now) * m,
                                self.released(now) >= 1,
                                p >= 0,
                        ;
                        lemma_div_is_ordered(p as int, (self.consumed(now) * m) as int, m as int);
                        lemma_div_multiples_vanish(self.consumed(now) as int, m as int);
                        assert(self.consumed(now) * m == m * self.consumed(now))
                            by (nonlinear_arith);
                    }
                    Decimal::lemma_of_atomics_exact(p);
                }
                assert(s.dist_index@ + s.out_remaining * m <= s.out_supply * m)
                    by (nonlinear_arith)
                    requires
                        s.dist_index@ == self.dist_index@ + self.index_gain(now),
                        s.out_remaining == self.out_remaining - self.released(now),
                        s.out_supply == self.out_supply,
                        self.dist_index@ + self.out_remaining * m <= self.out_supply * m,
                        self.index_gain(now) <= self.released(now) * m,
                        self.released(now) <= self.out_remaining,
                ;
            }
        }
    }

    /// The target instant brought into the schedule.
    pub fn clamp_time(&self, now: u64) -> (t: u64)
        ensures
            t == self.clamp(now),
    {
        if now < self.start_time {
            self.start_time
        } else if now > self.end_time {
            self.end_time
        } else {
            now
        }
    }

    /// Whether an update at `now` advances the stream at all.
    pub fn can_accrue(&self, now: u64) -> (b: bool)
        ensures
            b == self.accrues(now),
    {
        match self.status {
            Status::Active => true,
            Status::Waiting => now >= self.start_time,
            _ => false,
        }
    }

    /// Brings the stream to the instant `now`.
    ///
    /// Returns the updated stream and what the update distributed. The one
    /// failure is `Overflow`, where `spent_in` would leave 128 bits.
    pub fn update(&self, now: u64) -> (r: Result<(Stream, Distribution), ContractError>)
        requires
            self.wf(),
        ensures
            r == self.update_spec(now),
            r matches Ok((s, d)) ==> s.wf() && d.elapsed_fraction.wf() && d.elapsed_fraction@
                <= unit(),
    {
        proof {
            self.lemma_elapsed_fraction(now);
            self.lemma_update_bounds(now);
            self.lemma_update_wf(now);
        }
        if !self.can_accrue(now) {
            return Ok(
                (
                    *self,
                    Distribution { elapsed_fraction: Decimal::zero(), released: 0, consumed: 0 },
                ),
            );
        }
        let t: u64 = self.clamp_time(now);
        let elapsed: u64 = if t > self.last_updated {
            t - self.last_updated
        } else {
            0
        };
        let span: u64 = self.end_time - self.start_time;
        let fraction = Decimal::from_ratio(elapsed as u128, span as u128).unwrap();
        let last_updated: u64 = if t > self.last_updated {
            t
        } else {
            self.last_updated
        };
        if self.shares == 0 {
            proof {
                Decimal::lemma_of_atomics_view(self.dist_index);
            }
            return Ok(
                (
                    Stream { status: Status::Active, last_updated, ..*self },
                    Distribution { elapsed_fraction: fraction, released: 0, consumed: 0 },
                ),
            );
        }
        let released: u128 = fraction.mul_floor(self.out_remaining).unwrap();
        let consumed: u128 = fraction.mul_floor(self.in_supply).unwrap();
        let spent_in: u128 = match self.spent_in.checked_add(consumed) {
            Some(x) => x,
            None => {
                return Err(ContractError::Arithmetic(ArithmeticError::Overflow));
            },
        };
        let gain = Decimal::from_ratio(released, self.shares).unwrap();
        let dist_index = self.dist_index.checked_add(&gain).unwrap();
        let price = if released > 0 {
            Decimal::from_ratio(consumed, released).unwrap()
        } else {
            self.current_streamed_price
        };
        Ok(
            (
                Stream {
                    status: Status::Active,
                    last_updated,
                    dist_index,
                    out_remaining: self.out_remaining - released,
                    spent_in,
                    current_streamed_price: price,
                    ..*self
                },
                Distribution { elapsed_fraction: fraction, released, consumed },
            ),
        )
    }
}

} // verus!
