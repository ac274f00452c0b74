//! What holds of every pool, whatever is done to it.
//!
//! Each law is a proof over the mathematical model of the operations. The
//! executable operations are proved to compute that model, so the laws hold
//! of them.

use crate::decimal::{unit, Decimal};
use crate::distribution::Distribution;
use crate::error::ContractError;
use crate::factory::Params;
use crate::pool::PoolView;
use crate::ratio::ratio_floor;
use crate::state::{Position, Stream};
use crate::stream_swap::contract::{CallInfo, Response};
use crate::stream_swap::msg::{ExecuteMsg, SudoMsg};
use crate::tally::{lemma_sum_nonnegative, sum};
use vstd::prelude::*;

verus! {

/// One call as it reaches a pool.
pub enum Call {
    /// A call by anyone.
    Execute {
        /// Who calls, when, and with what funds.
        info: CallInfo,
        /// What is asked.
        msg: ExecuteMsg,
    },
    /// A call by governance.
    Sudo {
        /// When.
        now: u64,
        /// What is asked.
        msg: SudoMsg,
    },
}

impl Stream {
    /// How a later state of a stream relates to an earlier one: same
    /// identity and supply, an index and a `last_updated` that have not
    /// decreased, no more output remaining, and a terminal status kept.
    pub open spec fn precedes(self, next: Stream) -> bool {
        &&& next.id == self.id
        &&& next.out_supply == self.out_supply
        &&& next.dist_index@ >= self.dist_index@
        &&& next.last_updated >= self.last_updated
        &&& next.out_remaining <= self.out_remaining
        &&& (self.status is Finalized ==> next.status is Finalized)
        &&& (self.status is Cancelled ==> next.status is Cancelled)
    }

    /// What a paused stream keeps in any state that follows directly: the
    /// index and the consumed input in any case, `last_updated` and the
    /// remaining output for as long as it stays paused, and the remaining
    /// output also when it is resumed.
    pub open spec fn frozen_in(self, next: Stream) -> bool {
        self.status is Paused ==> {
            &&& next.dist_index == self.dist_index
            &&& next.spent_in == self.spent_in
            &&& (next.status is Paused ==> next.last_updated == self.last_updated)
            &&& (!(next.status is Cancelled) ==> next.out_remaining == self.out_remaining)
        }
    }

    /// An update never lowers the index, never raises what remains, changes
    /// nothing of a frozen stream, and takes what it releases out of
    /// `out_remaining` exactly.
    pub proof fn law_update_monotone(self, now: u64)
        requires
            self.wf(),
        ensures
            self.update_spec(now) matches Ok((s, d)) ==> {
                &&& s.wf()
                &&& self.precedes(s)
                &&& self.frozen_in(s)
                &&& (self.is_frozen() ==> s == self)
                &&& s.out_remaining + d.released == self.out_remaining
                &&& s.spent_in == self.spent_in + d.consumed
                &&& s.last_updated >= self.last_updated
                &&& s.shares == self.shares
                &&& s.in_supply == self.in_supply
            },
    {
        self.lemma_update_wf(now);
        self.lemma_update_bounds(now);
        if self.accrues(now) {
            Decimal::lemma_of_atomics_exact(self.dist_index@ + self.index_gain(now));
        }
    }

    /// Updating twice at the same instant is updating once: the second
    /// update distributes nothing and changes nothing.
    pub proof fn law_update_idempotent(self, now: u64)
        requires
            self.wf(),
        ensures
            self.update_spec(now) matches Ok((s, d)) ==> s.update_spec(now) == Ok::<
                (Stream, Distribution),
                ContractError,
            >((s, Distribution::nothing())),
    {
        if let Ok((s, d)) = self.update_spec(now) {
            self.lemma_update_wf(now);
            if self.accrues(now) {
                assert(s.accrues(now));
                assert(s.elapsed(now) == 0);
                s.lemma_elapsed_fraction(now);
                s.lemma_update_bounds(now);
                s.dist_index.lemma_of_atomics_view();
            }
        }
    }

    /// Updating a stream and syncing a position twice at the same instant
    /// is doing it once.
    pub proof fn law_advance_idempotent(self, position: Position, now: u64)
        requires
            self.wf(),
            position.wf(),
        ensures
            self.advance_spec(position, now) matches Ok((s, p)) ==> s.advance_spec(p, now) == Ok::<
                (Stream, Position),
                ContractError,
            >((s, p)),
    {
        if let Ok((s, p)) = self.advance_spec(position, now) {
            self.law_update_idempotent(now);
            self.lemma_update_wf(now);
            let (sa, d) = self.update_spec(now).unwrap();
            position.lemma_sync_keeps_owed(sa.dist_index, d.elapsed_fraction, sa.last_updated);
            p.lemma_sync_at_rest(s.last_updated);
        }
    }
}

impl Stream {
    /// The stream after updates at each of the instants in turn.
    pub open spec fn update_through(self, times: Seq<u64>) -> Result<Stream, ContractError>
        decreases times.len(),
    {
        if times.len() == 0 {
            Ok(self)
        } else {
            match self.update_through(times.drop_last()) {
                Err(e) => Err(e),
                Ok(s) => match s.update_spec(times.last()) {
                    Err(e) => Err(e),
                    Ok((next, d)) => Ok(next),
                },
            }
        }
    }

    /// Whether no update can move the index: the stream is frozen, nobody
    /// holds shares, or nothing remains to distribute.
    pub open spec fn distributes_nothing(self) -> bool {
        self.is_frozen() || self.shares == 0 || self.out_remaining == 0
    }

    /// Whether none of the instants lies after `last_updated` once it is
    /// brought into the schedule.
    pub open spec fn covers_no_time(self, times: Seq<u64>) -> bool {
        forall|i: int| 0 <= i < times.len() ==> self.clamp(#[trigger] times[i]) <= self.last_updated
    }

    /// The stream with another status.
    pub open spec fn with_status(self, status: crate::state::Status) -> Stream {
        Stream { status, ..self }
    }

    /// An update that covers no time changes at most the status, from
    /// `Waiting` to `Active`.
    pub proof fn lemma_update_covers_no_time(self, now: u64)
        requires
            self.wf(),
            self.clamp(now) <= self.last_updated,
        ensures
            self.update_spec(now) == Ok::<(Stream, Distribution), ContractError>(
                (
                    self.with_status(
                        if self.accrues(now) {
                            crate::state::Status::Active
                        } else {
                            self.status
                        },
                    ),
                    Distribution::nothing(),
                ),
            ),
    {
        self.lemma_elapsed_fraction(now);
        self.lemma_update_bounds(now);
        self.dist_index.lemma_of_atomics_view();
    }

    /// An update of a stream that distributes nothing leaves the index.
    pub proof fn lemma_update_distributes_nothing(self, now: u64)
        requires
            self.wf(),
            self.distributes_nothing(),
        ensures
            self.update_spec(now) matches Ok((s, d)) ==> s.wf() && s.distributes_nothing()
                && s.dist_index == self.dist_index,
    {
        self.lemma_update_wf(now);
        self.lemma_elapsed_fraction(now);
        self.lemma_update_bounds(now);
        self.dist_index.lemma_of_atomics_view();
        if self.accrues(now) && self.shares > 0 {
            let f = self.elapsed_fraction(now)@;
            assert(f * 0 == 0) by (nonlinear_arith);
            vstd::arithmetic::div_mod::lemma_div_of0(unit() as int);
            assert(0 * unit() == 0) by (nonlinear_arith);
            vstd::arithmetic::div_mod::lemma_div_of0(self.shares as int);
        }
    }

    /// Before its start is observed, a stream's status decides nothing
    /// about the index that an update computes.
    pub proof fn lemma_status_decides_nothing(self, now: u64)
        requires
            self.wf(),
            self.status is Waiting,
        ensures
            self.with_status(crate::state::Status::Active).update_spec(now) matches Ok((a, d))
                ==> (self.update_spec(now) matches Ok((b, e)) ==> a.dist_index == b.dist_index),
    {
        let active = self.with_status(crate::state::Status::Active);
        if now >= self.start_time {
            assert(active.elapsed(now) == self.elapsed(now));
            assert(active.elapsed_fraction(now) == self.elapsed_fraction(now));
            assert(active.released(now) == self.released(now));
            assert(active.index_gain(now) == self.index_gain(now));
        } else {
            active.lemma_update_covers_no_time(now);
        }
    }

    /// Updates that cover no time leave the stream as it is, but for a
    /// status that may have gone from `Waiting` to `Active`.
    pub proof fn lemma_through_no_time(self, times: Seq<u64>)
        requires
            self.wf(),
            self.covers_no_time(times),
        ensures
            self.update_through(times) matches Ok(s) && (s == self || (self.status is Waiting
                && s == self.with_status(crate::state::Status::Active))),
        decreases times.len(),
    {
        if times.len() > 0 {
            let before = times.drop_last();
            assert forall|i: int| 0 <= i < before.len() implies self.clamp(#[trigger] before[i])
                <= self.last_updated by {
                assert(before[i] == times[i]);
            }
            self.lemma_through_no_time(before);
            let s = self.update_through(before).unwrap();
            assert(self.clamp(times[times.len() - 1]) <= self.last_updated);
            s.lemma_update_covers_no_time(times.last());
        }
    }

    /// Updates of a stream that distributes nothing leave the index.
    pub proof fn lemma_through_distributes_nothing(self, times: Seq<u64>)
        requires
            self.wf(),
            self.distributes_nothing(),
        ensures
            self.update_through(times) matches Ok(s) ==> s.wf() && s.distributes_nothing()
                && s.dist_index == self.dist_index,
        decreases times.len(),
    {
        if times.len() > 0 {
            self.lemma_through_distributes_nothing(times.drop_last());
            if let Ok(s) = self.update_through(times.drop_last()) {
                s.lemma_update_distributes_nothing(times.last());
            }
        }
    }

    /// Path independence, where it holds: a sequence of updates ends at
    /// the index of a single update at its last instant if the stream
    /// distributes nothing, or if the updates before the last cover no time.
    pub proof fn law_path_independent(self, times: Seq<u64>)
        requires
            self.wf(),
            times.len() > 0,
            self.distributes_nothing() || self.covers_no_time(times.drop_last()),
        ensures
            self.update_through(times) matches Ok(a) ==> (self.update_spec(
                times.last(),
            ) matches Ok((b, d)) ==> a.dist_index == b.dist_index),
    {
        if self.distributes_nothing() {
            self.lemma_through_distributes_nothing(times);
            self.lemma_update_distributes_nothing(times.last());
        } else {
            self.lemma_through_no_time(times.drop_last());
            let s = self.update_through(times.drop_last()).unwrap();
            if s != self {
                self.lemma_status_decides_nothing(times.last());
            }
        }
    }
}

impl Stream {
    /// The order in which two positions are brought up to date at one
    /// instant decides nothing about the stream, nor about what either
    /// position is credited, nor about the input it holds, spent and unspent
    /// together. How that input divides into spent and unspent does depend
    /// on the order: a sync consumes the fraction that the stream update
    /// before it covered, and the second update at an instant covers none.
    pub proof fn law_sync_order(self, p: Position, q: Position, now: u64)
        requires
            self.wf(),
            p.wf(),
            q.wf(),
        ensures
            ({
                &&& self.advance_spec(p, now) matches Ok((after_p, p_first))
                &&& after_p.advance_spec(q, now) matches Ok((after_p_q, q_second))
                &&& self.advance_spec(q, now) matches Ok((after_q, q_first))
                &&& after_q.advance_spec(p, now) matches Ok((after_q_p, p_second))
            }) ==> {
                let (after_p, p_first) = self.advance_spec(p, now)->Ok_0;
                let (after_p_q, q_second) = after_p.advance_spec(q, now)->Ok_0;
                let (after_q, q_first) = self.advance_spec(q, now)->Ok_0;
                let (after_q_p, p_second) = after_q.advance_spec(p, now)->Ok_0;
                &&& after_p_q == after_q_p
                &&& p_first.index == p_second.index
                &&& p_first.purchased == p_second.purchased
                &&& p_first.pending_purchase == p_second.pending_purchase
                &&& p_first.shares == p_second.shares
                &&& q_first.index == q_second.index
                &&& q_first.purchased == q_second.purchased
                &&& q_first.pending_purchase == q_second.pending_purchase
                &&& q_first.shares == q_second.shares
                &&& p_first.in_balance + p_first.spent == p_second.in_balance + p_second.spent
                &&& q_first.in_balance + q_first.spent == q_second.in_balance + q_second.spent
            },
    {
        self.law_update_idempotent(now);
    }

    /// One update over the whole schedule releases everything that remains.
    pub proof fn law_whole_schedule_releases_all(self, now: u64)
        requires
            self.wf(),
            self.last_updated == self.start_time,
            self.accrues(now),
            now >= self.end_time,
            self.shares > 0,
        ensures
            self.elapsed_fraction(now) == (Decimal { whole: 1, frac: 0 }),
            self.released(now) == self.out_remaining,
            self.update_spec(now) matches Ok((s, d)) ==> s.out_remaining == 0,
    {
        let m = unit();
        let span = (self.end_time - self.start_time) as nat;
        self.lemma_elapsed_fraction(now);
        assert(self.elapsed(now) == span);
        assert(span * m == span * m);
        vstd::arithmetic::div_mod::lemma_div_multiples_vanish(m as int, span as int);
        assert(span * m == (span as int) * (m as int)) by (nonlinear_arith);
        assert(self.elapsed_fraction(now)@ == m);
        Decimal::lemma_of_atomics_exact(m);
        vstd::arithmetic::div_mod::lemma_div_by_self(m as int);
        vstd::arithmetic::div_mod::lemma_mod_self_0(m as int);
        let r = self.out_remaining as nat;
        vstd::arithmetic::div_mod::lemma_div_multiples_vanish(r as int, m as int);
        assert(m * r == (m as int) * (r as int)) by (nonlinear_arith);
    }
}

impl Stream {
    /// No transition applies twice: a stream that was just paused, resumed,
    /// cancelled or finalized refuses the same transition again, whenever
    /// that is asked, and is left as it is.
    pub proof fn law_transitions_apply_once(self, now: u64, later: u64, exit_fee_percent: Decimal)
        requires
            self.wf(),
        ensures
            self.pause_spec(now) matches Ok(s) ==> s.pause_spec(later) == Err::<
                Stream,
                ContractError,
            >(ContractError::StreamKillswitchActive),
            self.resume_spec(now) matches Ok(s) ==> s.resume_spec(later) == Err::<
                Stream,
                ContractError,
            >(ContractError::StreamNotPaused),
            self.cancel_spec() matches Ok((s, o)) ==> s.cancel_spec() is Err && s.cancel_spec()->Err_0
                == ContractError::StreamIsCancelled && s.cancel_with_threshold_spec(later) is Err,
            self.cancel_with_threshold_spec(now) matches Ok((s, o)) ==> s.cancel_spec() is Err
                && s.cancel_with_threshold_spec(later) is Err,
            self.finalize_spec(now, exit_fee_percent) matches Ok((s, o)) ==> s.finalize_spec(
                later,
                exit_fee_percent,
            ) is Err && s.finalize_spec(later, exit_fee_percent)->Err_0
                == ContractError::StreamAlreadyFinalized,
    {
    }
}

impl Stream {
    /// Whether no instant lies before the one in front of it.
    pub open spec fn in_order(times: Seq<u64>) -> bool {
        forall|i: int, j: int| 0 <= i <= j < times.len() ==> times[i] <= times[j]
    }

    /// Whether `later` is what updates of `self` at instants up to `now`
    /// can have led to: the schedule stands where a single update at `now`
    /// puts it, and neither what was released nor what the index gained is
    /// more than the single update releases and gains.
    pub open spec fn keeps_ahead_of(self, later: Stream, now: u64) -> bool {
        &&& later.wf()
        &&& later.start_time == self.start_time
        &&& later.end_time == self.end_time
        &&& later.shares == self.shares
        &&& later.out_supply == self.out_supply
        &&& later.status == (if self.accrues(now) {
            crate::state::Status::Active
        } else {
            self.status
        })
        &&& later.last_updated == (if self.accrues(now) && self.clamp(now) > self.last_updated {
            self.clamp(now)
        } else {
            self.last_updated
        })
        &&& later.out_remaining <= self.out_remaining
        &&& self.out_remaining - later.out_remaining <= self.released(now)
        &&& self.dist_index@ <= later.dist_index@
        &&& later.dist_index@ - self.dist_index@ <= (if self.shares > 0 {
            ratio_floor(
                (self.out_remaining - later.out_remaining) as nat,
                unit(),
                self.shares as nat,
            )
        } else {
            0
        })
    }

    /// A single update is what it leads to.
    pub proof fn lemma_first_update_keeps_ahead(self, now: u64)
        requires
            self.wf(),
        ensures
            self.update_spec(now) matches Ok((s, d)) ==> self.keeps_ahead_of(s, now),
    {
        self.lemma_update_wf(now);
        self.lemma_update_bounds(now);
        self.lemma_elapsed_fraction(now);
        if self.accrues(now) {
            Decimal::lemma_of_atomics_exact(self.dist_index@ + self.index_gain(now));
        } else if self.shares > 0 {
            assert(0 * unit() == 0) by (nonlinear_arith);
            vstd::arithmetic::div_mod::lemma_div_of0(self.shares as int);
        }
    }

    /// One more update, at an instant that is not earlier, keeps the stream
    /// behind the single update at that instant.
    pub proof fn lemma_next_update_keeps_ahead(self, later: Stream, now: u64, next: u64)
        requires
            self.wf(),
            self.keeps_ahead_of(later, now),
            now <= next,
        ensures
            later.update_spec(next) matches Ok((s, d)) ==> self.keeps_ahead_of(s, next),
    {
        let m = unit();
        let span = (self.end_time - self.start_time) as nat;
        later.lemma_update_wf(next);
        later.lemma_update_bounds(next);
        later.lemma_elapsed_fraction(next);
        self.lemma_update_bounds(now);
        self.lemma_update_bounds(next);
        self.lemma_elapsed_fraction(now);
        self.lemma_elapsed_fraction(next);
        if let Ok((s, d)) = later.update_spec(next) {
            if later.accrues(next) {
                Decimal::lemma_of_atomics_exact(later.dist_index@ + later.index_gain(next));
                if self.shares > 0 {
                    let r0 = self.out_remaining as nat;
                    let r1 = later.out_remaining as nat;
                    let e0 = self.elapsed(now);
                    let e1 = later.elapsed(next);
                    let e2 = self.elapsed(next);
                    assert(e0 + e1 == e2);
                    let f0 = self.elapsed_fraction(now)@;
                    let f1 = later.elapsed_fraction(next)@;
                    let f2 = self.elapsed_fraction(next)@;
                    crate::ratio::lemma_ratio_superadditive(e0, e1, m, span);
                    assert(f0 + f1 <= f2);
                    // What is released in two steps is at most what one step releases.
                    let x0 = (r0 - r1) as nat;
                    let x1 = later.released(next);
                    assert(f1 * r1 == ratio_floor(f1, r1, m) * m + (f1 * r1) % m) by {
                        vstd::arithmetic::div_mod::lemma_fundamental_div_mod(
                            (f1 * r1) as int,
                            m as int,
                        );
                        assert(m * ((f1 * r1) / m) == ((f1 * r1) / m) * m) by (nonlinear_arith);
                    }
                    crate::ratio::lemma_ratio_monotone(f1, f1, r1, r0, m);
                    crate::ratio::lemma_ratio_superadditive(f0, f1, r0, m);
                    crate::ratio::lemma_ratio_monotone(f0 + f1, f2, r0, r0, m);
                    assert(x0 + x1 <= self.released(next));
                    // And so for what the index gains.
                    crate::ratio::lemma_ratio_superadditive(x0, x1, m, self.shares as nat);
                } else {
                    later.dist_index.lemma_of_atomics_view();
                }
            } else {
                if self.accrues(next) {
                    // A stream that is waiting has released nothing so far.
                    assert(!self.accrues(now));
                    assert(false);
                }
                if self.shares > 0 {
                    crate::ratio::lemma_ratio_monotone(
                        self.elapsed_fraction(now)@,
                        self.elapsed_fraction(next)@,
                        self.out_remaining as nat,
                        self.out_remaining as nat,
                        m,
                    );
                }
            }
        }
    }

    /// Updates at instants in order keep the stream behind the single
    /// update at the last of them.
    pub proof fn lemma_through_keeps_ahead(self, times: Seq<u64>)
        requires
            self.wf(),
            times.len() > 0,
            Stream::in_order(times),
        ensures
            self.update_through(times) matches Ok(s) ==> self.keeps_ahead_of(s, times.last()),
        decreases times.len(),
    {
        let before = times.drop_last();
        if before.len() == 0 {
            self.lemma_first_update_keeps_ahead(times.last());
        } else {
            assert(Stream::in_order(before)) by {
                assert forall|i: int, j: int| 0 <= i <= j < before.len() implies before[i]
                    <= before[j] by {
                    assert(times[i] <= times[j]);
                }
            }
            self.lemma_through_keeps_ahead(before);
            if let Ok(later) = self.update_through(before) {
                assert(before.last() == times[times.len() - 2]);
                assert(times[times.len() - 2] <= times[times.len() - 1]);
                self.lemma_next_update_keeps_ahead(later, before.last(), times.last());
            }
        }
    }

    /// Updating more often never distributes more: updates at instants in
    /// order end with an index that is at most, and a remaining output that
    /// is at least, that of a single update at the last instant.
    pub proof fn law_partition_never_gains(self, times: Seq<u64>)
        requires
            self.wf(),
            times.len() > 0,
            Stream::in_order(times),
        ensures
            self.update_through(times) matches Ok(a) ==> (self.update_spec(
                times.last(),
            ) matches Ok((b, d)) ==> a.dist_index@ <= b.dist_index@ && a.out_remaining
                >= b.out_remaining && a.last_updated == b.last_updated && a.status == b.status),
    {
        let now = times.last();
        self.lemma_through_keeps_ahead(times);
        self.lemma_update_bounds(now);
        if let Ok(a) = self.update_through(times) {
            if self.accrues(now) {
                Decimal::lemma_of_atomics_exact(self.dist_index@ + self.index_gain(now));
                if self.shares > 0 {
                    crate::ratio::lemma_ratio_monotone(
                        (self.out_remaining - a.out_remaining) as nat,
                        self.released(now),
                        unit(),
                        unit(),
                        self.shares as nat,
                    );
                }
            } else {
                self.lemma_elapsed_fraction(now);
                if self.shares > 0 {
                    assert(0 * unit() == 0) by (nonlinear_arith);
                    vstd::arithmetic::div_mod::lemma_div_of0(self.shares as int);
                }
            }
        }
    }
}

impl PoolView {
    /// Conservation: the output that remains and the output credited to all
    /// positions, whole units and carried remainders alike, never exceed the
    /// accounted output, which never exceeds the committed supply.
    pub proof fn law_conservation(self)
        requires
            self.wf(),
        ensures
            self.stream.out_remaining * unit() + sum(self.credited()) <= self.accounted(),
            self.accounted() <= self.stream.out_supply * unit(),
    {
        let gap = Seq::new(self.accounts.len(), |i: int| self.owed()[i] - self.credited()[i]);
        assert forall|i: int| 0 <= i < gap.len() implies 0 <= #[trigger] gap[i] by {
            let p = self.accounts[i].position;
            assert(p.wf());
            assert(p.shares * (self.stream.dist_index@ - p.index@) >= 0) by (nonlinear_arith)
                requires
                    p.index@ <= self.stream.dist_index@,
            ;
        }
        lemma_sum_nonnegative(gap);
        assert forall|i: int| 0 <= i < gap.len() implies self.owed()[i] == self.credited()[i] + 1
            * #[trigger] gap[i] by {}
        crate::tally::lemma_sum_affine(self.credited(), gap, self.owed(), 1);
    }

    /// Convergence, where it holds: if nothing was lost so far, one update
    /// covers the whole schedule and what it releases divides evenly among
    /// the shares, then nothing remains and the positions are owed exactly
    /// the committed supply.
    pub proof fn law_convergence(self, now: u64)
        requires
            self.wf(),
            self.accounted() == self.stream.out_supply * unit(),
            self.stream.last_updated == self.stream.start_time,
            self.stream.accrues(now),
            now >= self.stream.end_time,
            self.stream.shares > 0,
            self.stream.index_gain(now) * self.stream.shares == self.stream.released(now)
                * unit(),
        ensures
            self.update(now) matches Ok((v, d)) ==> v.wf() && v.stream.out_remaining == 0 && sum(
                v.owed(),
            ) == v.stream.out_supply * unit(),
    {
        if let Ok((v, d)) = self.update(now) {
            self.lemma_update_wf(now);
            self.stream.law_whole_schedule_releases_all(now);
            self.stream.lemma_update_bounds(now);
            let gain = self.stream.index_gain(now) as int;
            Decimal::lemma_of_atomics_exact(self.stream.dist_index@ + self.stream.index_gain(now));
            assert forall|a: int| 0 <= a < v.accounts.len() implies v.owed()[a] == self.owed()[a]
                + gain * #[trigger] self.shares()[a] by {
                let p = self.accounts[a].position;
                assert(p.wf());
                assert(p.shares * (v.stream.dist_index@ - p.index@) == p.shares * (
                self.stream.dist_index@ - p.index@) + gain * p.shares) by (nonlinear_arith)
                    requires
                        v.stream.dist_index@ == self.stream.dist_index@ + gain,
                ;
                assert(p.shares * (self.stream.dist_index@ - p.index@) >= 0) by (nonlinear_arith)
                    requires
                        p.index@ <= self.stream.dist_index@,
                ;
                assert(gain * p.shares >= 0) by (nonlinear_arith)
                    requires
                        gain >= 0,
                ;
            }
            crate::tally::lemma_sum_affine(self.owed(), self.shares(), v.owed(), gain);
            assert(gain * sum(self.shares()) == self.stream.out_remaining * unit())
                by (nonlinear_arith)
                requires
                    sum(self.shares()) == self.stream.shares,
                    gain * self.stream.shares == self.stream.released(now) * unit(),
                    self.stream.released(now) == self.stream.out_remaining,
            ;
        }
    }

    /// Bringing a position up to date credits it exactly what it was owed.
    pub proof fn law_sync_credits_what_is_owed(self, i: int, now: u64)
        requires
            self.wf(),
            0 <= i < self.accounts.len(),
        ensures
            self.stream.advance_spec(self.accounts[i].position, now) matches Ok((s, p))
                ==> p.credited() == self.accounts[i].position.owed(s.dist_index),
    {
        self.lemma_update_wf(now);
        if let Ok((s, d)) = self.stream.update_spec(now) {
            assert(self.accounts[i].position.wf());
            self.accounts[i].position.lemma_sync_keeps_owed(
                s.dist_index,
                d.elapsed_fraction,
                s.last_updated,
            );
        }
    }

    /// In a well-formed pool a position can always be brought up to date
    /// once the stream is: nothing that a sync computes leaves the range of
    /// the ledger. What can stop an update is the stream's `spent_in` alone.
    pub proof fn law_sync_fits(self, i: int, now: u64)
        requires
            self.wf(),
            0 <= i < self.accounts.len(),
        ensures
            self.stream.update_spec(now) matches Ok((s, d)) ==> self.accounts[i].position.sync_fits(
                s.dist_index,
                d.elapsed_fraction,
            ),
            self.stream.update_spec(now) is Ok ==> self.stream.advance_spec(
                self.accounts[i].position,
                now,
            ) is Ok,
            self.stream.update_spec(now) is Err <==> self.stream.accrues(now)
                && self.stream.spent_in + self.stream.consumed(now) > u128::MAX,
    {
        if let Ok((s, d)) = self.stream.update_spec(now) {
            let m = unit();
            let p = self.accounts[i].position;
            self.lemma_update_wf(now);
            let after = self.with_stream(s);
            after.law_balances_bounded(i);
            let raw = p.raw_purchase(s.dist_index);
            let owed = p.owed(s.dist_index);
            assert(p.wf());
            assert(p.shares * (s.dist_index@ - p.index@) >= 0) by (nonlinear_arith)
                requires
                    p.index@ <= s.dist_index@,
            ;
            assert(owed == p.purchased * m + raw);
            assert(owed <= s.out_supply * m) by (nonlinear_arith)
                requires
                    owed <= (s.out_supply - s.out_remaining) * m,
                    s.out_remaining >= 0,
                    m > 0,
            ;
            // The whole units of what is owed are at most the supply.
            vstd::arithmetic::div_mod::lemma_div_is_ordered(
                owed as int,
                (s.out_supply * m) as int,
                m as int,
            );
            vstd::arithmetic::div_mod::lemma_div_multiples_vanish(s.out_supply as int, m as int);
            assert(s.out_supply * m == m * s.out_supply) by (nonlinear_arith);
            vstd::arithmetic::div_mod::lemma_fundamental_div_mod(raw as int, m as int);
            vstd::arithmetic::div_mod::lemma_mod_bound(raw as int, m as int);
            let whole = (raw / m) as int;
            let rest = (raw % m) as int;
            assert(owed == m * (p.purchased + whole) + rest) by (nonlinear_arith)
                requires
                    owed == p.purchased * m + raw,
                    raw == m * whole + rest,
            ;
            vstd::arithmetic::div_mod::lemma_fundamental_div_mod_converse_div(
                owed as int,
                m as int,
                p.purchased + whole,
                rest,
            );
            crate::ratio::lemma_ratio_at_most_amount(p.in_balance as nat, d.elapsed_fraction@, m);
            assert(d.elapsed_fraction@ * (p.in_balance as nat) == (p.in_balance as nat)
                * d.elapsed_fraction@) by (nonlinear_arith);
        }
    }

    /// No balance is ever negative: every position's shares and input are
    /// within the stream's, which are within 128 bits.
    pub proof fn law_balances_bounded(self, i: int)
        requires
            self.wf(),
            0 <= i < self.accounts.len(),
        ensures
            0 <= self.accounts[i].position.shares <= self.stream.shares,
            0 <= self.accounts[i].position.in_balance + self.accounts[i].position.spent
                <= self.stream.in_supply,
            0 <= self.stream.out_remaining <= self.stream.out_supply,
            self.accounts[i].position.credited() <= self.accounts[i].position.owed(
                self.stream.dist_index,
            ) <= (self.stream.out_supply - self.stream.out_remaining) * unit(),
    {
        crate::tally::lemma_sum_bounds_element(self.shares(), i);
        crate::tally::lemma_sum_bounds_element(self.inputs(), i);
        assert forall|j: int| 0 <= j < self.owed().len() implies 0 <= #[trigger] self.owed()[j] by {}
        crate::tally::lemma_sum_bounds_element(self.owed(), i);
        let p = self.accounts[i].position;
        assert(p.wf());
        assert(p.shares * (self.stream.dist_index@ - p.index@) >= 0) by (nonlinear_arith)
            requires
                p.index@ <= self.stream.dist_index@,
        ;
        assert((self.stream.out_supply - self.stream.out_remaining) * unit()
            == self.stream.out_supply * unit() - self.stream.out_remaining * unit())
            by (nonlinear_arith);
    }
}

impl PoolView {
    /// Exact conservation of an update: the accounted output falls by
    /// exactly what the update releases less what the index gains over all
    /// shares, which is less than one atomic unit per share. An update that
    /// loses nothing to rounding leaves the accounted output as it is.
    pub proof fn law_update_accounts_exactly(self, now: u64)
        requires
            self.wf(),
        ensures
            self.update(now) matches Ok((v, d)) ==> {
                &&& v.accounted() == self.accounted() - (d.released * unit()
                    - self.stream.index_gain(now) * self.stream.shares)
                &&& v.accounted() == self.accounted() - self.stream.lost(now)
                &&& 0 <= self.stream.lost(now)
                &&& (self.stream.shares > 0 ==> self.stream.lost(now) < self.stream.shares)
                &&& (self.stream.lost(now) == 0 ==> v.accounted() == self.accounted())
            },
    {
        self.lemma_update_wf(now);
        self.stream.lemma_update_bounds(now);
        if !self.stream.accrues(now) {
            assert(self.stream.elapsed(now) == 0);
            assert(0 * unit() == 0) by (nonlinear_arith);
        }
    }

    /// Exact conservation of what buyers do while the stream runs: a
    /// deposit, a withdrawal and a sync change the accounted output by the
    /// loss of the update they begin with and by nothing else.
    pub proof fn law_buyers_account_exactly(
        self,
        sender: String,
        owner: String,
        operator: Option<String>,
        amount: u128,
        cap: Option<u128>,
        now: u64,
    )
        requires
            self.wf(),
        ensures
            self.subscribe(sender, owner, operator, amount, now) matches Ok(v) ==> v.accounted()
                == self.accounted() - self.stream.lost(now),
            self.withdraw(sender@, owner@, cap, now) matches Ok((v, a)) ==> v.accounted()
                == self.accounted() - self.stream.lost(now),
            self.update_position(sender@, owner@, now) matches Ok(v) ==> v.accounted()
                == self.accounted() - self.stream.lost(now),
            self.withdraw_paused(sender@, owner@, cap) matches Ok((v, a)) ==> v.accounted()
                == self.accounted(),
    {
        if self.has(owner@) {
            let i = self.slot(owner@);
            self.lemma_subscribe_wf(i, amount, now);
            self.lemma_withdraw_wf(i, cap, now);
            self.lemma_advance_wf(i, now);
            self.lemma_withdraw_paused_wf(i, cap);
        } else {
            self.lemma_join_wf(owner, operator, amount, now);
        }
    }

    /// Exact conservation of an exit: the accounted output falls by the
    /// loss of the update and by what the position was owed, of which the
    /// whole units are paid out and the rest, less than one unit, is dropped.
    pub proof fn law_exit_accounts_exactly(self, sender: Seq<char>, owner: Seq<char>, now: u64)
        requires
            self.wf(),
        ensures
            self.exit(sender, owner, now) matches Ok((v, o)) ==> {
                let owed = self.accounts[self.slot(owner)].position.owed(v.stream.dist_index);
                &&& v.accounted() + owed == self.accounted() - self.stream.lost(now)
                &&& o.purchased == owed / unit()
                &&& v.accounted() + o.purchased * unit() + owed % unit() == self.accounted()
                    - self.stream.lost(now)
            },
    {
        if let Ok((v, o)) = self.exit(sender, owner, now) {
            let i = self.slot(owner);
            let p = self.accounts[i].position;
            let m = unit();
            assert(p.wf());
            self.lemma_exit_wf(i, now);
            self.lemma_update_wf(now);
            let (s, d) = self.stream.update_spec(now).unwrap();
            p.lemma_sync_keeps_owed(s.dist_index, d.elapsed_fraction, s.last_updated);
            let synced = p.sync_spec(s.dist_index, d.elapsed_fraction, s.last_updated).unwrap();
            let owed = p.owed(s.dist_index);
            assert(owed == m * synced.purchased + synced.pending_purchase@) by (nonlinear_arith)
                requires
                    owed == synced.purchased * m + synced.pending_purchase@,
            ;
            assert(synced.pending_purchase@ == synced.pending_purchase.frac) by (nonlinear_arith)
                requires
                    synced.pending_purchase@ == synced.pending_purchase.whole * m
                        + synced.pending_purchase.frac,
                    synced.pending_purchase.whole == 0,
            ;
            vstd::arithmetic::div_mod::lemma_fundamental_div_mod_converse(
                owed as int,
                m as int,
                synced.purchased as int,
                synced.pending_purchase@ as int,
            );
            vstd::arithmetic::div_mod::lemma_fundamental_div_mod(owed as int, m as int);
            assert(m * (owed / m) == (owed / m) * m) by (nonlinear_arith);
        }
    }

    /// Exact conservation of the stream's own transitions: finalizing
    /// hands out exactly what remained after its update, pausing changes
    /// the accounted output by the loss of its update alone, resuming by
    /// nothing.
    pub proof fn law_lifecycle_accounts_exactly(
        self,
        sender: Seq<char>,
        admin: Seq<char>,
        now: u64,
        exit_fee_percent: Decimal,
    )
        requires
            self.wf(),
        ensures
            self.finalize(now, exit_fee_percent) matches Ok((v, o)) ==> v.accounted() + o.unsold
                * unit() == self.accounted() - self.stream.lost(now),
            self.pause(sender, admin, now) matches Ok(v) ==> v.accounted() == self.accounted()
                - self.stream.lost(now),
            self.resume(sender, admin, now) matches Ok(v) ==> v.accounted() == self.accounted(),
    {
        self.lemma_finalize_wf(now, exit_fee_percent);
        self.lemma_pause_wf(now);
        if let Ok(v) = self.resume(sender, admin, now) {
            self.lemma_with_stream_wf(v.stream);
            assert(0 * unit() == 0) by (nonlinear_arith);
        }
    }

    /// Once every position is at the stream's index, the accounted output
    /// is what remains and what is credited, and nothing else.
    pub proof fn law_synced_accounted(self)
        requires
            self.wf(),
            forall|i: int|
                #![trigger self.accounts[i]]
                0 <= i < self.accounts.len() ==> self.accounts[i].position.index
                    == self.stream.dist_index,
        ensures
            self.accounted() == self.stream.out_remaining * unit() + sum(self.credited()),
    {
        assert forall|i: int| 0 <= i < self.accounts.len() implies self.owed()[i]
            == self.credited()[i] by {
            let p = self.accounts[i].position;
            assert(p.index == self.stream.dist_index);
            assert(p.shares * (self.stream.dist_index@ - p.index@) == 0) by (nonlinear_arith)
                requires
                    self.stream.dist_index@ == p.index@,
            ;
        }
        assert(self.owed() =~= self.credited());
    }
}

/// The output that an answer hands out of the pool, in whole units: what a
/// buyer takes along, and what returns to the treasury when a stream is
/// finalized or cancelled.
pub open spec fn output_of(r: Response) -> nat {
    match r {
        Response::Exited(o) => o.purchased as nat,
        Response::Finalized(o) => o.unsold as nat,
        Response::Cancelled(o) => o.returned as nat,
        _ => 0,
    }
}

impl PoolView {
    /// How a later state of a pool relates to an earlier one: the invariant
    /// holds, no output has come into being, the stream has moved forward
    /// only, and every account is still there under its owner.
    pub open spec fn leads_to(self, next: PoolView) -> bool {
        &&& next.wf()
        &&& next.accounted() <= self.accounted()
        &&& self.stream.precedes(next.stream)
        &&& self.accounts.len() <= next.accounts.len()
        &&& forall|i: int|
            #![trigger next.accounts[i]]
            0 <= i < self.accounts.len() ==> next.accounts[i].owner == self.accounts[i].owner
    }

    /// The pool after a call: as the call leaves it, or untouched where the
    /// call is refused.
    #[verifier::opaque]
    pub open spec fn step(self, params: Params, call: Call) -> PoolView {
        match call {
            Call::Execute { info, msg } => match self.execute(params, info, msg) {
                Ok((v, r)) => v,
                Err(e) => self,
            },
            Call::Sudo { now, msg } => match self.sudo(params, now, msg) {
                Ok((v, r)) => v,
                Err(e) => self,
            },
        }
    }

    /// The pool after a sequence of calls.
    pub open spec fn run(self, params: Params, calls: Seq<Call>) -> PoolView
        decreases calls.len(),
    {
        if calls.len() == 0 {
            self
        } else {
            self.run(params, calls.drop_last()).step(params, calls.last())
        }
    }

    /// Replacing the stream and one position leads on, if the result is
    /// well formed and the stream has only moved forward.
    pub proof fn lemma_put_leads(self, stream: Stream, i: int, position: Position)
        requires
            0 <= i < self.accounts.len(),
            self.put(stream, i, position).wf(),
            self.put(stream, i, position).accounted() <= self.accounted(),
            self.stream.precedes(stream),
        ensures
            self.leads_to(self.put(stream, i, position)),
    {
    }

    /// An update of the stream leads on.
    pub proof fn law_update_step(self, now: u64)
        requires
            self.wf(),
        ensures
            self.update(now) matches Ok((v, d)) ==> self.leads_to(v) && self.stream.frozen_in(
                v.stream,
            ),
    {
        self.lemma_update_wf(now);
        self.stream.law_update_monotone(now);
    }

    /// Naming a new operator leads on.
    pub proof fn law_update_operator_step(self, sender: String, operator: Option<String>)
        requires
            self.wf(),
        ensures
            self.update_operator(sender, operator) matches Ok(v) ==> self.leads_to(v)
                && self.stream.frozen_in(v.stream),
    {
        self.lemma_update_operator_wf(sender, operator);
    }

    /// A deposit leads on.
    pub proof fn law_subscribe_step(
        self,
        sender: String,
        owner: String,
        operator: Option<String>,
        amount: u128,
        now: u64,
    )
        requires
            self.wf(),
        ensures
            self.subscribe(sender, owner, operator, amount, now) matches Ok(v) ==> self.leads_to(v)
                && self.stream.frozen_in(v.stream),
    {
        if let Ok(v) = self.subscribe(sender, owner, operator, amount, now) {
            self.stream.law_update_monotone(now);
            if self.has(owner@) {
                let i = self.slot(owner@);
                self.lemma_subscribe_wf(i, amount, now);
                self.lemma_put_leads(v.stream, i, v.accounts[i].position);
                assert(self.put(v.stream, i, v.accounts[i].position).accounts =~= v.accounts);
            } else {
                self.lemma_join_wf(owner, operator, amount, now);
            }
        }
    }

    /// A withdrawal leads on.
    pub proof fn law_withdraw_step(
        self,
        sender: Seq<char>,
        owner: Seq<char>,
        cap: Option<u128>,
        now: u64,
    )
        requires
            self.wf(),
        ensures
            self.withdraw(sender, owner, cap, now) matches Ok((v, a)) ==> self.leads_to(v)
                && self.stream.frozen_in(v.stream),
    {
        if let Ok((v, a)) = self.withdraw(sender, owner, cap, now) {
            let i = self.slot(owner);
            self.stream.law_update_monotone(now);
            self.lemma_withdraw_wf(i, cap, now);
            self.lemma_put_leads(v.stream, i, v.accounts[i].position);
            assert(self.put(v.stream, i, v.accounts[i].position).accounts =~= v.accounts);
        }
    }

    /// A withdrawal while paused leads on and leaves the stream frozen.
    pub proof fn law_withdraw_paused_step(
        self,
        sender: Seq<char>,
        owner: Seq<char>,
        cap: Option<u128>,
    )
        requires
            self.wf(),
        ensures
            self.withdraw_paused(sender, owner, cap) matches Ok((v, a)) ==> self.leads_to(v)
                && self.stream.frozen_in(v.stream),
    {
        if let Ok((v, a)) = self.withdraw_paused(sender, owner, cap) {
            let i = self.slot(owner);
            self.lemma_withdraw_paused_wf(i, cap);
            self.lemma_put_leads(v.stream, i, v.accounts[i].position);
            assert(self.put(v.stream, i, v.accounts[i].position).accounts =~= v.accounts);
        }
    }

    /// Bringing a position up to date leads on.
    pub proof fn law_update_position_step(self, sender: Seq<char>, owner: Seq<char>, now: u64)
        requires
            self.wf(),
        ensures
            self.update_position(sender, owner, now) matches Ok(v) ==> self.leads_to(v)
                && self.stream.frozen_in(v.stream),
    {
        if let Ok(v) = self.update_position(sender, owner, now) {
            let i = self.slot(owner);
            self.stream.law_update_monotone(now);
            self.lemma_advance_wf(i, now);
            self.lemma_put_leads(v.stream, i, v.accounts[i].position);
            assert(self.put(v.stream, i, v.accounts[i].position).accounts =~= v.accounts);
        }
    }

    /// Leaving an ended stream leads on, and what is paid out was accounted for.
    pub proof fn law_exit_step(self, sender: Seq<char>, owner: Seq<char>, now: u64)
        requires
            self.wf(),
        ensures
            self.exit(sender, owner, now) matches Ok((v, o)) ==> self.leads_to(v)
                && self.stream.frozen_in(v.stream) && v.accounted() + o.purchased * unit()
                <= self.accounted(),
    {
        if let Ok((v, o)) = self.exit(sender, owner, now) {
            let i = self.slot(owner);
            self.stream.law_update_monotone(now);
            self.lemma_exit_wf(i, now);
            self.lemma_put_leads(v.stream, i, v.accounts[i].position);
            assert(self.put(v.stream, i, v.accounts[i].position).accounts =~= v.accounts);
        }
    }

    /// Leaving a cancelled stream leads on. The buyer takes back all the
    /// input of the position, consumed or not, and no output; the position
    /// is left empty; and an authorized buyer is never refused.
    pub proof fn law_exit_cancelled_step(self, sender: Seq<char>, owner: Seq<char>)
        requires
            self.wf(),
        ensures
            self.exit_cancelled(sender, owner) matches Ok((v, o)) ==> {
                &&& self.leads_to(v)
                &&& self.stream.frozen_in(v.stream)
                &&& o.purchased == 0
                &&& o.refunded == self.accounts[self.slot(owner)].position.in_balance
                    + self.accounts[self.slot(owner)].position.spent
                &&& v.accounts[self.slot(owner)].position == Position::spec_new(
                    self.stream.dist_index,
                    self.stream.last_updated,
                )
                &&& v.stream.in_supply == self.stream.in_supply
            },
            self.stream.status is Cancelled && self.acting(sender, owner) is Ok
                ==> self.exit_cancelled(sender, owner) is Ok,
    {
        if self.acting(sender, owner) is Ok {
            self.lemma_exit_cancelled_wf(self.slot(owner));
        }
        if let Ok((v, o)) = self.exit_cancelled(sender, owner) {
            let i = self.slot(owner);
            self.lemma_put_leads(v.stream, i, v.accounts[i].position);
            assert(self.put(v.stream, i, v.accounts[i].position).accounts =~= v.accounts);
        }
    }

    /// Finalizing leads on, and the output that returns was accounted for.
    pub proof fn law_finalize_step(self, now: u64, exit_fee_percent: Decimal)
        requires
            self.wf(),
        ensures
            self.finalize(now, exit_fee_percent) matches Ok((v, o)) ==> self.leads_to(v)
                && self.stream.frozen_in(v.stream) && v.stream.status is Finalized
                && v.accounted() + o.unsold * unit() <= self.accounted(),
    {
        self.stream.law_update_monotone(now);
        self.lemma_finalize_wf(now, exit_fee_percent);
    }

    /// Pausing leads on.
    pub proof fn law_pause_step(self, sender: Seq<char>, admin: Seq<char>, now: u64)
        requires
            self.wf(),
        ensures
            self.pause(sender, admin, now) matches Ok(v) ==> self.leads_to(v)
                && self.stream.frozen_in(v.stream) && v.stream.status is Paused,
    {
        self.stream.law_update_monotone(now);
        self.lemma_pause_wf(now);
    }

    /// Resuming leads on and distributes nothing for the time spent paused.
    pub proof fn law_resume_step(self, sender: Seq<char>, admin: Seq<char>, now: u64)
        requires
            self.wf(),
        ensures
            self.resume(sender, admin, now) matches Ok(v) ==> self.leads_to(v)
                && self.stream.frozen_in(v.stream) && v.stream.end_time - v.stream.last_updated
                == self.stream.end_time - self.stream.last_updated && v.stream.end_time
                - v.stream.start_time == self.stream.end_time - self.stream.start_time,
    {
        if let Ok(v) = self.resume(sender, admin, now) {
            self.lemma_with_stream_wf(v.stream);
        }
    }

    /// What holds of a pool whose stream was just cancelled: nothing is
    /// credited to any buyer, every buyer's input is where it was, and the
    /// creator gets back no input and exactly the output that the stream had
    /// not distributed or had credited, all of which was accounted for.
    pub open spec fn cancels_into(self, v: PoolView, o: crate::lifecycle::CancelPayout) -> bool {
        &&& self.leads_to(v)
        &&& self.stream.frozen_in(v.stream)
        &&& v.stream.status is Cancelled
        &&& v.stream.in_supply == self.stream.in_supply
        &&& v.stream.spent_in == self.stream.spent_in
        &&& v.stream.out_remaining == 0
        &&& o.returned == self.stream.out_remaining + sum(self.purchased())
        &&& v.accounted() + o.returned * unit() <= self.accounted()
        &&& forall|i: int|
            #![trigger v.accounts[i]]
            0 <= i < v.accounts.len() ==> {
                &&& v.accounts[i].position.purchased == 0
                &&& v.accounts[i].position.pending_purchase@ == 0
                &&& v.accounts[i].position.in_balance == self.accounts[i].position.in_balance
                &&& v.accounts[i].position.spent == self.accounts[i].position.spent
            }
    }

    /// Cancelling leads on and leaves nothing credited.
    pub proof fn law_cancelled(self)
        requires
            self.wf(),
        ensures
            self.cancelled() matches Ok((v, o)) ==> self.cancels_into(v, o),
    {
        self.lemma_cancelled_wf();
    }

    /// Cancelling by the admin leads on and leaves nothing credited.
    pub proof fn law_cancel_step(self, sender: Seq<char>, admin: Seq<char>)
        requires
            self.wf(),
        ensures
            self.cancel(sender, admin) matches Ok((v, o)) ==> self.cancels_into(v, o),
    {
        self.law_cancelled();
    }

    /// Cancelling for a missed threshold leads on and leaves nothing
    /// credited; it succeeds exactly on a running stream that has ended
    /// below its threshold.
    pub proof fn law_cancel_with_threshold_step(self, now: u64)
        requires
            self.wf(),
        ensures
            self.cancel_with_threshold(now) matches Ok((v, o)) ==> self.cancels_into(v, o),
            self.cancel_with_threshold(now) is Ok <==> self.stream.threshold_missed(now) && (
            self.stream.status is Waiting || self.stream.status is Active),
    {
        self.law_cancelled();
    }

    /// On a cancelled stream with nothing credited, whatever is asked
    /// credits nothing and hands out no output.
    pub proof fn law_cancelled_stays_empty(self, params: Params, info: CallInfo, msg: ExecuteMsg)
        requires
            self.wf(),
            self.stream.status is Cancelled,
            forall|i: int|
                #![trigger self.accounts[i]]
                0 <= i < self.accounts.len() ==> self.accounts[i].position.purchased == 0,
        ensures
            self.execute(params, info, msg) matches Ok((v, r)) ==> output_of(r) == 0
                && v.stream.status is Cancelled && v.accounts.len() == self.accounts.len()
                && forall|i: int|
                #![trigger v.accounts[i]]
                0 <= i < v.accounts.len() ==> v.accounts[i].position.purchased == 0,
    {
        if let Ok((v, r)) = self.execute(params, info, msg) {
            match msg {
                ExecuteMsg::ExitCancelled { operator_target, .. } => {
                    let owner = crate::stream_swap::contract::acting_for(
                        info.sender,
                        operator_target,
                    )@;
                    let i = self.slot(owner);
                    assert forall|j: int|
                        #![trigger v.accounts[j]]
                        0 <= j < v.accounts.len() implies v.accounts[j].position.purchased
                        == 0 by {
                        if j != i {
                            assert(v.accounts[j] == self.accounts[j]);
                        }
                    }
                },
                ExecuteMsg::UpdateOperator { new_operator, .. } => {
                    let i = self.slot(info.sender@);
                    assert forall|j: int|
                        #![trigger v.accounts[j]]
                        0 <= j < v.accounts.len() implies v.accounts[j].position.purchased
                        == 0 by {
                        if j != i {
                            assert(v.accounts[j] == self.accounts[j]);
                        } else {
                            assert(v.accounts[j].position == self.accounts[j].position);
                        }
                    }
                },
                _ => {},
            }
        }
    }

    /// Whatever a call does to a pool, the invariant holds afterwards, the
    /// stream has only moved forward, a paused stream's index, remaining
    /// output and consumed input are where they were, and the output that
    /// the call hands out was accounted for before.
    pub proof fn law_execute_step(self, params: Params, info: CallInfo, msg: ExecuteMsg)
        requires
            self.wf(),
            params.exit_fee_percent.wf(),
        ensures
            self.execute(params, info, msg) matches Ok((v, r)) ==> self.leads_to(v)
                && self.stream.frozen_in(v.stream) && v.accounted() + output_of(r) * unit()
                <= self.accounted(),
    {
        let now = info.now;
        let sender = info.sender;
        let admin = params.protocol_admin;
        match msg {
            ExecuteMsg::UpdateStream { .. } => {
                self.law_update_step(now);
            },
            ExecuteMsg::UpdateOperator { new_operator, .. } => {
                self.law_update_operator_step(sender, new_operator);
            },
            ExecuteMsg::Subscribe { operator_target, operator, .. } => {
                self.law_subscribe_step(
                    sender,
                    crate::stream_swap::contract::acting_for(sender, operator_target),
                    operator,
                    info.funds,
                    now,
                );
            },
            ExecuteMsg::Withdraw { cap, operator_target, .. } => {
                self.law_withdraw_step(
                    sender@,
                    crate::stream_swap::contract::acting_for(sender, operator_target)@,
                    cap,
                    now,
                );
            },
            ExecuteMsg::UpdatePosition { operator_target, .. } => {
                self.law_update_position_step(
                    sender@,
                    crate::stream_swap::contract::acting_for(sender, operator_target)@,
                    now,
                );
            },
            ExecuteMsg::FinalizeStream { .. } => {
                self.law_finalize_step(now, params.exit_fee_percent);
            },
            ExecuteMsg::ExitStream { operator_target, .. } => {
                self.law_exit_step(
                    sender@,
                    crate::stream_swap::contract::acting_for(sender, operator_target)@,
                    now,
                );
            },
            ExecuteMsg::PauseStream { .. } => {
                self.law_pause_step(sender@, admin@, now);
            },
            ExecuteMsg::WithdrawPaused { cap, operator_target, .. } => {
                self.law_withdraw_paused_step(
                    sender@,
                    crate::stream_swap::contract::acting_for(sender, operator_target)@,
                    cap,
                );
            },
            ExecuteMsg::ExitCancelled { operator_target, .. } => {
                self.law_exit_cancelled_step(
                    sender@,
                    crate::stream_swap::contract::acting_for(sender, operator_target)@,
                );
            },
            ExecuteMsg::ResumeStream { .. } => {
                self.law_resume_step(sender@, admin@, now);
            },
            ExecuteMsg::CancelStream { .. } => {
                self.law_cancel_step(sender@, admin@);
            },
            ExecuteMsg::CancelStreamWithThreshold { .. } => {
                self.law_cancel_with_threshold_step(now);
            },
        }
    }

    /// What holds of a call of governance is what holds of every call.
    pub proof fn law_sudo_step(self, params: Params, now: u64, msg: SudoMsg)
        requires
            self.wf(),
        ensures
            self.sudo(params, now, msg) matches Ok((v, r)) ==> self.leads_to(v)
                && self.stream.frozen_in(v.stream) && v.accounted() + output_of(r) * unit()
                <= self.accounted(),
    {
        let admin = params.protocol_admin@;
        match msg {
            SudoMsg::PauseStream { .. } => {
                self.law_pause_step(admin, admin, now);
            },
            SudoMsg::CancelStream { .. } => {
                self.law_cancel_step(admin, admin);
            },
            SudoMsg::ResumeStream { .. } => {
                self.law_resume_step(admin, admin, now);
            },
        }
    }

    /// `leads_to` is reflexive and transitive.
    pub proof fn lemma_leads_to_chain(self, mid: PoolView, next: PoolView)
        requires
            self.leads_to(mid),
            mid.leads_to(next),
        ensures
            self.leads_to(next),
            mid.wf() ==> mid.leads_to(mid),
    {
        assert forall|i: int|
            #![trigger next.accounts[i]]
            0 <= i < self.accounts.len() implies next.accounts[i].owner
            == self.accounts[i].owner by {
            assert(mid.accounts[i].owner == self.accounts[i].owner);
        }
    }

    /// The output that a call hands out of the pool, in whole units.
    #[verifier::opaque]
    pub open spec fn paid(self, params: Params, call: Call) -> nat {
        match call {
            Call::Execute { info, msg } => match self.execute(params, info, msg) {
                Ok((v, r)) => output_of(r),
                Err(e) => 0,
            },
            Call::Sudo { now, msg } => match self.sudo(params, now, msg) {
                Ok((v, r)) => output_of(r),
                Err(e) => 0,
            },
        }
    }

    /// The output that a sequence of calls hands out of the pool, in whole units.
    pub open spec fn paid_through(self, params: Params, calls: Seq<Call>) -> nat
        decreases calls.len(),
    {
        if calls.len() == 0 {
            0
        } else {
            self.paid_through(params, calls.drop_last()) + self.run(
                params,
                calls.drop_last(),
            ).paid(params, calls.last())
        }
    }

    /// A call, accepted or refused, leads on, and hands out no more output
    /// than was accounted for.
    pub proof fn law_step(self, params: Params, call: Call)
        requires
            self.wf(),
            params.exit_fee_percent.wf(),
        ensures
            self.leads_to(self.step(params, call)),
            self.stream.frozen_in(self.step(params, call).stream),
            self.step(params, call).accounted() + self.paid(params, call) * unit()
                <= self.accounted(),
    {
        reveal(PoolView::step);
        reveal(PoolView::paid);
        assert(0 * unit() == 0) by (nonlinear_arith);
        match call {
            Call::Execute { info, msg } => {
                self.law_execute_step(params, info, msg);
            },
            Call::Sudo { now, msg } => {
                self.law_sudo_step(params, now, msg);
            },
        }
    }

    /// For all sequences of calls: the invariant holds at the end, with it
    /// the sum of the shares and the bounds on every balance; neither the
    /// index nor `last_updated` has decreased; a stream that was finalized
    /// or cancelled still is; and the output that is left, owed or was
    /// handed out on the way is at most what was accounted for at the start,
    /// which is at most the committed supply.
    pub proof fn law_run(self, params: Params, calls: Seq<Call>)
        requires
            self.wf(),
            params.exit_fee_percent.wf(),
        ensures
            self.leads_to(self.run(params, calls)),
            self.run(params, calls).accounted() + self.paid_through(params, calls) * unit()
                <= self.accounted(),
            self.accounted() <= self.stream.out_supply * unit(),
        decreases calls.len(),
    {
        if calls.len() > 0 {
            let before = self.run(params, calls.drop_last());
            self.law_run(params, calls.drop_last());
            before.law_step(params, calls.last());
            self.lemma_leads_to_chain(before, before.step(params, calls.last()));
            let earlier = self.paid_through(params, calls.drop_last());
            let last = before.paid(params, calls.last());
            assert((earlier + last) * unit() == earlier * unit() + last * unit())
                by (nonlinear_arith);
        } else {
            assert(0 * unit() == 0) by (nonlinear_arith);
        }
    }

    /// Bringing a position up to date twice at the same instant is doing it once.
    pub proof fn law_update_position_idempotent(
        self,
        sender: Seq<char>,
        owner: Seq<char>,
        now: u64,
    )
        requires
            self.wf(),
        ensures
            self.update_position(sender, owner, now) matches Ok(v) ==> v.update_position(
                sender,
                owner,
                now,
            ) == Ok::<PoolView, ContractError>(v),
    {
        if let Ok(v) = self.update_position(sender, owner, now) {
            let i = self.slot(owner);
            let before = self.accounts[i].position;
            assert(before.wf());
            self.lemma_advance_wf(i, now);
            self.stream.law_advance_idempotent(before, now);
            self.stream.law_update_monotone(now);
            assert(v.accounts[i].owner@ == owner);
            v.lemma_slot(owner, i);
            let (s, p) = self.stream.advance_spec(before, now).unwrap();
            assert(v.put(s, i, p).accounts =~= v.accounts);
        }
    }
}

} // verus!
