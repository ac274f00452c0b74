use streamswap::decimal::Decimal;
use streamswap::error::{ArithmeticError, ContractError, ErrorKind, ThresholdError};
use streamswap::lifecycle::{CancelPayout, FinalizePayout};
use streamswap::operations::ExitPayout;
use streamswap::state::{Position, Status, Stream};
use streamswap::threshold::check_threshold;

fn dec(whole: u128, frac: u128) -> Decimal {
    Decimal::new(whole, frac).unwrap()
}

fn fresh() -> Stream {
    Stream::new(1, 100, 200, 1000, None).unwrap()
}

fn empty(s: &Stream) -> Position {
    Position::new(s.dist_index, s.last_updated)
}

/// A stream at 150 with one buyer who deposited 100 at the start.
fn halfway() -> (Stream, Position) {
    let s = fresh();
    let (s, p) = s.subscribe(&empty(&s), 100, 100).unwrap();
    s.update_position(&p, 150).unwrap()
}

#[test]
fn first_deposit_gets_one_share_per_unit() {
    let s = fresh();
    let (s, p) = s.subscribe(&empty(&s), 100, 100).unwrap();
    assert_eq!(s.status, Status::Active);
    assert_eq!(s.in_supply, 100);
    assert_eq!(s.shares, 100);
    assert_eq!(p.in_balance, 100);
    assert_eq!(p.shares, 100);
    assert_eq!(p.index, Decimal::zero());
    assert_eq!(p.last_updated, 100);
}

#[test]
fn deposit_before_the_start_is_taken_and_the_stream_keeps_waiting() {
    let s = fresh();
    let (s, p) = s.subscribe(&empty(&s), 40, 50).unwrap();
    assert_eq!(s.status, Status::Waiting);
    assert_eq!(s.last_updated, 100);
    assert_eq!(s.in_supply, 40);
    assert_eq!(p.shares, 40);
}

#[test]
fn later_deposit_gets_shares_at_the_input_per_share() {
    let (s, p) = halfway();
    assert_eq!(s.dist_index, dec(5, 0));
    assert_eq!(p.purchased, 500);
    assert_eq!(p.in_balance, 50);
    assert_eq!(p.spent, 50);
    // The position gives up 20 of its 50, and with them 40 of its 100 shares.
    let (s, p, amount) = s.withdraw(&p, Some(20), 150).unwrap();
    assert_eq!(amount, 20);
    assert_eq!(p.in_balance, 30);
    assert_eq!(p.shares, 60);
    assert_eq!(s.in_supply, 80);
    assert_eq!(s.shares, 60);
    // 60 shares stand for 80 of input: a deposit of 100 gets 75 shares.
    let (s, q) = s.subscribe(&empty(&s), 100, 150).unwrap();
    assert_eq!(q.shares, 75);
    assert_eq!(q.in_balance, 100);
    assert_eq!(q.index, dec(5, 0));
    assert_eq!(s.shares, 135);
    assert_eq!(s.in_supply, 180);
}

#[test]
fn subscribe_rejects_an_empty_deposit() {
    let s = fresh();
    let e = s.subscribe(&empty(&s), 0, 100).unwrap_err();
    assert_eq!(e, ContractError::NoFundsSent);
    assert_eq!(e.kind(), ErrorKind::Payment);
}

#[test]
fn subscribe_rejects_a_stream_that_is_not_open() {
    let s = fresh();
    let p = empty(&s);
    assert_eq!(s.subscribe(&p, 1, 200), Err(ContractError::StreamEnded));
    assert_eq!(s.subscribe(&p, 1, 201), Err(ContractError::StreamEnded));
    let paused = s.pause(120).unwrap();
    assert_eq!(paused.subscribe(&p, 1, 130), Err(ContractError::StreamKillswitchActive));
    let (cancelled, _) = s.cancel().unwrap();
    assert_eq!(cancelled.subscribe(&p, 1, 130), Err(ContractError::StreamIsCancelled));
    let (finalized, _) = s.finalize(200, Decimal::zero()).unwrap();
    assert_eq!(finalized.subscribe(&p, 1, 130), Err(ContractError::StreamEnded));
    assert_eq!(ContractError::StreamEnded.kind(), ErrorKind::State);
}

#[test]
fn subscribe_rejects_sums_beyond_the_ledger() {
    let s = fresh();
    let (s, p) = s.subscribe(&empty(&s), u128::MAX, 100).unwrap();
    assert_eq!(
        s.subscribe(&p, 1, 100),
        Err(ContractError::Arithmetic(ArithmeticError::Overflow))
    );
    assert_eq!(
        ContractError::Arithmetic(ArithmeticError::Overflow).kind(),
        ErrorKind::Arithmetic
    );
}

#[test]
fn withdraw_without_cap_takes_the_whole_balance_and_all_shares() {
    let (s, p) = halfway();
    let (s, p, amount) = s.withdraw(&p, None, 150).unwrap();
    assert_eq!(amount, 50);
    assert_eq!(p.in_balance, 0);
    assert_eq!(p.shares, 0);
    assert_eq!(p.purchased, 500);
    assert_eq!(p.spent, 50);
    assert_eq!(s.shares, 0);
    assert_eq!(s.in_supply, 50);
}

#[test]
fn withdraw_syncs_before_it_measures_the_cap() {
    let s = fresh();
    let (s, p) = s.subscribe(&empty(&s), 100, 100).unwrap();
    // At 150 half of the deposit is consumed: 60 is more than what is left.
    assert_eq!(s.withdraw(&p, Some(60), 150), Err(ContractError::WithdrawAmountExceedsBalance));
    let (_, q, amount) = s.withdraw(&p, Some(50), 150).unwrap();
    assert_eq!(amount, 50);
    assert_eq!(q.in_balance, 0);
    assert_eq!(q.shares, 0);
}

#[test]
fn withdraw_rejects_an_empty_withdrawal() {
    let (s, p) = halfway();
    assert_eq!(s.withdraw(&p, Some(0), 150), Err(ContractError::InvalidWithdrawAmount));
    let (s, p, _) = s.withdraw(&p, None, 150).unwrap();
    assert_eq!(s.withdraw(&p, None, 150), Err(ContractError::InvalidWithdrawAmount));
}

#[test]
fn withdraw_is_refused_by_the_killswitch_only() {
    let (s, p) = halfway();
    // After the end the balance that the distribution left can be taken out.
    let (after, q, amount) = s.withdraw(&p, None, 200).unwrap();
    assert_eq!((amount, q.in_balance, q.shares, q.purchased), (25, 0, 0, 750));
    assert_eq!((after.in_supply, after.shares, after.out_remaining), (75, 0, 250));
    let (finalized, _) = s.finalize(200, Decimal::zero()).unwrap();
    assert_eq!(finalized.withdraw(&p, Some(1), 200).unwrap().2, 1);
    let paused = s.pause(160).unwrap();
    assert_eq!(paused.withdraw(&p, None, 170), Err(ContractError::StreamKillswitchActive));
    let (cancelled, _) = s.cancel().unwrap();
    assert_eq!(cancelled.withdraw(&p, None, 170), Err(ContractError::StreamIsCancelled));
}

#[test]
fn withdraw_paused_works_only_while_paused() {
    let (s, p) = halfway();
    assert_eq!(s.withdraw_paused(&p, None), Err(ContractError::StreamNotPaused));
    let (cancelled, _) = s.cancel().unwrap();
    assert_eq!(cancelled.withdraw_paused(&p, None), Err(ContractError::StreamIsCancelled));
    let paused = s.pause(160).unwrap();
    // The pause brought the stream to 160; the position is credited up to there.
    assert_eq!(paused.dist_index, dec(5, 500_000_000_000_000_000));
    let (after, q, amount) = paused.withdraw_paused(&p, Some(10)).unwrap();
    assert_eq!(amount, 10);
    assert_eq!(q.purchased, 550);
    assert_eq!(q.in_balance, 40);
    assert_eq!(q.shares, 80);
    assert_eq!(after.shares, 80);
    assert_eq!(after.in_supply, 90);
    assert_eq!(after.dist_index, paused.dist_index);
    assert_eq!(after.status, Status::Paused);
    assert_eq!(
        paused.withdraw_paused(&p, Some(51)),
        Err(ContractError::WithdrawAmountExceedsBalance)
    );
}

#[test]
fn update_position_is_refused_by_the_killswitch() {
    let (s, p) = halfway();
    let paused = s.pause(160).unwrap();
    assert_eq!(paused.update_position(&p, 170), Err(ContractError::StreamKillswitchActive));
    let (cancelled, _) = s.cancel().unwrap();
    assert_eq!(cancelled.update_position(&p, 170), Err(ContractError::StreamIsCancelled));
}

#[test]
fn update_position_twice_at_the_same_instant_is_once() {
    let s = fresh();
    let (s, p) = s.subscribe(&empty(&s), 100, 100).unwrap();
    let (once, synced) = s.update_position(&p, 133).unwrap();
    assert_eq!(once.update_position(&synced, 133), Ok((once, synced)));
}

#[test]
fn exit_pays_out_and_zeroes_the_position() {
    let (s, p) = halfway();
    assert_eq!(s.exit(&p, 199), Err(ContractError::StreamNotEnded));
    let (after, q, payout) = s.exit(&p, 200).unwrap();
    // The second half releases 250 of the remaining 500.
    assert_eq!(payout, ExitPayout { purchased: 750, refunded: 25 });
    assert_eq!(after.out_remaining, 250);
    assert_eq!(after.shares, 0);
    assert_eq!(q, Position::new(after.dist_index, 200));
    // Nothing is left to pay out a second time.
    let (_, _, again) = after.exit(&q, 200).unwrap();
    assert_eq!(again, ExitPayout { purchased: 0, refunded: 0 });
}

#[test]
fn exit_is_refused_by_the_killswitch() {
    let (s, p) = halfway();
    let paused = s.pause(160).unwrap();
    assert_eq!(paused.exit(&p, 300), Err(ContractError::StreamKillswitchActive));
    let (cancelled, _) = s.cancel().unwrap();
    assert_eq!(cancelled.exit(&p, 300), Err(ContractError::StreamIsCancelled));
}

#[test]
fn exit_cancelled_returns_all_input_and_no_output() {
    let (s, p) = halfway();
    assert_eq!((p.in_balance, p.spent, p.purchased), (50, 50, 500));
    assert_eq!(s.exit_cancelled(&p), Err(ContractError::StreamNotCancelled));
    let (cancelled, _) = s.cancel().unwrap();
    let (after, q, payout) = cancelled.exit_cancelled(&p).unwrap();
    // What was consumed comes back with what was not; what was credited does not.
    assert_eq!(payout, ExitPayout { purchased: 0, refunded: 100 });
    assert_eq!(after.shares, 0);
    assert_eq!(after.in_supply, cancelled.in_supply);
    assert_eq!(after.status, Status::Cancelled);
    assert_eq!(q, Position::new(cancelled.dist_index, cancelled.last_updated));
    let (_, _, again) = after.exit_cancelled(&q).unwrap();
    assert_eq!(again, ExitPayout { purchased: 0, refunded: 0 });
}

#[test]
fn exit_cancelled_rejects_what_does_not_fit() {
    let (s, p) = halfway();
    let (cancelled, _) = s.cancel().unwrap();
    let too_much = Position { in_balance: u128::MAX, spent: 1, ..p };
    assert_eq!(
        cancelled.exit_cancelled(&too_much),
        Err(ContractError::Arithmetic(ArithmeticError::Overflow))
    );
    let too_many = Position { shares: 101, ..p };
    assert_eq!(
        cancelled.exit_cancelled(&too_many),
        Err(ContractError::Arithmetic(ArithmeticError::Overflow))
    );
}

#[test]
fn release_rejects_more_shares_than_the_stream_has() {
    let s = fresh();
    let p = Position { shares: 1, ..empty(&s) };
    assert_eq!(s.release(&p), Err(ContractError::Arithmetic(ArithmeticError::Overflow)));
}

#[test]
fn finalize_settles_with_the_treasury() {
    let (s, _) = halfway();
    assert_eq!(s.finalize(199, Decimal::zero()), Err(ContractError::StreamNotEnded));
    let (after, payout) = s.finalize(200, dec(0, 10_000_000_000_000_000)).unwrap();
    // 50 were consumed in the first half and 50 in the second; one percent is the fee.
    assert_eq!(payout, FinalizePayout { revenue: 99, fee: 1, unsold: 250 });
    assert_eq!(after.status, Status::Finalized);
    assert_eq!(after.out_remaining, 0);
    assert_eq!(after.spent_in, 100);
    assert_eq!(after.last_updated, 200);
    assert_eq!(after.finalize(200, Decimal::zero()), Err(ContractError::StreamAlreadyFinalized));
    assert_eq!(after.finalize(300, Decimal::zero()), Err(ContractError::StreamAlreadyFinalized));
}

#[test]
fn finalize_rounds_the_fee_down() {
    let (s, _) = halfway();
    let (_, payout) = s.finalize(200, dec(0, 19_999_999_999_999_999)).unwrap();
    assert_eq!(payout.fee, 1);
    assert_eq!(payout.revenue, 99);
    let (_, payout) = s.finalize(200, Decimal::one()).unwrap();
    assert_eq!(payout.fee, 100);
    assert_eq!(payout.revenue, 0);
}

#[test]
fn finalize_rejects_a_fee_above_one_and_frozen_streams() {
    let (s, _) = halfway();
    let e = s.finalize(200, dec(1, 1)).unwrap_err();
    assert_eq!(e, ContractError::InvalidExitFeePercent);
    assert_eq!(e.kind(), ErrorKind::Validation);
    let paused = s.pause(160).unwrap();
    assert_eq!(paused.finalize(200, Decimal::zero()), Err(ContractError::StreamKillswitchActive));
    let (cancelled, _) = s.cancel().unwrap();
    assert_eq!(cancelled.finalize(200, Decimal::zero()), Err(ContractError::StreamIsCancelled));
}

#[test]
fn pause_freezes_after_a_last_update() {
    let (s, _) = halfway();
    let paused = s.pause(160).unwrap();
    assert_eq!(paused.status, Status::Paused);
    assert_eq!(paused.pause_date, Some(160));
    assert_eq!(paused.last_updated, 160);
    assert_eq!(paused.out_remaining, 450);
    assert_eq!(paused.pause(170), Err(ContractError::StreamKillswitchActive));
    // A stream past its end pauses as well; nothing is left of its schedule.
    let late = s.pause(500).unwrap();
    assert_eq!(late.last_updated, 200);
    assert_eq!(late.pause_date, Some(500));
    assert_eq!(late.resume(600).unwrap().last_updated, 300);
    assert_eq!(late.resume(600).unwrap().end_time, 300);
    let (cancelled, _) = s.cancel().unwrap();
    assert_eq!(cancelled.pause(170), Err(ContractError::StreamIsCancelled));
    let (finalized, _) = s.finalize(200, Decimal::zero()).unwrap();
    assert_eq!(finalized.pause(170), Err(ContractError::StreamAlreadyFinalized));
}

#[test]
fn resume_shifts_the_schedule_by_the_time_paused() {
    let (s, _) = halfway();
    let paused = s.pause(160).unwrap();
    let resumed = paused.resume(1160).unwrap();
    assert_eq!(resumed.status, Status::Active);
    assert_eq!(resumed.pause_date, None);
    assert_eq!(resumed.start_time, 1100);
    assert_eq!(resumed.end_time, 1200);
    assert_eq!(resumed.last_updated, 1160);
    assert_eq!(resumed.dist_index, paused.dist_index);
    assert_eq!(resumed.out_remaining, paused.out_remaining);
    assert!(resumed.is_well_formed());
}

#[test]
fn resume_of_a_stream_paused_while_waiting_waits_again() {
    let s = fresh();
    let paused = s.pause(40).unwrap();
    assert_eq!(paused.status, Status::Paused);
    let resumed = paused.resume(70).unwrap();
    assert_eq!(resumed.status, Status::Waiting);
    assert_eq!(resumed.start_time, 130);
    assert_eq!(resumed.end_time, 230);
    assert_eq!(resumed.last_updated, 130);
}

#[test]
fn resume_rejects_what_is_not_paused_and_bad_instants() {
    let (s, _) = halfway();
    assert_eq!(s.resume(170), Err(ContractError::StreamNotPaused));
    let (cancelled, _) = s.cancel().unwrap();
    assert_eq!(cancelled.resume(170), Err(ContractError::StreamIsCancelled));
    let paused = s.pause(160).unwrap();
    assert_eq!(paused.resume(159), Err(ContractError::ResumeBeforePause));
    assert_eq!(
        paused.resume(u64::MAX),
        Err(ContractError::Arithmetic(ArithmeticError::Overflow))
    );
    assert_eq!(paused.resume(160).unwrap(), Stream { ..s.update(160).unwrap().0 });
}

#[test]
fn cancel_freezes_the_stream_and_returns_what_is_left() {
    let (s, _) = halfway();
    let (cancelled, payout) = s.cancel().unwrap();
    // The output that was not distributed returns; the input stays for the buyers.
    assert_eq!(payout, CancelPayout { returned: 500 });
    assert_eq!(cancelled, Stream { status: Status::Cancelled, out_remaining: 0, ..s });
    assert_eq!(cancelled.spent_in, 50);
    assert_eq!(cancelled.in_supply, 100);
    assert_eq!(cancelled.cancel(), Err(ContractError::StreamIsCancelled));
    let paused = s.pause(160).unwrap();
    let (from_pause, _) = paused.cancel().unwrap();
    assert_eq!(from_pause.status, Status::Cancelled);
    assert_eq!(from_pause.pause_date, None);
    let (finalized, _) = s.finalize(200, Decimal::zero()).unwrap();
    assert_eq!(finalized.cancel(), Err(ContractError::StreamAlreadyFinalized));
}

#[test]
fn threshold_guard_cancels_only_a_stream_that_ended_short() {
    let s = Stream::new(1, 100, 200, 1000, Some(500)).unwrap();
    let (s, _) = s.subscribe(&empty(&s), 200, 100).unwrap();
    assert!(!s.is_threshold_missed(199));
    assert!(s.is_threshold_missed(200));
    assert_eq!(s.cancel_with_threshold(199), Err(ContractError::StreamNotEnded));
    let (cancelled, payout) = s.cancel_with_threshold(200).unwrap();
    assert_eq!(cancelled.status, Status::Cancelled);
    assert_eq!(payout, CancelPayout { returned: 1000 });
    assert_eq!(cancelled.cancel_with_threshold(200), Err(ContractError::StreamIsCancelled));

    let (enough, _) = s.subscribe(&empty(&s), 300, 100).unwrap();
    assert!(!enough.is_threshold_missed(200));
    let e = enough.cancel_with_threshold(200).unwrap_err();
    assert_eq!(e, ContractError::ThresholdError(ThresholdError::ThresholdReached));
    assert_eq!(e.kind(), ErrorKind::State);

    let none = fresh();
    assert!(!none.is_threshold_missed(200));
    assert_eq!(
        none.cancel_with_threshold(200),
        Err(ContractError::ThresholdError(ThresholdError::ThresholdNotSet))
    );
    let paused = s.pause(150).unwrap();
    assert_eq!(paused.cancel_with_threshold(200), Err(ContractError::StreamKillswitchActive));
    let (finalized, _) = s.finalize(200, Decimal::zero()).unwrap();
    assert_eq!(finalized.cancel_with_threshold(200), Err(ContractError::StreamAlreadyFinalized));
}

#[test]
fn threshold_of_zero_is_rejected() {
    assert_eq!(check_threshold(Some(0)), Err(ThresholdError::ThresholdZero));
    assert_eq!(check_threshold(Some(1)), Ok(()));
    assert_eq!(check_threshold(None), Ok(()));
    assert_eq!(
        ContractError::ThresholdError(ThresholdError::ThresholdZero).kind(),
        ErrorKind::Validation
    );
}

#[test]
fn killswitch_and_open_checks_name_their_reason() {
    let (s, _) = halfway();
    assert_eq!(s.check_killswitch(), None);
    assert_eq!(s.check_open(199), None);
    assert_eq!(s.check_open(200), Some(ContractError::StreamEnded));
    let paused = s.pause(160).unwrap();
    assert_eq!(paused.check_killswitch(), Some(ContractError::StreamKillswitchActive));
    assert_eq!(paused.check_open(170), Some(ContractError::StreamKillswitchActive));
    let (cancelled, _) = s.cancel().unwrap();
    assert_eq!(cancelled.check_killswitch(), Some(ContractError::StreamIsCancelled));
}
