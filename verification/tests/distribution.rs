use streamswap::decimal::Decimal;
use streamswap::distribution::Distribution;
use streamswap::error::{ArithmeticError, ContractError};
use streamswap::state::{Position, Status, Stream};

fn dec(whole: u128, frac: u128) -> Decimal {
    Decimal::new(whole, frac).unwrap()
}

fn nothing() -> Distribution {
    Distribution { elapsed_fraction: Decimal::zero(), released: 0, consumed: 0 }
}

/// A stream over [100, 200] with 1000 to distribute, 100 shares and 100 of input.
fn running() -> Stream {
    let s = Stream::new(1, 100, 200, 1000, None).unwrap();
    Stream { shares: 100, in_supply: 100, status: Status::Active, ..s }
}

#[test]
fn new_stream_waits_with_everything_remaining() {
    let s = Stream::new(7, 100, 200, 1000, Some(500)).unwrap();
    assert_eq!(s.id, 7);
    assert_eq!(s.status, Status::Waiting);
    assert_eq!(s.last_updated, 100);
    assert_eq!(s.out_remaining, 1000);
    assert_eq!(s.out_supply, 1000);
    assert_eq!(s.shares, 0);
    assert_eq!(s.in_supply, 0);
    assert_eq!(s.spent_in, 0);
    assert_eq!(s.dist_index, Decimal::zero());
    assert_eq!(s.pause_date, None);
    assert_eq!(s.threshold, Some(500));
    assert!(s.is_well_formed());
}

#[test]
fn new_stream_needs_a_schedule_a_supply_and_a_real_threshold() {
    assert_eq!(Stream::new(1, 200, 200, 1000, None), None);
    assert_eq!(Stream::new(1, 200, 100, 1000, None), None);
    assert_eq!(Stream::new(1, 100, 200, 0, None), None);
    assert_eq!(Stream::new(1, 100, 200, 1000, Some(0)), None);
}

#[test]
fn well_formedness_is_checked_field_by_field() {
    let s = running();
    assert!(s.is_well_formed());
    assert!(!Stream { last_updated: 99, ..s }.is_well_formed());
    assert!(!Stream { last_updated: 201, ..s }.is_well_formed());
    assert!(!Stream { out_remaining: 1001, ..s }.is_well_formed());
    assert!(!Stream { dist_index: dec(0, 1), ..s }.is_well_formed());
    assert!(Stream { dist_index: dec(1, 0), out_remaining: 999, ..s }.is_well_formed());
    assert!(!Stream { dist_index: dec(1, 1), out_remaining: 999, ..s }.is_well_formed());
    assert!(!Stream { status: Status::Paused, ..s }.is_well_formed());
    assert!(!Stream { pause_date: Some(120), ..s }.is_well_formed());
    assert!(Stream { status: Status::Paused, pause_date: Some(120), ..s }.is_well_formed());
    assert!(!Stream { threshold: Some(0), ..s }.is_well_formed());
}

#[test]
fn clamp_time_brings_an_instant_into_the_schedule() {
    let s = running();
    assert_eq!(s.clamp_time(0), 100);
    assert_eq!(s.clamp_time(100), 100);
    assert_eq!(s.clamp_time(150), 150);
    assert_eq!(s.clamp_time(200), 200);
    assert_eq!(s.clamp_time(u64::MAX), 200);
}

#[test]
fn update_before_start_does_nothing() {
    let s = Stream::new(1, 100, 200, 1000, None).unwrap();
    assert!(!s.can_accrue(99));
    assert_eq!(s.update(99), Ok((s, nothing())));
}

#[test]
fn first_update_from_start_makes_the_stream_active() {
    let s = Stream::new(1, 100, 200, 1000, None).unwrap();
    assert!(s.can_accrue(100));
    let (after, d) = s.update(100).unwrap();
    assert_eq!(after, Stream { status: Status::Active, ..s });
    assert_eq!(d, nothing());
}

#[test]
fn update_without_shares_moves_time_only() {
    let s = Stream::new(1, 100, 200, 1000, None).unwrap();
    let (after, d) = s.update(150).unwrap();
    assert_eq!(after, Stream { status: Status::Active, last_updated: 150, ..s });
    assert_eq!(d.elapsed_fraction, dec(0, 500_000_000_000_000_000));
    assert_eq!(d.released, 0);
    assert_eq!(d.consumed, 0);
}

#[test]
fn update_releases_the_elapsed_fraction_of_what_remains() {
    let s = running();
    let (after, d) = s.update(150).unwrap();
    assert_eq!(d.elapsed_fraction, dec(0, 500_000_000_000_000_000));
    assert_eq!(d.released, 500);
    assert_eq!(d.consumed, 50);
    assert_eq!(after.out_remaining, 500);
    assert_eq!(after.dist_index, dec(5, 0));
    assert_eq!(after.spent_in, 50);
    assert_eq!(after.in_supply, 100);
    assert_eq!(after.last_updated, 150);
    assert_eq!(after.current_streamed_price, dec(0, 100_000_000_000_000_000));
    assert_eq!(after.shares, 100);

    // The second half of the schedule releases half of what is left by then.
    let (end, d) = after.update(200).unwrap();
    assert_eq!(d.elapsed_fraction, dec(0, 500_000_000_000_000_000));
    assert_eq!(d.released, 250);
    assert_eq!(d.consumed, 50);
    assert_eq!(end.out_remaining, 250);
    assert_eq!(end.dist_index, dec(7, 500_000_000_000_000_000));
    assert_eq!(end.spent_in, 100);
    assert_eq!(end.last_updated, 200);
    assert!(end.is_well_formed());
}

#[test]
fn one_update_over_the_whole_schedule_releases_everything() {
    let s = running();
    let (after, d) = s.update(200).unwrap();
    assert_eq!(d.elapsed_fraction, Decimal::one());
    assert_eq!(d.released, 1000);
    assert_eq!(after.out_remaining, 0);
    assert_eq!(after.dist_index, dec(10, 0));
    assert_eq!(after.spent_in, 100);
}

#[test]
fn update_truncates_fraction_release_and_index() {
    // A third of the schedule, three shares.
    let s = Stream::new(1, 0, 3, 1000, None).unwrap();
    let s = Stream { shares: 3, in_supply: 10, status: Status::Active, ..s };
    let (after, d) = s.update(1).unwrap();
    assert_eq!(d.elapsed_fraction, dec(0, 333_333_333_333_333_333));
    assert_eq!(d.released, 333);
    assert_eq!(d.consumed, 3);
    assert_eq!(after.dist_index, dec(111, 0));
    assert_eq!(after.out_remaining, 667);
    let (after, d) = after.update(2).unwrap();
    assert_eq!(d.released, 222);
    assert_eq!(after.dist_index, dec(185, 0));
    let (after, d) = after.update(3).unwrap();
    assert_eq!(d.released, 148);
    assert_eq!(after.dist_index, dec(234, 333_333_333_333_333_333));
    assert_eq!(after.out_remaining, 297);
}

#[test]
fn update_clamps_to_the_end_of_the_schedule() {
    let s = running();
    assert_eq!(s.update(10_000), s.update(200));
}

#[test]
fn update_twice_at_the_same_instant_is_update_once() {
    let s = running();
    let (once, _) = s.update(150).unwrap();
    assert_eq!(once.update(150), Ok((once, nothing())));
    // An earlier instant does not move a stream back either.
    assert_eq!(once.update(120), Ok((once, nothing())));
}

#[test]
fn update_leaves_a_frozen_stream_alone() {
    let s = running();
    let paused = Stream { status: Status::Paused, pause_date: Some(120), ..s };
    assert_eq!(paused.update(180), Ok((paused, nothing())));
    let cancelled = Stream { status: Status::Cancelled, ..s };
    assert_eq!(cancelled.update(180), Ok((cancelled, nothing())));
    let finalized = Stream { status: Status::Finalized, ..s };
    assert_eq!(finalized.update(180), Ok((finalized, nothing())));
}

#[test]
fn update_fails_when_spent_in_overflows() {
    let s = running();
    let s = Stream { in_supply: u128::MAX, spent_in: 1, ..s };
    assert_eq!(s.update(200), Err(ContractError::Arithmetic(ArithmeticError::Overflow)));
    let s = Stream { spent_in: 0, ..s };
    assert_eq!(s.update(200).unwrap().0.spent_in, u128::MAX);
}

#[test]
fn index_never_decreases_over_a_run_of_updates() {
    let mut s = running();
    let mut t = 100;
    while t <= 220 {
        let (next, _) = s.update(t).unwrap();
        assert!(s.dist_index.le(&next.dist_index));
        assert!(next.out_remaining <= s.out_remaining);
        assert!(next.last_updated >= s.last_updated);
        assert!(next.is_well_formed());
        s = next;
        t += 7;
    }
}

#[test]
fn sync_credits_whole_units_and_carries_the_remainder() {
    let p = Position { shares: 1, ..Position::new(Decimal::zero(), 100) };
    let p = p.sync(dec(0, 600_000_000_000_000_000), Decimal::zero(), 110).unwrap();
    assert_eq!(p.purchased, 0);
    assert_eq!(p.pending_purchase, dec(0, 600_000_000_000_000_000));
    assert_eq!(p.index, dec(0, 600_000_000_000_000_000));
    assert_eq!(p.last_updated, 110);
    let p = p.sync(dec(1, 200_000_000_000_000_000), Decimal::zero(), 120).unwrap();
    assert_eq!(p.purchased, 1);
    assert_eq!(p.pending_purchase, dec(0, 200_000_000_000_000_000));
    assert_eq!(p.index, dec(1, 200_000_000_000_000_000));
}

#[test]
fn sync_consumes_the_fraction_of_the_balance() {
    let p = Position { shares: 100, in_balance: 101, spent: 7, ..Position::new(dec(5, 0), 100) };
    let q = p.sync(dec(6, 250_000_000_000_000_000), dec(0, 500_000_000_000_000_000), 150).unwrap();
    assert_eq!(q.purchased, 125);
    assert_eq!(q.pending_purchase, Decimal::zero());
    assert_eq!(q.in_balance, 51);
    assert_eq!(q.spent, 57);
    assert_eq!(q.shares, 100);
    assert_eq!(q.index, dec(6, 250_000_000_000_000_000));
    assert_eq!(q.last_updated, 150);
    assert!(q.is_well_formed());
}

#[test]
fn sync_three_shares_of_a_third_each_keeps_the_dust_pending() {
    let p = Position { shares: 3, ..Position::new(Decimal::zero(), 0) };
    let index = Decimal::from_ratio(1000, 3).unwrap();
    let q = p.sync(index, Decimal::zero(), 3).unwrap();
    assert_eq!(q.purchased, 999);
    assert_eq!(q.pending_purchase, dec(0, 999_999_999_999_999_999));
}

#[test]
fn sync_twice_is_sync_once() {
    let p = Position { shares: 7, in_balance: 90, ..Position::new(dec(1, 5), 100) };
    let once = p.sync(dec(3, 141), dec(0, 250_000_000_000_000_000), 150).unwrap();
    assert_eq!(once.sync(dec(3, 141), Decimal::zero(), 150), Ok(once));
}

#[test]
fn sync_rejects_an_index_behind_the_position() {
    let p = Position::new(dec(2, 0), 100);
    assert_eq!(
        p.sync(dec(1, 999_999_999_999_999_999), Decimal::zero(), 100),
        Err(ContractError::Arithmetic(ArithmeticError::Overflow))
    );
}

#[test]
fn sync_rejects_what_does_not_fit() {
    let p = Position { shares: u128::MAX, ..Position::new(Decimal::zero(), 100) };
    assert_eq!(
        p.sync(dec(2, 0), Decimal::zero(), 100),
        Err(ContractError::Arithmetic(ArithmeticError::Overflow))
    );
    let p = Position { shares: 1, purchased: u128::MAX, ..Position::new(Decimal::zero(), 100) };
    assert_eq!(
        p.sync(dec(1, 0), Decimal::zero(), 100),
        Err(ContractError::Arithmetic(ArithmeticError::Overflow))
    );
    let p = Position { in_balance: 10, ..Position::new(Decimal::zero(), 100) };
    assert_eq!(
        p.sync(Decimal::zero(), dec(1, 100_000_000_000_000_000), 100),
        Err(ContractError::Arithmetic(ArithmeticError::Overflow))
    );
    let p = Position { in_balance: 10, spent: u128::MAX, ..Position::new(Decimal::zero(), 100) };
    assert_eq!(
        p.sync(Decimal::zero(), dec(0, 100_000_000_000_000_000), 100),
        Err(ContractError::Arithmetic(ArithmeticError::Overflow))
    );
}

#[test]
fn new_position_is_empty_and_well_formed() {
    let p = Position::new(dec(4, 2), 17);
    assert_eq!(p.in_balance, 0);
    assert_eq!(p.shares, 0);
    assert_eq!(p.index, dec(4, 2));
    assert_eq!(p.last_updated, 17);
    assert_eq!(p.purchased, 0);
    assert_eq!(p.pending_purchase, Decimal::zero());
    assert_eq!(p.spent, 0);
    assert!(p.is_well_formed());
    assert!(!Position { pending_purchase: dec(1, 0), ..p }.is_well_formed());
}
