use streamswap::decimal::Decimal;
use streamswap::error::{ContractError, ErrorKind};
use streamswap::operations::ExitPayout;
use streamswap::pool::{Account, Pool};
use streamswap::state::{Position, Status, Stream};

fn dec(whole: u128, frac: u128) -> Decimal {
    Decimal::new(whole, frac).unwrap()
}

fn name(s: &str) -> String {
    s.to_string()
}

fn pool() -> Pool {
    Pool::new(Stream::new(1, 100, 200, 1000, None).unwrap()).unwrap()
}

/// Output left or credited, in atomic units of the output asset.
fn accounted(pool: &Pool) -> u128 {
    let unit = streamswap::decimal::DECIMAL_FRACTIONAL;
    let mut total = pool.stream.out_remaining * unit;
    for a in pool.accounts.iter() {
        total += a.position.purchased * unit + a.position.pending_purchase.frac;
    }
    total
}

fn total_shares(pool: &Pool) -> u128 {
    pool.accounts.iter().map(|a| a.position.shares).sum()
}

#[test]
fn new_pool_needs_a_well_formed_stream_without_shares() {
    let s = Stream::new(1, 100, 200, 1000, None).unwrap();
    assert!(Pool::new(s).is_some());
    assert!(Pool::new(Stream { shares: 1, ..s }).is_none());
    assert!(Pool::new(Stream { last_updated: 0, ..s }).is_none());
}

#[test]
fn first_deposit_opens_an_account() {
    let mut pool = pool();
    let alice = name("alice");
    assert_eq!(pool.find(&alice), None);
    assert_eq!(pool.subscribe(&alice, &alice, Some(name("op")), 100, 100), Ok(()));
    assert_eq!(pool.find(&alice), Some(0));
    assert_eq!(pool.accounts.len(), 1);
    assert_eq!(pool.accounts[0].owner, "alice");
    assert_eq!(pool.accounts[0].operator, Some(name("op")));
    assert_eq!(pool.accounts[0].position.in_balance, 100);
    assert_eq!(pool.stream.shares, 100);
}

#[test]
fn nobody_opens_an_account_for_someone_else() {
    let mut pool = pool();
    let before = pool.clone();
    let e = pool.subscribe(&name("mallory"), &name("alice"), None, 100, 100).unwrap_err();
    assert_eq!(e, ContractError::Unauthorized);
    assert_eq!(e.kind(), ErrorKind::Authorization);
    assert_eq!(pool, before);
}

#[test]
fn operator_acts_for_the_owner_and_nobody_else_does() {
    let mut pool = pool();
    let alice = name("alice");
    let op = name("op");
    let mallory = name("mallory");
    pool.subscribe(&alice, &alice, Some(op.clone()), 100, 100).unwrap();
    assert_eq!(pool.resolve(&alice, &alice), Ok(0));
    assert_eq!(pool.resolve(&op, &alice), Ok(0));
    assert_eq!(pool.resolve(&mallory, &alice), Err(ContractError::Unauthorized));
    assert_eq!(pool.resolve(&mallory, &mallory), Err(ContractError::PositionNotFound));

    assert_eq!(pool.subscribe(&op, &alice, None, 50, 100), Ok(()));
    assert_eq!(pool.accounts[0].position.in_balance, 150);
    assert_eq!(pool.accounts[0].operator, Some(op.clone()));
    assert_eq!(pool.subscribe(&mallory, &alice, None, 50, 100), Err(ContractError::Unauthorized));
    assert_eq!(pool.withdraw(&mallory, &alice, None, 110), Err(ContractError::Unauthorized));
    assert_eq!(pool.update_position(&mallory, &alice, 110), Err(ContractError::Unauthorized));
    assert_eq!(pool.exit(&mallory, &alice, 200), Err(ContractError::Unauthorized));
    assert_eq!(pool.withdraw(&op, &alice, Some(10), 100), Ok(10));

    assert_eq!(pool.update_operator(&alice, None), Ok(()));
    assert_eq!(pool.accounts[0].operator, None);
    assert_eq!(pool.resolve(&op, &alice), Err(ContractError::Unauthorized));
    assert_eq!(pool.update_operator(&op, None), Err(ContractError::PositionNotFound));
}

#[test]
fn operations_on_a_missing_account_are_refused() {
    let mut pool = pool();
    let bob = name("bob");
    assert_eq!(pool.withdraw(&bob, &bob, None, 110), Err(ContractError::PositionNotFound));
    assert_eq!(pool.withdraw_paused(&bob, &bob, None), Err(ContractError::PositionNotFound));
    assert_eq!(pool.update_position(&bob, &bob, 110), Err(ContractError::PositionNotFound));
    assert_eq!(pool.exit(&bob, &bob, 200), Err(ContractError::PositionNotFound));
    assert_eq!(pool.exit_cancelled(&bob, &bob), Err(ContractError::PositionNotFound));
    assert_eq!(ContractError::PositionNotFound.kind(), ErrorKind::State);
}

#[test]
fn a_refused_operation_changes_nothing() {
    let mut pool = pool();
    let alice = name("alice");
    let admin = name("admin");
    pool.subscribe(&alice, &alice, None, 100, 100).unwrap();
    let before = pool.clone();
    assert!(pool.subscribe(&alice, &alice, None, 0, 150).is_err());
    assert!(pool.withdraw(&alice, &alice, Some(1000), 150).is_err());
    assert!(pool.exit(&alice, &alice, 150).is_err());
    assert!(pool.exit_cancelled(&alice, &alice).is_err());
    assert!(pool.withdraw_paused(&alice, &alice, None).is_err());
    assert!(pool.finalize(150, Decimal::zero()).is_err());
    assert!(pool.resume(&admin, &admin, 150).is_err());
    assert!(pool.pause(&alice, &admin, 150).is_err());
    assert!(pool.cancel(&alice, &admin).is_err());
    assert!(pool.cancel_with_threshold(250).is_err());
    assert_eq!(pool, before);
}

#[test]
fn only_the_admin_pauses_resumes_and_cancels() {
    let mut pool = pool();
    let admin = name("admin");
    let alice = name("alice");
    assert_eq!(pool.pause(&alice, &admin, 120), Err(ContractError::Unauthorized));
    assert_eq!(pool.pause(&admin, &admin, 120), Ok(()));
    assert_eq!(pool.stream.status, Status::Paused);
    assert_eq!(pool.resume(&alice, &admin, 130), Err(ContractError::Unauthorized));
    assert_eq!(pool.cancel(&alice, &admin), Err(ContractError::Unauthorized));
    assert_eq!(pool.resume(&admin, &admin, 130), Ok(()));
    assert_eq!(pool.stream.status, Status::Active);
    assert_eq!(pool.stream.end_time, 210);
    assert!(pool.cancel(&admin, &admin).is_ok());
    assert_eq!(pool.stream.status, Status::Cancelled);
}

#[test]
fn shares_add_up_and_output_is_conserved_through_a_busy_stream() {
    let mut pool = pool();
    let alice = name("alice");
    let bob = name("bob");
    let carol = name("carol");
    let supply = 1000 * streamswap::decimal::DECIMAL_FRACTIONAL;

    pool.subscribe(&alice, &alice, None, 70, 90).unwrap();
    assert_eq!(total_shares(&pool), pool.stream.shares);
    pool.subscribe(&bob, &bob, None, 30, 113).unwrap();
    assert_eq!(total_shares(&pool), pool.stream.shares);
    assert!(accounted(&pool) <= supply);
    pool.withdraw(&alice, &alice, Some(11), 127).unwrap();
    assert_eq!(total_shares(&pool), pool.stream.shares);
    assert!(accounted(&pool) <= supply);
    pool.subscribe(&carol, &carol, None, 3, 141).unwrap();
    pool.update_position(&bob, &bob, 158).unwrap();
    pool.update(171).unwrap();
    pool.update_position(&alice, &alice, 171).unwrap();
    pool.update_position(&carol, &carol, 199).unwrap();
    assert_eq!(total_shares(&pool), pool.stream.shares);
    assert!(accounted(&pool) <= supply);

    let a = pool.exit(&alice, &alice, 200).unwrap();
    let b = pool.exit(&bob, &bob, 205).unwrap();
    let c = pool.exit(&carol, &carol, 300).unwrap();
    assert_eq!(total_shares(&pool), 0);
    assert_eq!(pool.stream.shares, 0);
    assert!(a.purchased + b.purchased + c.purchased + pool.stream.out_remaining <= 1000);
    for account in pool.accounts.iter() {
        assert!(account.position.index.le(&pool.stream.dist_index));
    }
}

#[test]
fn exit_from_the_pool_pays_out_once() {
    let mut pool = pool();
    let alice = name("alice");
    pool.subscribe(&alice, &alice, None, 100, 100).unwrap();
    assert_eq!(
        pool.exit(&alice, &alice, 200),
        Ok(ExitPayout { purchased: 1000, refunded: 0 })
    );
    assert_eq!(pool.stream.dist_index, dec(10, 0));
    assert_eq!(pool.exit(&alice, &alice, 200), Ok(ExitPayout { purchased: 0, refunded: 0 }));
}

/// A pool at 150 with two buyers, one of them brought up to date.
fn busy() -> Pool {
    let mut pool = pool();
    let alice = name("alice");
    let bob = name("bob");
    pool.subscribe(&alice, &alice, None, 70, 100).unwrap();
    pool.subscribe(&bob, &bob, None, 30, 100).unwrap();
    pool.update_position(&alice, &alice, 150).unwrap();
    pool
}

#[test]
fn pools_that_operations_leave_are_well_formed() {
    let mut pool = pool();
    assert!(pool.is_well_formed());
    let alice = name("alice");
    let bob = name("bob");
    let admin = name("admin");
    pool.subscribe(&alice, &alice, None, 70, 100).unwrap();
    assert!(pool.is_well_formed());
    pool.subscribe(&bob, &bob, None, 33, 120).unwrap();
    assert!(pool.is_well_formed());
    pool.withdraw(&alice, &alice, Some(5), 131).unwrap();
    assert!(pool.is_well_formed());
    pool.pause(&admin, &admin, 140).unwrap();
    assert!(pool.is_well_formed());
    pool.withdraw_paused(&bob, &bob, Some(1)).unwrap();
    assert!(pool.is_well_formed());
    pool.resume(&admin, &admin, 190).unwrap();
    assert!(pool.is_well_formed());
    pool.update_position(&bob, &bob, 222).unwrap();
    assert!(pool.is_well_formed());
    pool.finalize(250, Decimal::zero()).unwrap();
    assert!(pool.is_well_formed());
    pool.exit(&alice, &alice, 250).unwrap();
    pool.exit(&bob, &bob, 250).unwrap();
    assert!(pool.is_well_formed());
}

#[test]
fn each_part_of_the_invariant_is_checked() {
    let pool = busy();
    assert!(pool.is_well_formed());
    assert!(pool.positions_in_order());
    assert!(pool.owners_distinct());
    assert!(pool.shares_add_up());
    assert!(pool.output_conserved());
    assert!(pool.inputs_within_supply());

    // A stream that is not well formed.
    let mut broken = pool.clone();
    broken.stream.last_updated = 0;
    assert!(!broken.is_well_formed());

    // A position ahead of the stream's index.
    let mut broken = pool.clone();
    broken.accounts[1].position.index = dec(6, 0);
    assert!(!broken.positions_in_order());
    assert!(!broken.is_well_formed());

    // A carried remainder of a whole unit or more.
    let mut broken = pool.clone();
    broken.accounts[0].position.pending_purchase = Decimal { whole: 1, frac: 0 };
    assert!(!broken.positions_in_order());
    assert!(!broken.is_well_formed());

    // Two accounts of one owner.
    let mut broken = pool.clone();
    broken.accounts[1].owner = name("alice");
    assert!(!broken.owners_distinct());
    assert!(!broken.is_well_formed());

    // Shares that do not add up.
    let mut broken = pool.clone();
    broken.accounts[0].position.shares += 1;
    assert!(!broken.shares_add_up());
    assert!(!broken.is_well_formed());
    let mut broken = pool.clone();
    broken.accounts[0].position.shares = u128::MAX;
    assert!(!broken.shares_add_up());

    // More output credited than was released: what bob is owed and not
    // yet credited counts as well, so nothing is left to credit.
    let mut broken = pool.clone();
    broken.accounts[0].position.purchased += 1;
    assert!(broken.positions_in_order());
    assert!(!broken.output_conserved());
    assert!(!broken.is_well_formed());
    let mut broken = pool.clone();
    broken.accounts[0].position.purchased = u128::MAX;
    assert!(!broken.output_conserved());
    let mut broken = pool.clone();
    broken.accounts[1].position.shares = u128::MAX;
    assert!(!broken.output_conserved());

    // More input held by the positions than by the stream.
    let mut broken = pool.clone();
    broken.accounts[1].position.in_balance += 1;
    assert!(!broken.inputs_within_supply());
    assert!(!broken.is_well_formed());
    let mut broken = pool.clone();
    broken.accounts[1].position.spent = u128::MAX;
    assert!(!broken.inputs_within_supply());
}

#[test]
fn a_pool_put_together_by_hand_is_checked_like_any_other() {
    let s = Stream::new(1, 100, 200, 1000, None).unwrap();
    let s = Stream { shares: 10, in_supply: 10, ..s };
    let account = |owner: &str, shares: u128| Account {
        owner: name(owner),
        operator: None,
        position: Position { shares, in_balance: shares, ..Position::new(s.dist_index, 100) },
    };
    let good = Pool { stream: s, accounts: vec![account("a", 4), account("b", 6)] };
    assert!(good.is_well_formed());
    let bad = Pool { stream: s, accounts: vec![account("a", 4), account("b", 5)] };
    assert!(!bad.is_well_formed());
    let empty = Pool { stream: s, accounts: vec![] };
    assert!(!empty.is_well_formed());
}

/// Output left with the stream or owed to the positions, in atomic units.
fn owed_and_left(pool: &Pool) -> u128 {
    let unit = streamswap::decimal::DECIMAL_FRACTIONAL;
    let index = |d: &Decimal| d.whole * unit + d.frac;
    let mut total = pool.stream.out_remaining * unit;
    for a in pool.accounts.iter() {
        let p = &a.position;
        total += p.purchased * unit
            + p.pending_purchase.frac
            + p.shares * (index(&pool.stream.dist_index) - index(&p.index));
    }
    total
}

#[test]
fn a_history_that_rounds_nothing_away_accounts_for_the_whole_supply() {
    let supply = 1000 * streamswap::decimal::DECIMAL_FRACTIONAL;
    let mut pool = pool();
    let alice = name("alice");
    let bob = name("bob");
    assert_eq!(owed_and_left(&pool), supply);
    pool.subscribe(&alice, &alice, None, 100, 100).unwrap();
    pool.subscribe(&bob, &bob, None, 100, 150).unwrap();
    assert_eq!(owed_and_left(&pool), supply);
    pool.update(175).unwrap();
    assert_eq!(owed_and_left(&pool), supply);
    pool.update_position(&alice, &alice, 200).unwrap();
    pool.update_position(&bob, &bob, 200).unwrap();
    assert_eq!(owed_and_left(&pool), supply);
    // Everyone is at the stream's index: what is left and what is credited is all there is.
    assert_eq!(accounted(&pool), supply);
}

#[test]
fn an_update_loses_exactly_what_the_division_by_the_shares_rounds_away() {
    let supply = 1000 * streamswap::decimal::DECIMAL_FRACTIONAL;
    let mut pool = pool();
    let alice = name("alice");
    pool.subscribe(&alice, &alice, None, 3, 100).unwrap();
    let d = pool.update(200).unwrap();
    // A thousand units over three shares: one atomic unit cannot be shared out.
    assert_eq!(d.released, 1000);
    assert_eq!(pool.stream.dist_index, dec(333, 333_333_333_333_333_333));
    assert_eq!(owed_and_left(&pool), supply - 1);
    pool.update_position(&alice, &alice, 200).unwrap();
    assert_eq!(owed_and_left(&pool), supply - 1);
    assert_eq!(accounted(&pool), supply - 1);
    // Leaving pays the whole units and drops the rest.
    assert_eq!(pool.exit(&alice, &alice, 200).unwrap().purchased, 999);
    assert_eq!(owed_and_left(&pool), 0);
}
