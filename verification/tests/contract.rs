use streamswap::decimal::Decimal;
use streamswap::distribution::Distribution;
use streamswap::error::ContractError;
use streamswap::factory::{Params, StreamInfo};
use streamswap::lifecycle::{CancelPayout, FinalizePayout};
use streamswap::msg;
use streamswap::operations::ExitPayout;
use streamswap::payment::Coin;
use streamswap::pool::{Account, Pool};
use streamswap::query;
use streamswap::state::{Position, Status, Stream};
use streamswap::stream_swap::contract::{execute, sudo, CallInfo, Response};
use streamswap::stream_swap::msg::{
    AveragePriceResponse, ConfigResponse, ExecuteMsg, LatestStreamedPriceResponse, MigrateMsg,
    PositionResponse, QueryMsg, StreamResponse, SudoMsg,
};
use streamswap::stream_swap::msg::{PositionsResponse, StreamsResponse};
use streamswap::stream_swap::query::{
    list_positions, list_streams, page_length, query as answer, query_average_price,
    query_last_streamed_price, query_params, query_position, query_stream, query_threshold,
    QueryResponse, DEFAULT_LIMIT, MAX_LIMIT,
};

fn dec(whole: u128, frac: u128) -> Decimal {
    Decimal::new(whole, frac).unwrap()
}

fn params() -> Params {
    Params {
        stream_creation_fee: Coin { denom: "fee_token".to_string(), amount: 100 },
        exit_fee_percent: dec(0, 10_000_000_000_000_000),
        min_stream_blocks: 20,
        min_blocks_until_start_block: 20,
        accepted_in_denom: "in_denom".to_string(),
        fee_collector: "collector".to_string(),
        protocol_admin: "admin".to_string(),
    }
}

fn info() -> StreamInfo {
    StreamInfo {
        name: "stream".to_string(),
        url: Some("https://example.org".to_string()),
        treasury: "treasury".to_string(),
        stream_admin: "creator".to_string(),
        in_denom: "in_denom".to_string(),
        out_denom: "out_denom".to_string(),
    }
}

fn pool() -> Pool {
    Pool::new(Stream::new(1, 100, 200, 1000, Some(500)).unwrap()).unwrap()
}

fn call(sender: &str, now: u64, funds: u128) -> CallInfo {
    CallInfo { now, sender: sender.to_string(), funds }
}

#[test]
fn a_message_for_another_stream_is_refused() {
    let mut pool = pool();
    let before = pool.clone();
    assert_eq!(
        execute(&mut pool, &params(), &call("a", 100, 0), ExecuteMsg::UpdateStream { stream_id: 2 }),
        Err(ContractError::StreamNotFound)
    );
    assert_eq!(
        sudo(&mut pool, &params(), 100, SudoMsg::PauseStream { stream_id: 2 }),
        Err(ContractError::StreamNotFound)
    );
    assert_eq!(pool, before);
    assert_eq!(ExecuteMsg::Subscribe { stream_id: 9, operator_target: None, operator: None }.stream_id(), 9);
    assert_eq!(SudoMsg::CancelStream { stream_id: 4 }.stream_id(), 4);
}

#[test]
fn messages_reach_their_operations() {
    let mut pool = pool();
    let p = params();
    assert_eq!(
        execute(
            &mut pool,
            &p,
            &call("a", 100, 600),
            ExecuteMsg::Subscribe { stream_id: 1, operator_target: None, operator: Some("op".to_string()) }
        ),
        Ok(Response::Subscribed)
    );
    assert_eq!(pool.accounts[0].owner, "a");
    assert_eq!(pool.accounts[0].operator, Some("op".to_string()));
    assert_eq!(pool.accounts[0].position.in_balance, 600);

    // The operator deposits for the owner.
    assert_eq!(
        execute(
            &mut pool,
            &p,
            &call("op", 100, 400),
            ExecuteMsg::Subscribe { stream_id: 1, operator_target: Some("a".to_string()), operator: None }
        ),
        Ok(Response::Subscribed)
    );
    assert_eq!(pool.accounts.len(), 1);
    assert_eq!(pool.accounts[0].position.in_balance, 1000);

    assert_eq!(
        execute(&mut pool, &p, &call("x", 125, 0), ExecuteMsg::UpdateStream { stream_id: 1 }),
        Ok(Response::StreamUpdated(Distribution {
            elapsed_fraction: dec(0, 250_000_000_000_000_000),
            released: 250,
            consumed: 250,
        }))
    );
    assert_eq!(
        execute(
            &mut pool,
            &p,
            &call("a", 150, 0),
            ExecuteMsg::UpdatePosition { stream_id: 1, operator_target: None }
        ),
        Ok(Response::PositionUpdated)
    );
    assert_eq!(pool.accounts[0].position.purchased, 437);
    assert_eq!(pool.accounts[0].position.pending_purchase, Decimal::zero());
    assert_eq!(pool.accounts[0].position.in_balance, 750);
    assert_eq!(pool.stream.dist_index, dec(0, 437_000_000_000_000_000));

    assert_eq!(
        execute(
            &mut pool,
            &p,
            &call("op", 150, 0),
            ExecuteMsg::Withdraw { stream_id: 1, cap: Some(250), operator_target: Some("a".to_string()) }
        ),
        Ok(Response::Withdrawn(250))
    );
    assert_eq!(
        execute(
            &mut pool,
            &p,
            &call("a", 150, 0),
            ExecuteMsg::UpdateOperator { stream_id: 1, new_operator: None }
        ),
        Ok(Response::OperatorUpdated)
    );
    assert_eq!(pool.accounts[0].operator, None);
    assert_eq!(
        execute(
            &mut pool,
            &p,
            &call("op", 150, 0),
            ExecuteMsg::Withdraw { stream_id: 1, cap: None, operator_target: Some("a".to_string()) }
        ),
        Err(ContractError::Unauthorized)
    );

    assert_eq!(
        execute(&mut pool, &p, &call("a", 160, 0), ExecuteMsg::PauseStream { stream_id: 1 }),
        Err(ContractError::Unauthorized)
    );
    assert_eq!(
        execute(&mut pool, &p, &call("admin", 160, 0), ExecuteMsg::PauseStream { stream_id: 1 }),
        Ok(Response::Paused)
    );
    assert_eq!(pool.stream.status, Status::Paused);
    assert_eq!(
        execute(
            &mut pool,
            &p,
            &call("a", 170, 0),
            ExecuteMsg::WithdrawPaused { stream_id: 1, cap: Some(1), operator_target: None }
        ),
        Ok(Response::Withdrawn(1))
    );
    assert_eq!(
        execute(&mut pool, &p, &call("admin", 180, 0), ExecuteMsg::ResumeStream { stream_id: 1 }),
        Ok(Response::Resumed)
    );
    assert_eq!(pool.stream.end_time, 220);
    assert_eq!(
        execute(
            &mut pool,
            &p,
            &call("anyone", 220, 0),
            ExecuteMsg::FinalizeStream { stream_id: 1, new_treasury: None }
        ),
        Ok(Response::Finalized(FinalizePayout { revenue: 866, fee: 8, unsold: 305 }))
    );
    assert_eq!(pool.stream.status, Status::Finalized);
    let exit = execute(
        &mut pool,
        &p,
        &call("a", 220, 0),
        ExecuteMsg::ExitStream { stream_id: 1, operator_target: None },
    );
    assert_eq!(exit, Ok(Response::Exited(ExitPayout { purchased: 694, refunded: 499 })));
    assert_eq!(pool.accounts[0].position, Position::new(pool.stream.dist_index, 220));
}

#[test]
fn cancel_messages_reach_the_killswitch() {
    let p = params();
    let mut pool = pool();
    execute(
        &mut pool,
        &p,
        &call("a", 100, 200),
        ExecuteMsg::Subscribe { stream_id: 1, operator_target: None, operator: None },
    )
    .unwrap();
    assert_eq!(
        execute(&mut pool, &p, &call("a", 150, 0), ExecuteMsg::CancelStream { stream_id: 1 }),
        Err(ContractError::Unauthorized)
    );
    let mut by_threshold = pool.clone();
    assert_eq!(
        execute(
            &mut by_threshold,
            &p,
            &call("anyone", 200, 0),
            ExecuteMsg::CancelStreamWithThreshold { stream_id: 1 }
        ),
        Ok(Response::Cancelled(CancelPayout { returned: 1000 }))
    );
    assert_eq!(
        execute(
            &mut by_threshold,
            &p,
            &call("a", 200, 0),
            ExecuteMsg::ExitCancelled { stream_id: 1, operator_target: None }
        ),
        Ok(Response::Exited(ExitPayout { purchased: 0, refunded: 200 }))
    );
    assert_eq!(
        execute(&mut pool, &p, &call("admin", 150, 0), ExecuteMsg::CancelStream { stream_id: 1 }),
        Ok(Response::Cancelled(CancelPayout { returned: 1000 }))
    );
    assert_eq!(pool.stream.status, Status::Cancelled);
}

#[test]
fn governance_needs_no_sender() {
    let p = params();
    let mut pool = pool();
    assert_eq!(sudo(&mut pool, &p, 120, SudoMsg::PauseStream { stream_id: 1 }), Ok(Response::Paused));
    assert_eq!(pool.stream.pause_date, Some(120));
    assert_eq!(
        sudo(&mut pool, &p, 120, SudoMsg::PauseStream { stream_id: 1 }),
        Err(ContractError::StreamKillswitchActive)
    );
    assert_eq!(sudo(&mut pool, &p, 140, SudoMsg::ResumeStream { stream_id: 1 }), Ok(Response::Resumed));
    assert_eq!(pool.stream.start_time, 120);
    assert_eq!(
        sudo(&mut pool, &p, 140, SudoMsg::ResumeStream { stream_id: 1 }),
        Err(ContractError::StreamNotPaused)
    );
    assert_eq!(
        sudo(&mut pool, &p, 150, SudoMsg::CancelStream { stream_id: 1 }),
        Ok(Response::Cancelled(CancelPayout { returned: 1000 }))
    );
    assert_eq!(
        sudo(&mut pool, &p, 150, SudoMsg::CancelStream { stream_id: 1 }),
        Err(ContractError::StreamIsCancelled)
    );
}

#[test]
fn queries_report_the_state() {
    let s = Stream::new(1, 100, 200, 1000, Some(500)).unwrap();
    let (s, p) = s.subscribe(&Position::new(s.dist_index, s.last_updated), 100, 100).unwrap();
    let (s, p) = s.update_position(&p, 150).unwrap();
    let account = Account { owner: "a".to_string(), operator: Some("op".to_string()), position: p };

    assert_eq!(
        query_stream(&s, &info()),
        StreamResponse {
            id: 1,
            treasury: "treasury".to_string(),
            url: Some("https://example.org".to_string()),
            dist_index: dec(5, 0),
            last_updated_block: 150,
            out_asset: Coin { denom: "out_denom".to_string(), amount: 1000 },
            out_remaining: 500,
            in_denom: "in_denom".to_string(),
            in_supply: 100,
            spent_in: 50,
            shares: 100,
            start_block: 100,
            end_block: 200,
            current_streamed_price: dec(0, 100_000_000_000_000_000),
            status: Status::Active,
            pause_block: None,
            stream_admin: "creator".to_string(),
        }
    );
    assert_eq!(
        query_position(1, &account),
        PositionResponse {
            stream_id: 1,
            owner: "a".to_string(),
            in_balance: 50,
            shares: 100,
            index: dec(5, 0),
            last_updated_block: 150,
            purchased: 500,
            pending_purchase: Decimal::zero(),
            spent: 50,
            operator: Some("op".to_string()),
        }
    );
    assert_eq!(
        query_average_price(&s),
        AveragePriceResponse { average_price: dec(0, 100_000_000_000_000_000) }
    );
    assert_eq!(
        query_average_price(&Stream::new(1, 100, 200, 1000, None).unwrap()),
        AveragePriceResponse { average_price: Decimal::zero() }
    );
    assert_eq!(
        query_last_streamed_price(&s),
        LatestStreamedPriceResponse { current_streamed_price: dec(0, 100_000_000_000_000_000) }
    );
    assert_eq!(query_threshold(&s), Some(500));
    assert_eq!(
        query_params(&params()),
        ConfigResponse {
            min_stream_blocks: 20,
            min_blocks_until_start_block: 20,
            accepted_in_denom: "in_denom".to_string(),
            stream_creation_denom: "fee_token".to_string(),
            stream_creation_fee: 100,
            exit_fee_percent: dec(0, 10_000_000_000_000_000),
            fee_collector: "collector".to_string(),
            protocol_admin: "admin".to_string(),
        }
    );
}

#[test]
fn timed_queries_report_the_stage() {
    let s = Stream::new(1, 100, 200, 1000, None).unwrap();
    let (s, p) = s.subscribe(&Position::new(s.dist_index, s.last_updated), 2000, 100).unwrap();
    let (s, p) = s.update_position(&p, 125).unwrap();
    let account = Account { owner: "a".to_string(), operator: None, position: p };
    assert_eq!(s.stage_at(0), Decimal::zero());
    assert_eq!(s.stage_at(133), dec(0, 330_000_000_000_000_000));
    assert_eq!(s.stage_at(1000), Decimal::one());
    assert_eq!(
        query::stream_response(&s, &info()),
        msg::StreamResponse {
            id: 1,
            treasury: "treasury".to_string(),
            dist_index: dec(0, 125_000_000_000_000_000),
            shares: 2000,
            current_stage: dec(0, 250_000_000_000_000_000),
            token_out_denom: "out_denom".to_string(),
            token_out_supply: 1000,
            total_out_sold: 250,
            token_in_denom: "in_denom".to_string(),
            total_in_supply: 2000,
            total_in_spent: 500,
            start_time: 100,
            end_time: 200,
        }
    );
    assert_eq!(
        query::position_response(&s, &account),
        msg::PositionResponse {
            stream_id: 1,
            owner: "a".to_string(),
            in_balance: 1500,
            shares: 2000,
            index: dec(0, 125_000_000_000_000_000),
            current_stage: dec(0, 250_000_000_000_000_000),
            purchased: 250,
            spent: 500,
        }
    );
    assert_eq!(query::average_price(&s), msg::AveragePriceResponse { average_price: 2 });
    assert_eq!(
        query::last_streamed_price(&s),
        msg::LatestStreamedPriceResponse { current_streamed_price: 2 }
    );
    assert_eq!(
        query::average_price(&Stream::new(1, 100, 200, 1000, None).unwrap()),
        msg::AveragePriceResponse { average_price: 0 }
    );
}

#[test]
fn messages_are_plain_values() {
    let q = QueryMsg::ListPositions { stream_id: 1, start_after: Some("a".to_string()), limit: Some(10) };
    assert_eq!(q.clone(), q);
    assert_ne!(q, QueryMsg::Params {});
    assert_eq!(MigrateMsg {}, MigrateMsg {});
    let q = msg::QueryMsg::ListStreams { start_after: None, limit: Some(3) };
    assert_eq!(q.clone(), q);
    assert_ne!(q, msg::QueryMsg::Stream { stream_id: 1 });
    assert_eq!(msg::MigrateMsg {}, msg::MigrateMsg {});
    let e = msg::ExecuteMsg::Withdraw { stream_id: 1, cap: Some(5), recipient: None };
    assert_eq!(e.clone(), e);
    let i = msg::InstantiateMsg {
        min_stream_duration: 1,
        min_duration_until_start_time: 2,
        stream_creation_denom: "fee".to_string(),
        stream_creation_fee: 3,
        fee_collector: "c".to_string(),
    };
    assert_eq!(i.clone(), i);
    let s = msg::SudoMsg::UpdateConfig {
        min_stream_duration: None,
        min_duration_until_start_time: None,
        stream_creation_denom: None,
        stream_creation_fee: Some(1),
        fee_collector: None,
    };
    assert_eq!(s.clone(), s);
}

/// A pool with five buyers who each deposited at the start.
fn crowd() -> Pool {
    let mut pool = pool();
    for owner in ["a", "b", "c", "d", "e"] {
        let owner = owner.to_string();
        pool.subscribe(&owner, &owner, None, 10, 100).unwrap();
    }
    pool
}

fn owners(r: &PositionsResponse) -> Vec<&str> {
    r.positions.iter().map(|p| p.owner.as_str()).collect()
}

#[test]
fn pages_are_capped() {
    assert_eq!(DEFAULT_LIMIT, 10);
    assert_eq!(MAX_LIMIT, 30);
    assert_eq!(page_length(None), 10);
    assert_eq!(page_length(Some(0)), 0);
    assert_eq!(page_length(Some(7)), 7);
    assert_eq!(page_length(Some(30)), 30);
    assert_eq!(page_length(Some(31)), 30);
    assert_eq!(page_length(Some(u32::MAX)), 30);
}

#[test]
fn positions_are_listed_in_the_order_they_joined() {
    let pool = crowd();
    assert_eq!(owners(&list_positions(&pool, &None, None)), ["a", "b", "c", "d", "e"]);
    assert_eq!(owners(&list_positions(&pool, &None, Some(2))), ["a", "b"]);
    assert_eq!(owners(&list_positions(&pool, &None, Some(0))), Vec::<&str>::new());
    assert_eq!(owners(&list_positions(&pool, &Some("b".to_string()), Some(2))), ["c", "d"]);
    assert_eq!(owners(&list_positions(&pool, &Some("d".to_string()), Some(2))), ["e"]);
    assert_eq!(owners(&list_positions(&pool, &Some("e".to_string()), None)), Vec::<&str>::new());
    // An owner without an account marks no place in the list.
    assert_eq!(owners(&list_positions(&pool, &Some("x".to_string()), Some(1))), ["a"]);
    let page = list_positions(&pool, &Some("a".to_string()), Some(1));
    assert_eq!(page.positions, vec![query_position(1, &pool.accounts[1])]);
}

#[test]
fn the_stream_is_listed_behind_smaller_identifiers() {
    let pool = crowd();
    let shown = StreamsResponse { streams: vec![query_stream(&pool.stream, &info())] };
    let hidden = StreamsResponse { streams: vec![] };
    assert_eq!(list_streams(&pool.stream, &info(), None, None), shown);
    assert_eq!(list_streams(&pool.stream, &info(), Some(0), Some(1)), shown);
    assert_eq!(list_streams(&pool.stream, &info(), Some(1), None), hidden);
    assert_eq!(list_streams(&pool.stream, &info(), Some(7), None), hidden);
    assert_eq!(list_streams(&pool.stream, &info(), None, Some(0)), hidden);
}

#[test]
fn queries_reach_their_answers() {
    let pool = crowd();
    let i = info();
    let p = params();
    assert_eq!(
        answer(&pool, &i, &p, QueryMsg::Params {}),
        Ok(QueryResponse::Params(query_params(&p)))
    );
    assert_eq!(
        answer(&pool, &i, &p, QueryMsg::Stream { stream_id: 1 }),
        Ok(QueryResponse::Stream(query_stream(&pool.stream, &i)))
    );
    assert_eq!(
        answer(&pool, &i, &p, QueryMsg::ListStreams { start_after: None, limit: None }),
        Ok(QueryResponse::Streams(list_streams(&pool.stream, &i, None, None)))
    );
    assert_eq!(
        answer(&pool, &i, &p, QueryMsg::Position { stream_id: 1, owner: "c".to_string() }),
        Ok(QueryResponse::Position(query_position(1, &pool.accounts[2])))
    );
    assert_eq!(
        answer(
            &pool,
            &i,
            &p,
            QueryMsg::ListPositions { stream_id: 1, start_after: Some("c".to_string()), limit: Some(1) }
        ),
        Ok(QueryResponse::Positions(list_positions(&pool, &Some("c".to_string()), Some(1))))
    );
    assert_eq!(
        answer(&pool, &i, &p, QueryMsg::AveragePrice { stream_id: 1 }),
        Ok(QueryResponse::AveragePrice(query_average_price(&pool.stream)))
    );
    assert_eq!(
        answer(&pool, &i, &p, QueryMsg::LastStreamedPrice { stream_id: 1 }),
        Ok(QueryResponse::LastStreamedPrice(query_last_streamed_price(&pool.stream)))
    );
    assert_eq!(
        answer(&pool, &i, &p, QueryMsg::Threshold { stream_id: 1 }),
        Ok(QueryResponse::Threshold(Some(500)))
    );
}

#[test]
fn queries_for_what_is_not_there_fail() {
    let pool = crowd();
    let i = info();
    let p = params();
    for msg in [
        QueryMsg::Stream { stream_id: 2 },
        QueryMsg::Position { stream_id: 2, owner: "a".to_string() },
        QueryMsg::ListPositions { stream_id: 2, start_after: None, limit: None },
        QueryMsg::AveragePrice { stream_id: 2 },
        QueryMsg::LastStreamedPrice { stream_id: 2 },
        QueryMsg::Threshold { stream_id: 2 },
    ] {
        assert_eq!(answer(&pool, &i, &p, msg), Err(ContractError::StreamNotFound));
    }
    assert_eq!(
        answer(&pool, &i, &p, QueryMsg::Position { stream_id: 1, owner: "x".to_string() }),
        Err(ContractError::PositionNotFound)
    );
}

#[test]
fn a_cancelled_stream_pays_buyers_their_input_and_the_creator_all_output() {
    let p = params();
    let mut pool = pool();
    let subscribe = || ExecuteMsg::Subscribe { stream_id: 1, operator_target: None, operator: None };
    execute(&mut pool, &p, &call("a", 100, 100), subscribe()).unwrap();
    execute(&mut pool, &p, &call("a", 150, 100), subscribe()).unwrap();
    assert_eq!(pool.accounts[0].position.purchased, 500);
    assert_eq!(query_threshold(&pool.stream), Some(500));

    let cancel = || ExecuteMsg::CancelStreamWithThreshold { stream_id: 1 };
    let before = pool.clone();
    assert_eq!(
        execute(&mut pool, &p, &call("anyone", 199, 0), cancel()),
        Err(ContractError::StreamNotEnded)
    );
    assert_eq!(pool, before);
    assert_eq!(
        execute(&mut pool, &p, &call("anyone", 200, 0), cancel()),
        Ok(Response::Cancelled(CancelPayout { returned: 1000 }))
    );
    assert_eq!(pool.stream.status, Status::Cancelled);
    assert_eq!(query_position(1, &pool.accounts[0]).purchased, 0);
    assert_eq!(query_position(1, &pool.accounts[0]).pending_purchase, Decimal::zero());

    let exit = || ExecuteMsg::ExitCancelled { stream_id: 1, operator_target: None };
    assert_eq!(
        execute(&mut pool, &p, &call("a", 200, 0), exit()),
        Ok(Response::Exited(ExitPayout { purchased: 0, refunded: 200 }))
    );
    assert_eq!(
        execute(&mut pool, &p, &call("a", 200, 0), exit()),
        Ok(Response::Exited(ExitPayout { purchased: 0, refunded: 0 }))
    );
    // Nothing else is taken on a cancelled stream.
    let before = pool.clone();
    for msg in [
        subscribe(),
        ExecuteMsg::UpdateStream { stream_id: 1 },
        ExecuteMsg::UpdatePosition { stream_id: 1, operator_target: None },
        ExecuteMsg::ExitStream { stream_id: 1, operator_target: None },
        ExecuteMsg::FinalizeStream { stream_id: 1, new_treasury: None },
        cancel(),
    ] {
        let answer = execute(&mut pool, &p, &call("a", 300, 5), msg.clone());
        match msg {
            ExecuteMsg::UpdateStream { .. } => assert!(answer.is_ok()),
            _ => assert_eq!(answer, Err(ContractError::StreamIsCancelled)),
        }
        assert_eq!(pool, before);
    }
}

#[test]
fn governance_cancels_with_the_same_payout() {
    let p = params();
    let mut pool = pool();
    let subscribe = || ExecuteMsg::Subscribe { stream_id: 1, operator_target: None, operator: None };
    execute(&mut pool, &p, &call("a", 100, 100), subscribe()).unwrap();
    execute(&mut pool, &p, &call("a", 150, 100), subscribe()).unwrap();
    let mut by_admin = pool.clone();
    assert_eq!(
        sudo(&mut pool, &p, 160, SudoMsg::CancelStream { stream_id: 1 }),
        Ok(Response::Cancelled(CancelPayout { returned: 1000 }))
    );
    assert_eq!(
        execute(&mut by_admin, &p, &call("admin", 160, 0), ExecuteMsg::CancelStream { stream_id: 1 }),
        Ok(Response::Cancelled(CancelPayout { returned: 1000 }))
    );
    assert_eq!(pool, by_admin);
    assert_eq!(pool.accounts[0].position.purchased, 0);
    assert_eq!(pool.accounts[0].position.in_balance + pool.accounts[0].position.spent, 200);
}
