//! Tests of the counter kept beside the pool and of the dispatcher.

use juno_staking::contract::{execute, instantiate, query};
use juno_staking::error::ContractError;
use juno_staking::msg::{ExecuteMsg, InstantiateMsg, QueryMsg};

fn setup() -> (juno_staking::state::State, juno_staking::state::Pool) {
    let msg = InstantiateMsg {
        count: 17,
        token_addr: String::from("token"),
        rewards_per_day: 1000,
    };
    instantiate(msg, String::from("creator"), 0)
}

#[test]
fn proper_initialization() {
    let (state, pool) = setup();
    let value = query(&state, QueryMsg::GetCount {});
    assert_eq!(17, value.count);
    assert_eq!(pool.status.rewards_per_day, 1000);
    assert_eq!(pool.status.token, String::from("token"));
    assert_eq!(pool.log.len(), 0);
}

#[test]
fn increment() {
    let (mut state, mut pool) = setup();
    let info = String::from("anyone");
    execute(&mut state, &mut pool, &info, ExecuteMsg::Increment {}, 0).unwrap();
    let value = query(&state, QueryMsg::GetCount {});
    assert_eq!(18, value.count);
}

#[test]
fn reset() {
    let (mut state, mut pool) = setup();
    let unauth_info = String::from("anyone");
    let res = execute(
        &mut state,
        &mut pool,
        &unauth_info,
        ExecuteMsg::Reset { count: 5 },
        0,
    );
    match res {
        Err(ContractError::Unauthorized) => {}
        _ => panic!("Must return unauthorized error"),
    }

    let auth_info = String::from("creator");
    execute(
        &mut state,
        &mut pool,
        &auth_info,
        ExecuteMsg::Reset { count: 5 },
        0,
    )
    .unwrap();
    let value = query(&state, QueryMsg::GetCount {});
    assert_eq!(5, value.count);
}

#[test]
fn unstake_message_is_accepted() {
    let (mut state, mut pool) = setup();
    let info = String::from("anyone");
    let res = execute(
        &mut state,
        &mut pool,
        &info,
        ExecuteMsg::Unstake { count: 3 },
        0,
    );
    assert!(res.is_ok());
    let value = query(&state, QueryMsg::GetCount {});
    assert_eq!(17, value.count);
}

#[test]
fn receive_message_routes_to_stake() {
    let (mut state, mut pool) = setup();
    let token = String::from("token");
    let res = execute(
        &mut state,
        &mut pool,
        &token,
        ExecuteMsg::Receive {
            sender: String::from("alice"),
            amount: 250,
            msg: juno_staking::msg::ReceiveMsg::Stake {},
        },
        10,
    );
    assert!(res.is_ok());
    let rec = pool.stakes.get(&String::from("alice")).unwrap();
    assert_eq!(rec.amount, 250);
}
