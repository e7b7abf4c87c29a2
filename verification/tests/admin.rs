use cosmwasm_std::{to_json_binary, StdError};
use cw20::Cw20ExecuteMsg;
use nft_staking::{
    address_to_validate, execute, execute_distribute_period, execute_nft_address,
    execute_reward_wallet, execute_set_owner, execute_set_stake, execute_staking_period,
    execute_token_address, execute_withdraw_all, Contract, ContractError, Cw721ReceiveMsg, Env,
    ExecuteMsg, Instruction, MessageInfo, State, Status, TokenInfo,
};

const START: u64 = 1_000_000;

fn env() -> Env {
    Env { time: START, contract_address: "staking".to_string() }
}

fn info(sender: &str) -> MessageInfo {
    MessageInfo { sender: sender.to_string(), funds: vec![] }
}

fn config() -> State {
    State {
        owner: "creator".to_string(),
        denom: "ujuno".to_string(),
        staking_period: 1000,
        reward_wallet: "wallet".to_string(),
        total_staked: 1,
        nft_address: "nft".to_string(),
        token_address: "token".to_string(),
        can_stake: true,
        last_distribute: START,
        distribute_period: 100,
    }
}

fn contract() -> Contract {
    Contract::from_parts(
        config(),
        vec![TokenInfo {
            owner: "alice".to_string(),
            token_id: "t1".to_string(),
            status: Status::Staked,
            unstake_time: 0,
            stake_time: START,
            reward_juno: 3,
            reward_hope: 4,
        }],
    )
    .unwrap()
}

fn fault() -> Result<(), StdError> {
    Err(StdError::generic_err("Invalid input: human address too short"))
}

fn administrative_calls() -> Vec<ExecuteMsg> {
    vec![
        ExecuteMsg::SetRewardWallet { address: "mallory".to_string() },
        ExecuteMsg::SetNftAddress { address: "mallory".to_string() },
        ExecuteMsg::SetTokenAddress { address: "mallory".to_string() },
        ExecuteMsg::SetOwner { address: "mallory".to_string() },
        ExecuteMsg::SetStakingPeriod { time: 1 },
        ExecuteMsg::SetDistributePeriod { time: 1 },
        ExecuteMsg::SetStake { flag: false },
        ExecuteMsg::WithdrawAllMoney { amount_juno: 10, amount_hope: 20 },
    ]
}

#[test]
fn setters_change_one_field_each() {
    let mut c = contract();
    let res = execute_reward_wallet(&mut c, env(), info("creator"), "w2".to_string()).unwrap();
    assert!(res.messages.is_empty());
    assert_eq!(c.config, State { reward_wallet: "w2".to_string(), ..config() });

    let mut c = contract();
    execute_nft_address(&mut c, env(), info("creator"), "n2".to_string(), Ok(())).unwrap();
    assert_eq!(c.config, State { nft_address: "n2".to_string(), ..config() });

    let mut c = contract();
    execute_token_address(&mut c, env(), info("creator"), "k2".to_string(), Ok(())).unwrap();
    assert_eq!(c.config, State { token_address: "k2".to_string(), ..config() });

    let mut c = contract();
    execute_set_owner(&mut c, env(), info("creator"), "o2".to_string(), Ok(())).unwrap();
    assert_eq!(c.config, State { owner: "o2".to_string(), ..config() });

    let mut c = contract();
    execute_staking_period(&mut c, env(), info("creator"), 77).unwrap();
    assert_eq!(c.config, State { staking_period: 77, ..config() });

    let mut c = contract();
    execute_distribute_period(&mut c, env(), info("creator"), 78).unwrap();
    assert_eq!(c.config, State { distribute_period: 78, ..config() });

    let mut c = contract();
    execute_set_stake(&mut c, info("creator"), false).unwrap();
    assert_eq!(c.config, State { can_stake: false, ..config() });
    execute_set_stake(&mut c, info("creator"), true).unwrap();
    assert_eq!(c, contract());
}

#[test]
fn administrative_calls_by_others_are_refused_and_change_nothing() {
    for sender in ["alice", "wallet", "nft", "token", "", "Creator"] {
        for msg in administrative_calls() {
            let mut c = contract();
            let err = execute(&mut c, env(), info(sender), msg.clone(), Ok(())).unwrap_err();
            assert!(matches!(err, ContractError::Unauthorized {}));
            assert_eq!(c, contract());
            // The host's verdict on the address does not come first.
            let err = execute(&mut c, env(), info(sender), msg, fault()).unwrap_err();
            assert!(matches!(err, ContractError::Unauthorized {}));
            assert_eq!(c, contract());
        }
    }
}

#[test]
fn administrative_calls_by_the_owner_are_accepted() {
    for msg in administrative_calls() {
        let mut c = contract();
        execute(&mut c, env(), info("creator"), msg, Ok(())).unwrap();
        assert_eq!(c.tokens, contract().tokens);
        assert_eq!(c.config.total_staked, 1);
    }
}

#[test]
fn a_malformed_address_is_refused_with_the_fault_of_the_host() {
    let calls = [
        ExecuteMsg::SetNftAddress { address: "x".to_string() },
        ExecuteMsg::SetTokenAddress { address: "x".to_string() },
        ExecuteMsg::SetOwner { address: "x".to_string() },
    ];
    for msg in calls {
        let mut c = contract();
        let err = execute(&mut c, env(), info("creator"), msg, fault()).unwrap_err();
        match err {
            ContractError::Std(e) => {
                assert_eq!(e, StdError::generic_err("Invalid input: human address too short"))
            }
            other => panic!("unexpected error: {other:?}"),
        }
        assert_eq!(c, contract());
    }
}

#[test]
fn the_verdict_on_an_address_is_not_read_where_none_is_stored() {
    let calls = [
        ExecuteMsg::SetRewardWallet { address: "x".to_string() },
        ExecuteMsg::SetStakingPeriod { time: 5 },
        ExecuteMsg::SetDistributePeriod { time: 5 },
        ExecuteMsg::SetStake { flag: false },
        ExecuteMsg::WithdrawAllMoney { amount_juno: 1, amount_hope: 2 },
    ];
    for msg in calls {
        let mut c = contract();
        execute(&mut c, env(), info("creator"), msg, fault()).unwrap();
    }
}

#[test]
fn the_new_owner_takes_over() {
    let mut c = contract();
    execute_set_owner(&mut c, env(), info("creator"), "heir".to_string(), Ok(())).unwrap();
    let err = execute_staking_period(&mut c, env(), info("creator"), 5).unwrap_err();
    assert!(matches!(err, ContractError::Unauthorized {}));
    execute_staking_period(&mut c, env(), info("heir"), 5).unwrap();
    assert_eq!(c.config.staking_period, 5);
}

#[test]
fn the_sweep_queues_the_token_transfer_then_the_native_one() {
    let c = contract();
    let res = execute_withdraw_all(&c, env(), info("creator"), 10, 20).unwrap();
    assert_eq!(
        res.messages,
        vec![
            Instruction::Execute {
                contract_addr: "token".to_string(),
                msg: to_json_binary(&Cw20ExecuteMsg::Transfer {
                    recipient: "creator".to_string(),
                    amount: 20u128.into(),
                })
                .unwrap()
                .0,
            },
            Instruction::Send {
                to_address: "creator".to_string(),
                denom: "ujuno".to_string(),
                amount: 10,
            },
        ]
    );
    // Amounts of zero are sent all the same.
    let res = execute_withdraw_all(&c, env(), info("creator"), 0, 0).unwrap();
    assert_eq!(res.messages.len(), 2);
    assert_eq!(c, contract());
    let err = execute_withdraw_all(&c, env(), info("alice"), 10, 20).unwrap_err();
    assert!(matches!(err, ContractError::Unauthorized {}));
}

#[test]
fn the_address_to_validate_is_the_one_that_is_stored() {
    let address = "somewhere".to_string();
    assert_eq!(
        address_to_validate(&ExecuteMsg::SetNftAddress { address: address.clone() }),
        Some(&address)
    );
    assert_eq!(
        address_to_validate(&ExecuteMsg::SetTokenAddress { address: address.clone() }),
        Some(&address)
    );
    assert_eq!(
        address_to_validate(&ExecuteMsg::SetOwner { address: address.clone() }),
        Some(&address)
    );
    let others = [
        ExecuteMsg::SetRewardWallet { address: address.clone() },
        ExecuteMsg::SetStakingPeriod { time: 1 },
        ExecuteMsg::SetDistributePeriod { time: 1 },
        ExecuteMsg::SetStake { flag: true },
        ExecuteMsg::WithdrawAllMoney { amount_juno: 1, amount_hope: 1 },
        ExecuteMsg::UnstakeNft { token_id: address.clone() },
        ExecuteMsg::WithdrawNft { token_id: address.clone() },
        ExecuteMsg::GetReward { token_ids: vec![address.clone()] },
        ExecuteMsg::DistributeReward { token_balance: 1 },
        ExecuteMsg::ReceiveNft(Cw721ReceiveMsg {
            sender: address.clone(),
            token_id: address.clone(),
            msg: vec![],
        }),
    ];
    for msg in others {
        assert_eq!(address_to_validate(&msg), None);
    }
}

#[test]
fn errors_say_what_went_wrong() {
    assert_eq!(ContractError::Unauthorized {}.message(), "Unauthorized");
    assert_eq!(ContractError::WrongNftContract {}.message(), "Wrong nft contract error");
    assert_eq!(ContractError::Notenough {}.message(), "Not enough funds");
    assert_eq!(ContractError::AlreadyStaked {}.message(), "Alreay staked");
    assert_eq!(ContractError::NotStaked {}.message(), "Not staked");
    assert_eq!(ContractError::TimeRemaining {}.message(), "Time remaining yet");
    assert_eq!(ContractError::CanNotStake {}.message(), "Can not stake");
    assert_eq!(ContractError::CanNotDistribute {}.message(), "Can not distribute");
    assert_eq!(ContractError::StatusError {}.message(), "Stkaing process");
    assert_eq!(
        ContractError::Std(StdError::generic_err("broken")).message(),
        "Generic error: broken"
    );
    assert_eq!(
        ContractError::from(StdError::not_found("State")).message(),
        "State not found"
    );
    assert!(matches!(
        ContractError::from(StdError::generic_err("broken")),
        ContractError::Std(_)
    ));
}
