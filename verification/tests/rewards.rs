use cosmwasm_std::to_json_binary;
use cw20::Cw20ExecuteMsg;
use nft_staking::{
    execute, execute_distribute_reward, execute_get_reward, execute_stake_nft,
    execute_unstake_nft, instantiate, native_amount, query_token, query_token_info,
    reward_instructions, Coin, Contract, ContractError, Cw721ReceiveMsg, Env, ExecuteMsg,
    InstantiateMsg, Instruction, MessageInfo, State, Status, TokenInfo,
};

const START: u64 = 1_000_000;

fn env(time: u64) -> Env {
    Env { time, contract_address: "staking".to_string() }
}

fn info(sender: &str) -> MessageInfo {
    MessageInfo { sender: sender.to_string(), funds: vec![] }
}

fn info_with(sender: &str, funds: &[(&str, u128)]) -> MessageInfo {
    MessageInfo {
        sender: sender.to_string(),
        funds: funds
            .iter()
            .map(|(denom, amount)| Coin { denom: denom.to_string(), amount: *amount })
            .collect(),
    }
}

fn deposit(owner: &str, token_id: &str) -> Cw721ReceiveMsg {
    Cw721ReceiveMsg { sender: owner.to_string(), token_id: token_id.to_string(), msg: vec![] }
}

fn started(staking_period: u64, distribute_period: u64) -> Contract {
    let msg = InstantiateMsg {
        denom: "ujuno".to_string(),
        staking_period,
        reward_wallet: "wallet".to_string(),
        distribute_period,
    };
    let (mut contract, _) = instantiate(env(START), info("creator"), msg);
    contract.config.nft_address = "nft".to_string();
    contract.config.token_address = "token".to_string();
    contract
}

fn config(total_staked: u128) -> State {
    State {
        owner: "creator".to_string(),
        denom: "ujuno".to_string(),
        staking_period: 1000,
        reward_wallet: "wallet".to_string(),
        total_staked,
        nft_address: "nft".to_string(),
        token_address: "token".to_string(),
        can_stake: true,
        last_distribute: START,
        distribute_period: 100,
    }
}

fn staked(owner: &str, token_id: &str, juno: u128, hope: u128) -> TokenInfo {
    TokenInfo {
        owner: owner.to_string(),
        token_id: token_id.to_string(),
        status: Status::Staked,
        unstake_time: 0,
        stake_time: START,
        reward_juno: juno,
        reward_hope: hope,
    }
}

fn unstaking(owner: &str, token_id: &str, since: u64, juno: u128, hope: u128) -> TokenInfo {
    TokenInfo { status: Status::Unstaking, unstake_time: since, ..staked(owner, token_id, juno, hope) }
}

fn token_transfer(recipient: &str, amount: u128) -> Instruction {
    Instruction::Execute {
        contract_addr: "token".to_string(),
        msg: to_json_binary(&Cw20ExecuteMsg::Transfer {
            recipient: recipient.to_string(),
            amount: amount.into(),
        })
        .unwrap()
        .0,
    }
}

fn token_transfer_from(owner: &str, recipient: &str, amount: u128) -> Instruction {
    Instruction::Execute {
        contract_addr: "token".to_string(),
        msg: to_json_binary(&Cw20ExecuteMsg::TransferFrom {
            owner: owner.to_string(),
            recipient: recipient.to_string(),
            amount: amount.into(),
        })
        .unwrap()
        .0,
    }
}

fn native_send(to: &str, amount: u128) -> Instruction {
    Instruction::Send { to_address: to.to_string(), denom: "ujuno".to_string(), amount }
}

fn rewards_of(contract: &Contract, token_id: &str) -> (u128, u128) {
    let record = query_token(contract, &token_id.to_string()).unwrap();
    (record.reward_juno, record.reward_hope)
}

#[test]
fn distribution_counts_an_unstaking_token_until_its_time_is_over() {
    let mut contract = started(1000, 0);
    execute_stake_nft(&mut contract, env(START), info("nft"), deposit("alice", "t1")).unwrap();
    execute_stake_nft(&mut contract, env(START), info("nft"), deposit("bob", "t2")).unwrap();
    execute_unstake_nft(&mut contract, env(START + 10), info("alice"), "t1".to_string()).unwrap();

    // 999 seconds after the request: two eligible records.
    let res = execute_distribute_reward(&mut contract, env(START + 1009), info("wallet"), 1000)
        .unwrap();
    assert_eq!(res.messages, vec![token_transfer_from("wallet", "staking", 1000)]);
    assert_eq!(rewards_of(&contract, "t1"), (0, 500));
    assert_eq!(rewards_of(&contract, "t2"), (0, 500));

    // 1000 seconds after the request: the unstaking token is out.
    execute_distribute_reward(&mut contract, env(START + 1010), info("wallet"), 1000).unwrap();
    assert_eq!(rewards_of(&contract, "t1"), (0, 500));
    assert_eq!(rewards_of(&contract, "t2"), (0, 1500));
}

#[test]
fn distribution_rounds_each_share_down_and_drops_the_rest() {
    let mut contract = Contract::from_parts(
        config(3),
        vec![staked("alice", "t1", 5, 7), staked("bob", "t2", 0, 0), staked("bob", "t3", 1, 0)],
    )
    .unwrap();
    let res = execute_distribute_reward(
        &mut contract,
        env(START + 100),
        info_with("wallet", &[("ujuno", 10)]),
        1000,
    )
    .unwrap();
    assert_eq!(res.messages, vec![token_transfer_from("wallet", "staking", 1000)]);
    // 1000 / 3 = 333 and 10 / 3 = 3; one unit of each pool goes to nobody.
    assert_eq!(rewards_of(&contract, "t1"), (5 + 3, 7 + 333));
    assert_eq!(rewards_of(&contract, "t2"), (3, 333));
    assert_eq!(rewards_of(&contract, "t3"), (1 + 3, 333));
    let allotted: u128 =
        query_token_info(&contract).iter().map(|r| r.reward_hope).sum::<u128>() - 7;
    assert_eq!(allotted, 999);
    assert_eq!(1000 - allotted, 1000 % 3);
}

#[test]
fn distribution_of_a_pool_smaller_than_the_number_of_records_gives_nothing() {
    let mut contract = Contract::from_parts(
        config(3),
        vec![staked("alice", "t1", 0, 0), staked("bob", "t2", 0, 0), staked("bob", "t3", 0, 0)],
    )
    .unwrap();
    execute_distribute_reward(
        &mut contract,
        env(START + 100),
        info_with("wallet", &[("ujuno", 2)]),
        2,
    )
    .unwrap();
    for id in ["t1", "t2", "t3"] {
        assert_eq!(rewards_of(&contract, id), (0, 0));
    }
    assert_eq!(contract.config.last_distribute, START + 100);
}

#[test]
fn distribution_is_for_the_reward_wallet_only() {
    let mut contract = Contract::from_parts(config(1), vec![staked("alice", "t1", 0, 0)]).unwrap();
    let before = contract.clone();
    for sender in ["creator", "alice", "nft", ""] {
        let err = execute_distribute_reward(&mut contract, env(START + 100), info(sender), 10)
            .unwrap_err();
        assert!(matches!(err, ContractError::Unauthorized {}));
        assert_eq!(contract, before);
    }
}

#[test]
fn distribution_waits_for_the_interval() {
    let mut contract = Contract::from_parts(config(1), vec![staked("alice", "t1", 0, 0)]).unwrap();
    let before = contract.clone();
    for now in [START, START + 99, START - 1] {
        let err =
            execute_distribute_reward(&mut contract, env(now), info("wallet"), 10).unwrap_err();
        assert!(matches!(err, ContractError::CanNotDistribute {}));
        assert_eq!(contract, before);
    }
    execute_distribute_reward(&mut contract, env(START + 100), info("wallet"), 10).unwrap();
    assert_eq!(contract.config.last_distribute, START + 100);
    assert_eq!(rewards_of(&contract, "t1"), (0, 10));

    let err = execute_distribute_reward(&mut contract, env(START + 199), info("wallet"), 10)
        .unwrap_err();
    assert!(matches!(err, ContractError::CanNotDistribute {}));
    execute_distribute_reward(&mut contract, env(START + 200), info("wallet"), 10).unwrap();
    assert_eq!(rewards_of(&contract, "t1"), (0, 20));
}

#[test]
fn distribution_over_an_empty_ledger_is_refused() {
    let mut contract = started(1000, 0);
    let before = contract.clone();
    let err = execute_distribute_reward(&mut contract, env(START), info("wallet"), 10).unwrap_err();
    assert!(matches!(err, ContractError::NotStaked {}));
    assert_eq!(contract, before);
}

#[test]
fn distribution_among_overdue_records_only_is_refused() {
    let mut contract = Contract::from_parts(
        config(2),
        vec![unstaking("alice", "t1", START, 1, 2), unstaking("bob", "t2", START + 100, 3, 4)],
    )
    .unwrap();
    let before = contract.clone();
    let err = execute_distribute_reward(
        &mut contract,
        env(START + 1100),
        info_with("wallet", &[("ujuno", 50)]),
        1000,
    )
    .unwrap_err();
    assert!(matches!(err, ContractError::NotStaked {}));
    assert_eq!(contract, before);

    // One second earlier the second record is still waiting, and gets all.
    execute_distribute_reward(
        &mut contract,
        env(START + 1099),
        info_with("wallet", &[("ujuno", 50)]),
        1000,
    )
    .unwrap();
    assert_eq!(rewards_of(&contract, "t1"), (1, 2));
    assert_eq!(rewards_of(&contract, "t2"), (53, 1004));
}

#[test]
fn distribution_sums_the_funds_of_the_configured_asset() {
    let mut contract = Contract::from_parts(
        config(2),
        vec![staked("alice", "t1", 0, 0), staked("bob", "t2", 0, 0)],
    )
    .unwrap();
    execute_distribute_reward(
        &mut contract,
        env(START + 100),
        info_with("wallet", &[("ujuno", 10), ("uatom", 1000), ("ujuno", 31)]),
        0,
    )
    .unwrap();
    assert_eq!(rewards_of(&contract, "t1"), (20, 0));
    assert_eq!(rewards_of(&contract, "t2"), (20, 0));
}

#[test]
fn distribution_through_the_dispatcher() {
    let mut contract = Contract::from_parts(config(1), vec![staked("alice", "t1", 0, 0)]).unwrap();
    let res = execute(
        &mut contract,
        env(START + 100),
        info_with("wallet", &[("ujuno", 4)]),
        ExecuteMsg::DistributeReward { token_balance: 9 },
        Ok(()),
    )
    .unwrap();
    assert_eq!(res.messages, vec![token_transfer_from("wallet", "staking", 9)]);
    assert_eq!(rewards_of(&contract, "t1"), (4, 9));
}

#[test]
fn native_amount_adds_up_one_asset() {
    let funds = info_with("x", &[("ujuno", 10), ("uatom", 5), ("ujuno", 20)]).funds;
    assert_eq!(native_amount(&funds, &"ujuno".to_string()), Some(30));
    assert_eq!(native_amount(&funds, &"uatom".to_string()), Some(5));
    assert_eq!(native_amount(&funds, &"uosmo".to_string()), Some(0));
    assert_eq!(native_amount(&vec![], &"ujuno".to_string()), Some(0));
    let funds = info_with("x", &[("ujuno", u128::MAX), ("uatom", 5), ("ujuno", 1)]).funds;
    assert_eq!(native_amount(&funds, &"ujuno".to_string()), None);
    let funds = info_with("x", &[("ujuno", u128::MAX - 1), ("ujuno", 1)]).funds;
    assert_eq!(native_amount(&funds, &"ujuno".to_string()), Some(u128::MAX));
}

#[test]
fn distribution_fits_tells_when_a_reward_would_overflow() {
    let contract = Contract::from_parts(
        config(2),
        vec![staked("alice", "t1", 0, u128::MAX - 4), unstaking("bob", "t2", START, u128::MAX, 9)],
    )
    .unwrap();
    let now = env(START + 100);
    // Two eligible records: shares of 4 and 5.
    assert!(contract.distribution_fits(&now, &info("wallet"), 9));
    assert!(!contract.distribution_fits(&now, &info("wallet"), 10));
    assert!(!contract.distribution_fits(&now, &info_with("wallet", &[("ujuno", 2)]), 0));
    assert!(contract.distribution_fits(&now, &info_with("wallet", &[("ujuno", 1)]), 0));
    // Once the second record is overdue, its full reward is no obstacle.
    let later = env(START + 1000);
    assert!(contract.distribution_fits(&later, &info_with("wallet", &[("ujuno", 2)]), 4));
    assert!(!contract.distribution_fits(&later, &info_with("wallet", &[("ujuno", 2)]), 5));
    // Funds that add up to more than a u128 holds do not fit.
    let too_much = info_with("wallet", &[("ujuno", u128::MAX), ("ujuno", 1)]);
    assert!(!contract.distribution_fits(&now, &too_much, 0));
    // A distribution that is refused anyhow fits.
    assert!(contract.distribution_fits(&now, &info_with("alice", &[("ujuno", u128::MAX)]), 10));
    assert!(contract.distribution_fits(&env(START), &info("wallet"), u128::MAX));
}

#[test]
fn claim_pays_both_rewards_and_resets_them() {
    let mut contract = Contract::from_parts(
        config(3),
        vec![staked("alice", "t1", 5, 7), staked("bob", "t2", 11, 13), staked("alice", "t3", 0, 9)],
    )
    .unwrap();
    let res = execute_get_reward(
        &mut contract,
        env(START),
        info("alice"),
        vec!["t3".to_string(), "t1".to_string()],
    )
    .unwrap();
    assert_eq!(
        res.messages,
        vec![token_transfer("alice", 9), token_transfer("alice", 7), native_send("alice", 5)]
    );
    assert_eq!(rewards_of(&contract, "t1"), (0, 0));
    assert_eq!(rewards_of(&contract, "t3"), (0, 0));
    assert_eq!(rewards_of(&contract, "t2"), (11, 13));
    assert_eq!(contract.config, config(3));
    assert_eq!(query_token(&contract, &"t1".to_string()), Some(staked("alice", "t1", 0, 0)));
}

#[test]
fn claim_of_nothing_sends_nothing() {
    let mut contract = Contract::from_parts(
        config(2),
        vec![staked("alice", "t1", 0, 0), unstaking("alice", "t2", START, 0, 0)],
    )
    .unwrap();
    let before = contract.clone();
    let res = execute_get_reward(
        &mut contract,
        env(START),
        info("alice"),
        vec!["t1".to_string(), "t2".to_string()],
    )
    .unwrap();
    assert!(res.messages.is_empty());
    assert_eq!(contract, before);
    let res = execute_get_reward(&mut contract, env(START), info("nobody"), vec![]).unwrap();
    assert!(res.messages.is_empty());
    assert_eq!(contract, before);
}

#[test]
fn claim_of_the_same_token_twice_pays_once() {
    let mut contract = Contract::from_parts(config(1), vec![staked("alice", "t1", 5, 7)]).unwrap();
    let res = execute_get_reward(
        &mut contract,
        env(START),
        info("alice"),
        vec!["t1".to_string(), "t1".to_string()],
    )
    .unwrap();
    assert_eq!(res.messages, vec![token_transfer("alice", 7), native_send("alice", 5)]);
    assert_eq!(rewards_of(&contract, "t1"), (0, 0));
}

#[test]
fn claim_with_one_unknown_token_pays_nothing() {
    let mut contract = Contract::from_parts(
        config(2),
        vec![staked("alice", "t1", 5, 7), staked("alice", "t2", 11, 13)],
    )
    .unwrap();
    let before = contract.clone();
    for ids in [vec!["t1", "t2", "t9"], vec!["t1", "t9", "t2"], vec!["t9", "t1", "t2"]] {
        let ids = ids.into_iter().map(String::from).collect();
        let err = execute_get_reward(&mut contract, env(START), info("alice"), ids).unwrap_err();
        assert!(matches!(err, ContractError::NotStaked {}));
        assert_eq!(contract, before);
        assert_eq!(rewards_of(&contract, "t1"), (5, 7));
        assert_eq!(rewards_of(&contract, "t2"), (11, 13));
    }
}

#[test]
fn claim_with_one_token_of_another_owner_pays_nothing() {
    let mut contract = Contract::from_parts(
        config(2),
        vec![staked("alice", "t1", 5, 7), staked("bob", "t2", 11, 13)],
    )
    .unwrap();
    let before = contract.clone();
    let err = execute(
        &mut contract,
        env(START),
        info("alice"),
        ExecuteMsg::GetReward { token_ids: vec!["t1".to_string(), "t2".to_string()] },
        Ok(()),
    )
    .unwrap_err();
    assert!(matches!(err, ContractError::Unauthorized {}));
    assert_eq!(contract, before);
    // The first token that may not be claimed decides on the error.
    let err = execute_get_reward(
        &mut contract,
        env(START),
        info("alice"),
        vec!["t2".to_string(), "t9".to_string()],
    )
    .unwrap_err();
    assert!(matches!(err, ContractError::Unauthorized {}));
    let err = execute_get_reward(
        &mut contract,
        env(START),
        info("alice"),
        vec!["t9".to_string(), "t2".to_string()],
    )
    .unwrap_err();
    assert!(matches!(err, ContractError::NotStaked {}));
    assert_eq!(contract, before);
}

#[test]
fn reward_instructions_follow_the_rewards() {
    let state = config(1);
    let body = vec![1u8, 2, 3];
    assert_eq!(reward_instructions(&state, &staked("alice", "t1", 0, 0), None), vec![]);
    assert_eq!(
        reward_instructions(&state, &staked("alice", "t1", 0, 0), Some(body.clone())),
        vec![]
    );
    assert_eq!(
        reward_instructions(&state, &staked("alice", "t1", 4, 0), None),
        vec![native_send("alice", 4)]
    );
    assert_eq!(
        reward_instructions(&state, &staked("alice", "t1", 0, 4), Some(body.clone())),
        vec![Instruction::Execute { contract_addr: "token".to_string(), msg: body.clone() }]
    );
    assert_eq!(
        reward_instructions(&state, &staked("alice", "t1", 6, 4), Some(body.clone())),
        vec![
            Instruction::Execute { contract_addr: "token".to_string(), msg: body },
            native_send("alice", 6)
        ]
    );
}
