use nft_staking::admin::sweep_response;
use nft_staking::order::id_less;
use nft_staking::{
    is_collectible_contract, is_owner, is_record_owner, is_reward_wallet, Contract, ContractError,
    Instruction, Ledger, Response, State, Status, TokenInfo,
};

const START: u64 = 1_000_000;

fn config(total_staked: u128) -> State {
    State {
        owner: "creator".to_string(),
        denom: "ujuno".to_string(),
        staking_period: 1000,
        reward_wallet: "wallet".to_string(),
        total_staked,
        nft_address: "nft".to_string(),
        token_address: "token".to_string(),
        can_stake: true,
        last_distribute: START,
        distribute_period: 100,
    }
}

fn staked(owner: &str, token_id: &str, juno: u128, hope: u128) -> TokenInfo {
    TokenInfo {
        owner: owner.to_string(),
        token_id: token_id.to_string(),
        status: Status::Staked,
        unstake_time: 0,
        stake_time: START,
        reward_juno: juno,
        reward_hope: hope,
    }
}

fn unstaking(owner: &str, token_id: &str, since: u64, juno: u128, hope: u128) -> TokenInfo {
    TokenInfo { status: Status::Unstaking, unstake_time: since, ..staked(owner, token_id, juno, hope) }
}

fn contract() -> Contract {
    Contract::from_parts(
        config(3),
        vec![
            staked("alice", "a", 1, 2),
            unstaking("bob", "b", START + 10, 3, 0),
            unstaking("bob", "c", START + 500, 0, 0),
        ],
    )
    .unwrap()
}

fn execute_on(contract_addr: &str, msg: &[u8]) -> Instruction {
    Instruction::Execute { contract_addr: contract_addr.to_string(), msg: msg.to_vec() }
}

fn send(to: &str, amount: u128) -> Instruction {
    Instruction::Send { to_address: to.to_string(), denom: "ujuno".to_string(), amount }
}

#[test]
fn identifiers_are_ordered_by_their_bytes() {
    assert!(id_less("", "a"));
    assert!(!id_less("", ""));
    assert!(!id_less("a", ""));
    assert!(id_less("a", "b"));
    assert!(!id_less("b", "a"));
    assert!(!id_less("a", "a"));
    assert!(id_less("a", "aa"));
    assert!(!id_less("aa", "a"));
    assert!(id_less("Z", "a"));
    assert!(id_less("10", "9"));
    assert!(id_less("reveal1", "reveal2"));
    assert!(id_less("z", "é"));
    assert!(id_less("é", "日本"));
    assert!(!id_less("日本", "é"));
    for (a, b) in [("a", "b"), ("", "x"), ("x", "xy"), ("é", "ê"), ("A", "a")] {
        assert_eq!(id_less(a, b), a.as_bytes() < b.as_bytes());
        assert_eq!(id_less(b, a), b.as_bytes() < a.as_bytes());
    }
}

#[test]
fn the_ledger_keeps_its_order_through_changes() {
    let mut ledger = Ledger::new();
    assert_eq!(ledger.len(), 0);
    for id in ["m", "c", "x", "a"] {
        assert_eq!(ledger.find(&id.to_string()), None);
        ledger.insert(staked("alice", id, 0, 0));
    }
    assert_eq!(ledger.len(), 4);
    for (index, id) in ["a", "c", "m", "x"].iter().enumerate() {
        assert_eq!(ledger.get(index).token_id, *id);
        assert_eq!(ledger.find(&id.to_string()), Some(index));
    }
    ledger.mark_unstaking(2, START + 1);
    assert_eq!(ledger.get(2), &unstaking("alice", "m", START + 1, 0, 0));
    let removed = ledger.remove(1);
    assert_eq!(removed, staked("alice", "c", 0, 0));
    assert_eq!(ledger.find(&"m".to_string()), Some(1));
    assert_eq!(ledger.find(&"c".to_string()), None);
    assert_eq!(ledger.clone(), ledger);
}

#[test]
fn the_ledger_credits_and_clears_rewards() {
    let mut ledger = Ledger::from_records(vec![
        staked("alice", "a", 1, 2),
        unstaking("bob", "b", START, 3, 4),
        unstaking("bob", "c", START + 1, 5, 6),
    ])
    .unwrap();
    assert_eq!(ledger.count_overdue(START + 1000, 1000), 1);
    assert_eq!(ledger.count_overdue(START + 1001, 1000), 2);
    assert_eq!(ledger.count_overdue(START + 999, 1000), 0);
    assert!(ledger.shares_fit(START + 1000, 1000, u128::MAX - 5, u128::MAX - 6));
    assert!(!ledger.shares_fit(START + 1000, 1000, u128::MAX - 4, 0));
    assert!(!ledger.shares_fit(START + 1000, 1000, 0, u128::MAX - 5));
    ledger.credit_all(START + 1000, 1000, 10, 20);
    assert_eq!(ledger.get(0), &staked("alice", "a", 11, 22));
    assert_eq!(ledger.get(1), &unstaking("bob", "b", START, 3, 4));
    assert_eq!(ledger.get(2), &unstaking("bob", "c", START + 1, 15, 26));
    ledger.clear_rewards(2);
    assert_eq!(ledger.get(2), &unstaking("bob", "c", START + 1, 0, 0));
    assert_eq!(ledger.get(0), &staked("alice", "a", 11, 22));
}

#[test]
fn checks_find_the_record_or_say_why_not() {
    let c = contract();
    let (alice, bob) = ("alice".to_string(), "bob".to_string());
    let (a, b, z) = ("a".to_string(), "b".to_string(), "z".to_string());

    assert_eq!(c.claim_check(&alice, &a).unwrap(), 0);
    assert_eq!(c.claim_check(&bob, &b).unwrap(), 1);
    assert!(matches!(c.claim_check(&bob, &a), Err(ContractError::Unauthorized {})));
    assert!(matches!(c.claim_check(&bob, &z), Err(ContractError::NotStaked {})));

    assert_eq!(c.withdraw_check(START + 1010, &bob, &b).unwrap(), 1);
    assert!(matches!(
        c.withdraw_check(START + 1009, &bob, &b),
        Err(ContractError::TimeRemaining {})
    ));
    assert!(matches!(
        c.withdraw_check(START + 5000, &alice, &a),
        Err(ContractError::StatusError {})
    ));
    assert!(matches!(
        c.withdraw_check(START + 5000, &alice, &b),
        Err(ContractError::Unauthorized {})
    ));
    assert!(matches!(c.withdraw_check(START + 5000, &bob, &z), Err(ContractError::NotStaked {})));

    let wallet = "wallet".to_string();
    assert_eq!(c.distribution_check(START + 100, &wallet).unwrap(), 3);
    assert_eq!(c.distribution_check(START + 1010, &wallet).unwrap(), 2);
    assert_eq!(c.distribution_check(START + 1500, &wallet).unwrap(), 1);
    assert!(matches!(
        c.distribution_check(START + 99, &wallet),
        Err(ContractError::CanNotDistribute {})
    ));
    assert!(matches!(
        c.distribution_check(START + 100, &alice),
        Err(ContractError::Unauthorized {})
    ));
}

#[test]
fn a_withdrawal_is_finished_with_the_bodies_given() {
    let mut c = contract();
    let response = c.finish_withdrawal(1, vec![7, 7], None);
    assert_eq!(response.messages, vec![execute_on("nft", &[7, 7]), send("bob", 3)]);
    assert_eq!(c.config, config(2));
    assert_eq!(c.tokens.len(), 2);
    assert_eq!(c.tokens.find(&"b".to_string()), None);

    let mut c = contract();
    let response = c.finish_withdrawal(0, vec![7], Some(vec![8, 9]));
    assert_eq!(
        response.messages,
        vec![execute_on("nft", &[7]), execute_on("token", &[8, 9]), send("alice", 1)]
    );
    // A body that is not needed is not sent.
    let mut c = contract();
    let response = c.finish_withdrawal(2, vec![], Some(vec![8, 9]));
    assert_eq!(response.messages, vec![execute_on("nft", &[])]);
}

#[test]
fn a_claim_is_finished_with_the_body_given() {
    let mut c = contract();
    let mut response = Response::new();
    c.finish_claim(0, Some(vec![1]), &mut response);
    c.finish_claim(1, None, &mut response);
    c.finish_claim(2, None, &mut response);
    c.finish_claim(0, None, &mut response);
    assert_eq!(
        response.messages,
        vec![execute_on("token", &[1]), send("alice", 1), send("bob", 3)]
    );
    assert_eq!(c.config, config(3));
    assert_eq!(c.tokens.get(0), &staked("alice", "a", 0, 0));
    assert_eq!(c.tokens.get(1), &unstaking("bob", "b", START + 10, 0, 0));
}

#[test]
fn a_distribution_is_finished_with_the_body_given() {
    let mut c = contract();
    let response = c.finish_distribution(START + 1010, 2, 9, 9, vec![5]);
    assert_eq!(response.messages, vec![execute_on("token", &[5])]);
    assert_eq!(c.config, State { last_distribute: START + 1010, ..config(3) });
    assert_eq!(c.tokens.get(0), &staked("alice", "a", 5, 6));
    assert_eq!(c.tokens.get(1), &unstaking("bob", "b", START + 10, 3, 0));
    assert_eq!(c.tokens.get(2), &unstaking("bob", "c", START + 500, 4, 4));
}

#[test]
fn a_sweep_sends_the_body_given_then_the_native_amount() {
    let response = sweep_response(&config(0), "creator".to_string(), 12, vec![3, 4]);
    assert_eq!(response.messages, vec![execute_on("token", &[3, 4]), send("creator", 12)]);
    let mut empty = Response::new();
    assert!(empty.messages.is_empty());
    empty.add_message(send("x", 1));
    assert_eq!(empty.messages, vec![send("x", 1)]);
}

#[test]
fn callers_are_told_apart() {
    let state = config(0);
    for (caller, owner, wallet, nft) in [
        ("creator", true, false, false),
        ("wallet", false, true, false),
        ("nft", false, false, true),
        ("token", false, false, false),
        ("", false, false, false),
        ("creator ", false, false, false),
    ] {
        let caller = caller.to_string();
        assert_eq!(is_owner(&state, &caller), owner);
        assert_eq!(is_reward_wallet(&state, &caller), wallet);
        assert_eq!(is_collectible_contract(&state, &caller), nft);
    }
    let record = staked("alice", "a", 0, 0);
    assert!(is_record_owner(&record, &"alice".to_string()));
    assert!(!is_record_owner(&record, &"bob".to_string()));
    assert!(!is_record_owner(&record, &"a".to_string()));
}
