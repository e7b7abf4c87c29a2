//! The entry points of the program: its start, the dispatch of the calls
//! that change it, and the questions it answers.

use vstd::prelude::*;
use cosmwasm_std::StdError;
use crate::admin::{
    execute_distribute_period, execute_nft_address, execute_reward_wallet, execute_set_owner,
    execute_set_stake, execute_staking_period, execute_token_address, execute_withdraw_all,
};
use crate::error::ContractError;
use crate::ledger::Ledger;
use crate::lifecycle::{execute_stake_nft, execute_unstake_nft, execute_withdraw_nft};
use crate::model::{
    native_total, owned_by, sending, silent, token_ids, Message, Outcome, Program, ProgramConfig,
    TokenRecord,
};
use crate::msg::{
    Env, ExecuteMsg, InstantiateMsg, MessageInfo, QueryMsg, QueryResponse, Response,
};
use crate::rewards::{execute_distribute_reward, execute_get_reward};
use crate::state::{answers, Contract, State, TokenInfo};

verus! {

/// Starts the program: `info.sender` becomes the owner, nothing is staked,
/// and the time of the last distribution is the time of the start.
pub fn instantiate(env: Env, info: MessageInfo, msg: InstantiateMsg) -> (r: (Contract, Response))
    ensures
        r.0@ == Program::initial(
            env.time as nat,
            info.sender@,
            msg.denom@,
            msg.staking_period as nat,
            msg.reward_wallet@,
            msg.distribute_period as nat,
        ),
        r.0.wf(),
        r.1@ == Seq::<Message>::empty(),
{
    let state = State {
        owner: info.sender,
        denom: msg.denom,
        staking_period: msg.staking_period,
        reward_wallet: msg.reward_wallet,
        total_staked: 0,
        nft_address: "nft_address".to_string(),
        token_address: "token_address".to_string(),
        can_stake: true,
        last_distribute: env.time,
        distribute_period: msg.distribute_period,
    };
    (Contract { config: state, tokens: Ledger::new() }, Response::new())
}

/// What the call `msg` of `info.sender` at `env.time` comes to in the state
/// `program`. `address_fault` says that the host found the address that the
/// call carries malformed.
pub open spec fn execution(
    program: Program,
    env: Env,
    info: MessageInfo,
    msg: ExecuteMsg,
    address_fault: bool,
) -> Outcome {
    let now = env.time as nat;
    let sender = info.sender@;
    let config = program.config;
    match msg {
        ExecuteMsg::ReceiveNft(rcv_msg) => silent(
            program.stake(now, sender, rcv_msg.sender@, rcv_msg.token_id@),
        ),
        ExecuteMsg::UnstakeNft { token_id } => silent(program.unstake(now, sender, token_id@)),
        ExecuteMsg::WithdrawNft { token_id } => sending(
            program.withdraw(now, sender, token_id@),
            program.withdraw_messages(sender, token_id@),
        ),
        ExecuteMsg::GetReward { token_ids } => program.claim(
            sender,
            token_ids@.map_values(|s: String| s@),
        ),
        ExecuteMsg::DistributeReward { token_balance } => sending(
            program.distribute(
                now,
                sender,
                native_total(info.funds_view(), config.denom),
                token_balance as nat,
            ),
            program.distribute_messages(sender, env.contract_address@, token_balance),
        ),
        ExecuteMsg::SetRewardWallet { address } => silent(
            program.administer(sender, false, ProgramConfig { reward_wallet: address@, ..config }),
        ),
        ExecuteMsg::SetNftAddress { address } => silent(
            program.administer(
                sender,
                address_fault,
                ProgramConfig { nft_address: address@, ..config },
            ),
        ),
        ExecuteMsg::SetTokenAddress { address } => silent(
            program.administer(
                sender,
                address_fault,
                ProgramConfig { token_address: address@, ..config },
            ),
        ),
        ExecuteMsg::SetOwner { address } => silent(
            program.administer(sender, address_fault, ProgramConfig { owner: address@, ..config }),
        ),
        ExecuteMsg::WithdrawAllMoney { amount_juno, amount_hope } => sending(
            program.administer(sender, false, config),
            program.sweep_messages(sender, amount_juno, amount_hope),
        ),
        ExecuteMsg::SetStakingPeriod { time } => silent(
            program.administer(
                sender,
                false,
                ProgramConfig { staking_period: time as nat, ..config },
            ),
        ),
        ExecuteMsg::SetStake { flag } => silent(
            program.administer(sender, false, ProgramConfig { can_stake: flag, ..config }),
        ),
        ExecuteMsg::SetDistributePeriod { time } => silent(
            program.administer(
                sender,
                false,
                ProgramConfig { distribute_period: time as nat, ..config },
            ),
        ),
    }
}

/// The address that the call `msg` asks to store and that the host has to
/// find well formed, if the call carries one.
pub open spec fn carried_address(msg: ExecuteMsg) -> Option<String> {
    match msg {
        ExecuteMsg::SetNftAddress { address } => Some(address),
        ExecuteMsg::SetTokenAddress { address } => Some(address),
        ExecuteMsg::SetOwner { address } => Some(address),
        _ => None,
    }
}

/// The address that the host has to check before the call `msg` is
/// executed, if the call carries one.
pub fn address_to_validate(msg: &ExecuteMsg) -> (r: Option<&String>)
    ensures
        match r {
            Some(address) => carried_address(*msg) == Some(*address),
            None => carried_address(*msg) is None,
        },
{
    match msg {
        ExecuteMsg::SetNftAddress { address } => Some(address),
        ExecuteMsg::SetTokenAddress { address } => Some(address),
        ExecuteMsg::SetOwner { address } => Some(address),
        _ => None,
    }
}

/// Executes the call `msg`. `validity` is the host's verdict on the address
/// that `address_to_validate` names for the call; it is not read where the
/// call carries none. A refused call leaves the state as it was.
pub fn execute(
    contract: &mut Contract,
    env: Env,
    info: MessageInfo,
    msg: ExecuteMsg,
    validity: Result<(), StdError>,
) -> (r: Result<Response, ContractError>)
    requires
        old(contract).wf(),
        msg matches ExecuteMsg::DistributeReward { token_balance } ==> (old(
            contract,
        )@.distribution_refused(env.time as nat, info.sender@) is None ==> old(
            contract,
        )@.distribution_fits(
            env.time as nat,
            native_total(info.funds_view(), old(contract)@.config.denom),
            token_balance as nat,
        )),
    ensures
        final(contract).wf(),
        answers(
            old(contract)@,
            execution(old(contract)@, env, info, msg, validity is Err),
            final(contract)@,
            r,
        ),
        carried_address(msg) is Some ==> (r matches Err(ContractError::Std(fault)) ==> validity
            == Err::<(), StdError>(fault)),
{
    match msg {
        ExecuteMsg::ReceiveNft(rcv_msg) => execute_stake_nft(contract, env, info, rcv_msg),
        ExecuteMsg::UnstakeNft { token_id } => execute_unstake_nft(contract, env, info, token_id),
        ExecuteMsg::WithdrawNft { token_id } => execute_withdraw_nft(
            contract,
            env,
            info,
            token_id,
        ),
        ExecuteMsg::GetReward { token_ids } => execute_get_reward(contract, env, info, token_ids),
        ExecuteMsg::DistributeReward { token_balance } => execute_distribute_reward(
            contract,
            env,
            info,
            token_balance,
        ),
        ExecuteMsg::SetRewardWallet { address } => execute_reward_wallet(
            contract,
            env,
            info,
            address,
        ),
        ExecuteMsg::SetNftAddress { address } => execute_nft_address(
            contract,
            env,
            info,
            address,
            validity,
        ),
        ExecuteMsg::SetTokenAddress { address } => execute_token_address(
            contract,
            env,
            info,
            address,
            validity,
        ),
        ExecuteMsg::SetOwner { address } => execute_set_owner(
            contract,
            env,
            info,
            address,
            validity,
        ),
        ExecuteMsg::WithdrawAllMoney { amount_juno, amount_hope } => execute_withdraw_all(
            contract,
            env,
            info,
            amount_juno,
            amount_hope,
        ),
        ExecuteMsg::SetStakingPeriod { time } => execute_staking_period(contract, env, info, time),
        ExecuteMsg::SetStake { flag } => execute_set_stake(contract, info, flag),
        ExecuteMsg::SetDistributePeriod { time } => execute_distribute_period(
            contract,
            env,
            info,
            time,
        ),
    }
}

/// The configuration record.
pub fn query_state_info(contract: &Contract) -> (r: State)
    ensures
        r@ == contract@.config,
{
    contract.config.clone()
}

/// The time of the block in which the question is asked, in seconds.
pub fn query_get_current_time(env: Env) -> (r: u64)
    ensures
        r == env.time,
{
    env.time
}

/// The identifiers of all staked tokens, in ascending order.
pub fn query_get_members(contract: &Contract) -> (r: Vec<String>)
    ensures
        r@.map_values(|s: String| s@) == token_ids(contract@.tokens),
{
    let mut ids: Vec<String> = Vec::new();
    let mut i: usize = 0;
    while i < contract.tokens.len()
        invariant
            i <= contract@.tokens.len(),
            ids@.len() == i,
            forall|j: int| 0 <= j < i ==> (#[trigger] ids@[j])@ == contract@.tokens[j].token_id,
        decreases contract@.tokens.len() - i,
    {
        ids.push(contract.tokens.get(i).token_id.clone());
        i += 1;
    }
    assert(ids@.map_values(|s: String| s@) =~= token_ids(contract@.tokens));
    ids
}

/// All staking records, in ascending order of their identifiers.
pub fn query_token_info(contract: &Contract) -> (r: Vec<TokenInfo>)
    ensures
        r@.map_values(|t: TokenInfo| t@) == contract@.tokens,
{
    let mut records: Vec<TokenInfo> = Vec::new();
    let mut i: usize = 0;
    while i < contract.tokens.len()
        invariant
            i <= contract@.tokens.len(),
            records@.len() == i,
            forall|j: int| 0 <= j < i ==> (#[trigger] records@[j])@ == contract@.tokens[j],
        decreases contract@.tokens.len() - i,
    {
        records.push(contract.tokens.get(i).clone());
        i += 1;
    }
    assert(records@.map_values(|t: TokenInfo| t@) =~= contract@.tokens);
    records
}

/// The staking record of `token_id`, or `None` where the token is not
/// staked.
pub fn query_token(contract: &Contract, token_id: &String) -> (r: Option<TokenInfo>)
    ensures
        match r {
            Some(record) => contract@.contains(token_id@) && record@ == contract@.record(
                token_id@,
            ),
            None => !contract@.contains(token_id@),
        },
{
    match contract.tokens.find(token_id) {
        Some(i) => Some(contract.tokens.get(i).clone()),
        None => None,
    }
}

/// The staking records of the tokens that `address` deposited, in ascending
/// order of their identifiers.
pub fn query_my_info(contract: &Contract, address: &String) -> (r: Vec<TokenInfo>)
    ensures
        r@.map_values(|t: TokenInfo| t@) == owned_by(contract@.tokens, address@),
{
    let ghost all = contract@.tokens;
    let mut records: Vec<TokenInfo> = Vec::new();
    let mut i: usize = 0;
    assert(all.take(0) =~= Seq::<TokenRecord>::empty());
    assert(records@.map_values(|t: TokenInfo| t@) =~= Seq::<TokenRecord>::empty());
    while i < contract.tokens.len()
        invariant
            i <= all.len(),
            all == contract@.tokens,
            records@.map_values(|t: TokenInfo| t@) == owned_by(all.take(i as int), address@),
        decreases all.len() - i,
    {
        assert(all.take(i + 1).drop_last() =~= all.take(i as int));
        assert(all.take(i + 1).last() == all[i as int]);
        let record = contract.tokens.get(i);
        if record.owner == *address {
            let ghost before = records@.map_values(|t: TokenInfo| t@);
            records.push(record.clone());
            assert(records@.map_values(|t: TokenInfo| t@) =~= before.push(all[i as int]));
        }
        i += 1;
    }
    assert(all.take(i as int) =~= all);
    records
}

/// The identifiers of the tokens that `address` deposited, in ascending
/// order.
pub fn query_my_ids(contract: &Contract, address: &String) -> (r: Vec<String>)
    ensures
        r@.map_values(|s: String| s@) == token_ids(owned_by(contract@.tokens, address@)),
{
    let ghost all = contract@.tokens;
    let mut ids: Vec<String> = Vec::new();
    let mut i: usize = 0;
    assert(all.take(0) =~= Seq::<TokenRecord>::empty());
    assert(ids@.map_values(|s: String| s@) =~= token_ids(Seq::<TokenRecord>::empty()));
    while i < contract.tokens.len()
        invariant
            i <= all.len(),
            all == contract@.tokens,
            ids@.map_values(|s: String| s@) == token_ids(owned_by(all.take(i as int), address@)),
        decreases all.len() - i,
    {
        assert(all.take(i + 1).drop_last() =~= all.take(i as int));
        assert(all.take(i + 1).last() == all[i as int]);
        let record = contract.tokens.get(i);
        if record.owner == *address {
            let ghost before = ids@.map_values(|s: String| s@);
            ids.push(record.token_id.clone());
            assert(ids@.map_values(|s: String| s@) =~= before.push(all[i as int].token_id));
            assert(token_ids(owned_by(all.take(i as int), address@).push(all[i as int]))
                =~= before.push(all[i as int].token_id));
        }
        i += 1;
    }
    assert(all.take(i as int) =~= all);
    ids
}

/// Answers the question `msg`, asked at `env.time`.
pub fn query(contract: &Contract, env: Env, msg: QueryMsg) -> (r: QueryResponse)
    ensures
        match msg {
            QueryMsg::GetStateInfo {  } => r matches QueryResponse::StateInfo(state) && state@
                == contract@.config,
            QueryMsg::GetAllTokens {  } => r matches QueryResponse::AllTokens(ids)
                && ids@.map_values(|s: String| s@) == token_ids(contract@.tokens),
            QueryMsg::GetTokenInfo {  } => r matches QueryResponse::TokenInfo(records)
                && records@.map_values(|t: TokenInfo| t@) == contract@.tokens,
            QueryMsg::GetCurrentTime {  } => r matches QueryResponse::CurrentTime(now) && now
                == env.time,
            QueryMsg::GetToken { token_id } => r matches QueryResponse::Token(found) && (
            match found {
                Some(record) => contract@.contains(token_id@) && record@ == contract@.record(
                    token_id@,
                ),
                None => !contract@.contains(token_id@),
            }),
            QueryMsg::GetMyIds { address } => r matches QueryResponse::MyIds(ids)
                && ids@.map_values(|s: String| s@) == token_ids(
                owned_by(contract@.tokens, address@),
            ),
            QueryMsg::GetMyInfo { address } => r matches QueryResponse::MyInfo(records)
                && records@.map_values(|t: TokenInfo| t@) == owned_by(
                contract@.tokens,
                address@,
            ),
        },
{
    match msg {
        QueryMsg::GetStateInfo {  } => QueryResponse::StateInfo(query_state_info(contract)),
        QueryMsg::GetAllTokens {  } => QueryResponse::AllTokens(query_get_members(contract)),
        QueryMsg::GetTokenInfo {  } => QueryResponse::TokenInfo(query_token_info(contract)),
        QueryMsg::GetCurrentTime {  } => QueryResponse::CurrentTime(query_get_current_time(env)),
        QueryMsg::GetToken { token_id } => QueryResponse::Token(query_token(contract, &token_id)),
        QueryMsg::GetMyIds { address } => QueryResponse::MyIds(query_my_ids(contract, &address)),
        QueryMsg::GetMyInfo { address } => QueryResponse::MyInfo(
            query_my_info(contract, &address),
        ),
    }
}

} // verus!
