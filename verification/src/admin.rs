//! The administrative operations, which only the owner may ask for.
//!
//! Whether an address is well formed is for the host to say. The operations
//! that store an address take the host's verdict as an argument: `Ok` for a
//! well-formed address, else the fault that the host reported.

use vstd::prelude::*;
use cosmwasm_std::StdError;
use crate::state::{answers, Contract, State};
use crate::auth::is_owner;
use crate::encoding::encode_cw20_transfer;
use crate::error::ContractError;
use crate::model::{sending, silent, Message, ProgramConfig};
use crate::msg::{Env, Instruction, MessageInfo, Response};

verus! {

/// Makes `address` the wallet that may distribute rewards.
pub fn execute_reward_wallet(
    contract: &mut Contract,
    _env: Env,
    info: MessageInfo,
    address: String,
) -> (r: Result<Response, ContractError>)
    ensures
        answers(
            old(contract)@,
            silent(old(contract)@.administer(
                info.sender@,
                false,
                ProgramConfig { reward_wallet: address@, ..old(contract)@.config },
            )),
            final(contract)@,
            r,
        ),
{
    if !is_owner(&contract.config, &info.sender) {
        return Err(ContractError::Unauthorized {  });
    }
    contract.config.reward_wallet = address;
    Ok(Response::new())
}

/// Makes `address` the registered collectible contract, if the host found
/// the address well formed.
pub fn execute_nft_address(
    contract: &mut Contract,
    _env: Env,
    info: MessageInfo,
    address: String,
    validity: Result<(), StdError>,
) -> (r: Result<Response, ContractError>)
    ensures
        answers(
            old(contract)@,
            silent(old(contract)@.administer(
                info.sender@,
                validity is Err,
                ProgramConfig { nft_address: address@, ..old(contract)@.config },
            )),
            final(contract)@,
            r,
        ),
        r matches Err(ContractError::Std(fault)) ==> validity == Err::<(), StdError>(fault),
{
    if !is_owner(&contract.config, &info.sender) {
        return Err(ContractError::Unauthorized {  });
    }
    match validity {
        Err(fault) => {
            return Err(ContractError::Std(fault));
        },
        Ok(_) => {},
    }
    contract.config.nft_address = address;
    Ok(Response::new())
}

/// Makes `address` the fungible-token contract, if the host found the
/// address well formed.
pub fn execute_token_address(
    contract: &mut Contract,
    _env: Env,
    info: MessageInfo,
    address: String,
    validity: Result<(), StdError>,
) -> (r: Result<Response, ContractError>)
    ensures
        answers(
            old(contract)@,
            silent(old(contract)@.administer(
                info.sender@,
                validity is Err,
                ProgramConfig { token_address: address@, ..old(contract)@.config },
            )),
            final(contract)@,
            r,
        ),
        r matches Err(ContractError::Std(fault)) ==> validity == Err::<(), StdError>(fault),
{
    if !is_owner(&contract.config, &info.sender) {
        return Err(ContractError::Unauthorized {  });
    }
    match validity {
        Err(fault) => {
            return Err(ContractError::Std(fault));
        },
        Ok(_) => {},
    }
    contract.config.token_address = address;
    Ok(Response::new())
}

/// Hands the program over to `address`, if the host found the address well
/// formed.
pub fn execute_set_owner(
    contract: &mut Contract,
    _env: Env,
    info: MessageInfo,
    address: String,
    validity: Result<(), StdError>,
) -> (r: Result<Response, ContractError>)
    ensures
        answers(
            old(contract)@,
            silent(old(contract)@.administer(
                info.sender@,
                validity is Err,
                ProgramConfig { owner: address@, ..old(contract)@.config },
            )),
            final(contract)@,
            r,
        ),
        r matches Err(ContractError::Std(fault)) ==> validity == Err::<(), StdError>(fault),
{
    if !is_owner(&contract.config, &info.sender) {
        return Err(ContractError::Unauthorized {  });
    }
    match validity {
        Err(fault) => {
            return Err(ContractError::Std(fault));
        },
        Ok(_) => {},
    }
    contract.config.owner = address;
    Ok(Response::new())
}

/// Sets the waiting time between the request to unstake and the withdrawal
/// to `time` seconds.
pub fn execute_staking_period(
    contract: &mut Contract,
    _env: Env,
    info: MessageInfo,
    time: u64,
) -> (r: Result<Response, ContractError>)
    ensures
        answers(
            old(contract)@,
            silent(old(contract)@.administer(
                info.sender@,
                false,
                ProgramConfig { staking_period: time as nat, ..old(contract)@.config },
            )),
            final(contract)@,
            r,
        ),
{
    if !is_owner(&contract.config, &info.sender) {
        return Err(ContractError::Unauthorized {  });
    }
    contract.config.staking_period = time;
    Ok(Response::new())
}

/// Sets the least interval between two distributions to `time` seconds.
pub fn execute_distribute_period(
    contract: &mut Contract,
    _env: Env,
    info: MessageInfo,
    time: u64,
) -> (r: Result<Response, ContractError>)
    ensures
        answers(
            old(contract)@,
            silent(old(contract)@.administer(
                info.sender@,
                false,
                ProgramConfig { distribute_period: time as nat, ..old(contract)@.config },
            )),
            final(contract)@,
            r,
        ),
{
    if !is_owner(&contract.config, &info.sender) {
        return Err(ContractError::Unauthorized {  });
    }
    contract.config.distribute_period = time;
    Ok(Response::new())
}

/// Switches staking on or off.
pub fn execute_set_stake(contract: &mut Contract, info: MessageInfo, flag: bool) -> (r: Result<
    Response,
    ContractError,
>)
    ensures
        answers(
            old(contract)@,
            silent(old(contract)@.administer(
                info.sender@,
                false,
                ProgramConfig { can_stake: flag, ..old(contract)@.config },
            )),
            final(contract)@,
            r,
        ),
{
    if !is_owner(&contract.config, &info.sender) {
        return Err(ContractError::Unauthorized {  });
    }
    contract.config.can_stake = flag;
    Ok(Response::new())
}

/// The response of a sweep to `sender`: the transfer of the fungible token,
/// with the message `body` to the token contract, then that of
/// `amount_juno` units of the native asset.
pub fn sweep_response(config: &State, sender: String, amount_juno: u128, body: Vec<u8>) -> (r:
    Response)
    ensures
        r@ == seq![
            Message::Execute { contract_addr: config.token_address@, msg: body@ },
            Message::Send { to_address: sender@, denom: config.denom@, amount: amount_juno as nat },
        ],
{
    let mut response = Response::new();
    response.add_message(
        Instruction::Execute { contract_addr: config.token_address.clone(), msg: body },
    );
    response.add_message(
        Instruction::Send { to_address: sender, denom: config.denom.clone(), amount: amount_juno },
    );
    assert(response@ =~= seq![
        Message::Execute { contract_addr: config.token_address@, msg: body@ },
        Message::Send { to_address: sender@, denom: config.denom@, amount: amount_juno as nat },
    ]);
    response
}

/// Sweeps `amount_hope` units of the fungible token and `amount_juno` units
/// of the native asset to the owner, whatever the ledger holds. The state
/// stays as it is.
pub fn execute_withdraw_all(
    contract: &Contract,
    _env: Env,
    info: MessageInfo,
    amount_juno: u128,
    amount_hope: u128,
) -> (r: Result<Response, ContractError>)
    ensures
        answers(
            contract@,
            sending(
                contract@.administer(info.sender@, false, contract@.config),
                contract@.sweep_messages(info.sender@, amount_juno, amount_hope),
            ),
            contract@,
            r,
        ),
{
    if !is_owner(&contract.config, &info.sender) {
        return Err(ContractError::Unauthorized {  });
    }
    let body = match encode_cw20_transfer(&info.sender, amount_hope) {
        Ok(body) => body,
        Err(e) => {
            return Err(ContractError::Std(e));
        },
    };
    Ok(sweep_response(&contract.config, info.sender, amount_juno, body))
}

} // verus!
