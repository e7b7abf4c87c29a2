//! The bodies of the messages that the program sends to the fungible-token
//! contract and to the collectible contract.
//!
//! The bodies are JSON texts that `cosmwasm_std` writes for the message types
//! of `cw20` and `cw721`. This crate does not describe JSON: each text has a
//! name here, and the contracts of the crate speak of the texts by these
//! names. A text is `None` where the encoder reports a fault.

use vstd::prelude::*;
use cosmwasm_std::{to_json_binary, StdError, Uint128};
use cw20::Cw20ExecuteMsg;
use cw721::Cw721ExecuteMsg;

verus! {

/// What `cosmwasm_std::to_json_binary` gives for
/// `cw20::Cw20ExecuteMsg::Transfer { recipient, amount }`.
pub uninterp spec fn cw20_transfer_json(recipient: Seq<char>, amount: u128) -> Option<Seq<u8>>;

/// What `cosmwasm_std::to_json_binary` gives for
/// `cw20::Cw20ExecuteMsg::TransferFrom { owner, recipient, amount }`.
pub uninterp spec fn cw20_transfer_from_json(
    owner: Seq<char>,
    recipient: Seq<char>,
    amount: u128,
) -> Option<Seq<u8>>;

/// What `cosmwasm_std::to_json_binary` gives for
/// `cw721::Cw721ExecuteMsg::TransferNft { recipient, token_id }`.
pub uninterp spec fn cw721_transfer_nft_json(recipient: Seq<char>, token_id: Seq<char>) -> Option<
    Seq<u8>,
>;

/// Calls `cosmwasm_std::to_json_binary` on a cw20 `Transfer` message. The
/// encoder is a function of the message alone: the bytes it returns, or the
/// fact that it failed, are what `cw20_transfer_json` names. Nothing is
/// claimed of the fault it reports.
#[verifier::external_body]
pub(crate) fn encode_cw20_transfer(recipient: &String, amount: u128) -> (r: Result<
    Vec<u8>,
    StdError,
>)
    ensures
        match r {
            Ok(body) => cw20_transfer_json(recipient@, amount) == Some(body@),
            Err(_) => cw20_transfer_json(recipient@, amount) is None,
        },
{
    let msg = Cw20ExecuteMsg::Transfer {
        recipient: recipient.clone(),
        amount: Uint128::new(amount),
    };
    match to_json_binary(&msg) {
        Ok(body) => Ok(body.0),
        Err(e) => Err(e),
    }
}

/// Calls `cosmwasm_std::to_json_binary` on a cw20 `TransferFrom` message.
/// The bytes it returns, or the fact that it failed, are what
/// `cw20_transfer_from_json` names. Nothing is claimed of the fault it
/// reports.
#[verifier::external_body]
pub(crate) fn encode_cw20_transfer_from(owner: &String, recipient: &String, amount: u128) -> (r:
    Result<Vec<u8>, StdError>)
    ensures
        match r {
            Ok(body) => cw20_transfer_from_json(owner@, recipient@, amount) == Some(body@),
            Err(_) => cw20_transfer_from_json(owner@, recipient@, amount) is None,
        },
{
    let msg = Cw20ExecuteMsg::TransferFrom {
        owner: owner.clone(),
        recipient: recipient.clone(),
        amount: Uint128::new(amount),
    };
    match to_json_binary(&msg) {
        Ok(body) => Ok(body.0),
        Err(e) => Err(e),
    }
}

/// Calls `cosmwasm_std::to_json_binary` on a cw721 `TransferNft` message.
/// The bytes it returns, or the fact that it failed, are what
/// `cw721_transfer_nft_json` names. Nothing is claimed of the fault it
/// reports.
#[verifier::external_body]
pub(crate) fn encode_cw721_transfer_nft(recipient: &String, token_id: &String) -> (r: Result<
    Vec<u8>,
    StdError,
>)
    ensures
        match r {
            Ok(body) => cw721_transfer_nft_json(recipient@, token_id@) == Some(body@),
            Err(_) => cw721_transfer_nft_json(recipient@, token_id@) is None,
        },
{
    let msg = Cw721ExecuteMsg::TransferNft {
        recipient: recipient.clone(),
        token_id: token_id.clone(),
    };
    match to_json_binary(&msg) {
        Ok(body) => Ok(body.0),
        Err(e) => Err(e),
    }
}

} // verus!
