//! Staking and reward engine of an NFT staking program.
//!
//! The program tracks which collectible tokens are staked, makes their
//! owners wait before a withdrawal, and divides pools of rewards evenly
//! among the staked tokens.
//!
//! The whole state of the program is one value, a [`Contract`]: the
//! configuration record and the ledger of staking records. Every operation
//! takes that state and the inputs of one call, and gives the instructions to
//! send to the token contracts, or the reason of its refusal; a refused call
//! leaves the state as it was. The host delivers the calls, keeps the state
//! between them and sends the instructions: none of that happens here.
//!
//! Every operation is verified against a mathematical model of the program,
//! [`Program`], in the module `model`; the module `laws` proves what holds of
//! the model whatever calls reach it.

pub mod admin;
pub mod auth;
pub mod contract;
pub mod encoding;
pub mod error;
pub mod laws;
pub mod ledger;
pub mod lifecycle;
pub mod model;
pub mod msg;
pub mod order;
pub mod rewards;
pub mod state;

pub use admin::{
    execute_distribute_period, execute_nft_address, execute_reward_wallet, execute_set_owner,
    execute_set_stake, execute_staking_period, execute_token_address, execute_withdraw_all,
};
pub use auth::{is_collectible_contract, is_owner, is_record_owner, is_reward_wallet};
pub use contract::{
    address_to_validate, execute, instantiate, query, query_get_current_time, query_get_members,
    query_my_ids, query_my_info, query_state_info, query_token, query_token_info,
};
pub use error::ContractError;
pub use ledger::Ledger;
pub use lifecycle::{execute_stake_nft, execute_unstake_nft, execute_withdraw_nft};
pub use model::{Program, Status};
pub use msg::{
    Coin, Cw721ReceiveMsg, Env, ExecuteMsg, InstantiateMsg, Instruction, MessageInfo, QueryMsg,
    QueryResponse, Response,
};
pub use rewards::{
    execute_distribute_reward, execute_get_reward, native_amount, reward_instructions,
};
pub use state::{Contract, State, TokenInfo};
