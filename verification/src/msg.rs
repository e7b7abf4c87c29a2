//! The messages that reach the program and the instructions that leave it.

use vstd::prelude::*;
use crate::model::{CoinAmount, Message};
use crate::state::{State, TokenInfo};

verus! {

/// An amount of one native asset.
#[derive(Clone, Debug, PartialEq)]
pub struct Coin {
    pub denom: String,
    pub amount: u128,
}

impl View for Coin {
    type V = CoinAmount;

    open spec fn view(&self) -> CoinAmount {
        CoinAmount { denom: self.denom@, amount: self.amount as nat }
    }
}

/// What the host tells of the block in which a call runs.
#[derive(Clone, Debug, PartialEq)]
pub struct Env {
    /// The time of the block, in seconds.
    pub time: u64,
    /// The address of the program itself.
    pub contract_address: String,
}

/// Who makes a call, and the native funds sent along with it.
#[derive(Clone, Debug, PartialEq)]
pub struct MessageInfo {
    pub sender: String,
    pub funds: Vec<Coin>,
}

impl MessageInfo {
    /// The funds sent along, as mathematical values.
    pub open spec fn funds_view(&self) -> Seq<CoinAmount> {
        self.funds@.map_values(|c: Coin| c@)
    }
}

/// The parameters with which the program starts.
#[derive(Clone, Debug, PartialEq)]
pub struct InstantiateMsg {
    pub denom: String,
    pub staking_period: u64,
    pub reward_wallet: String,
    pub distribute_period: u64,
}

/// What the collectible contract sends when a token was deposited.
#[derive(Clone, Debug, PartialEq)]
pub struct Cw721ReceiveMsg {
    /// Who deposited the token.
    pub sender: String,
    pub token_id: String,
    /// What the depositor sent along; the program does not read it.
    pub msg: Vec<u8>,
}

/// The calls that change the program.
#[derive(Clone, Debug, PartialEq)]
pub enum ExecuteMsg {
    ReceiveNft(Cw721ReceiveMsg),
    UnstakeNft { token_id: String },
    WithdrawNft { token_id: String },
    GetReward { token_ids: Vec<String> },
    DistributeReward { token_balance: u128 },
    SetRewardWallet { address: String },
    SetOwner { address: String },
    SetStakingPeriod { time: u64 },
    WithdrawAllMoney { amount_juno: u128, amount_hope: u128 },
    SetNftAddress { address: String },
    SetTokenAddress { address: String },
    SetStake { flag: bool },
    SetDistributePeriod { time: u64 },
}

/// The questions that the program answers.
#[derive(Clone, Debug, PartialEq)]
pub enum QueryMsg {
    GetStateInfo {},
    GetAllTokens {},
    GetTokenInfo {},
    GetCurrentTime {},
    GetToken { token_id: String },
    GetMyIds { address: String },
    GetMyInfo { address: String },
}

/// The answers to the questions of `QueryMsg`, one variant for each.
#[derive(Debug, PartialEq)]
pub enum QueryResponse {
    StateInfo(State),
    AllTokens(Vec<String>),
    TokenInfo(Vec<TokenInfo>),
    CurrentTime(u64),
    Token(Option<TokenInfo>),
    MyIds(Vec<String>),
    MyInfo(Vec<TokenInfo>),
}

/// An instruction to a collaborator, queued on the response of a call.
#[derive(Clone, Debug, PartialEq)]
pub enum Instruction {
    /// Execute the message `msg` on the contract at `contract_addr`, with no
    /// funds attached.
    Execute { contract_addr: String, msg: Vec<u8> },
    /// Send `amount` of the native asset `denom` to `to_address`.
    Send { to_address: String, denom: String, amount: u128 },
}

impl View for Instruction {
    type V = Message;

    open spec fn view(&self) -> Message {
        match self {
            Instruction::Execute { contract_addr, msg } => Message::Execute {
                contract_addr: contract_addr@,
                msg: msg@,
            },
            Instruction::Send { to_address, denom, amount } => Message::Send {
                to_address: to_address@,
                denom: denom@,
                amount: *amount as nat,
            },
        }
    }
}

/// What a call that succeeds hands back: the instructions to send, in order.
#[derive(Clone, Debug, PartialEq)]
pub struct Response {
    pub messages: Vec<Instruction>,
}

impl View for Response {
    type V = Seq<Message>;

    open spec fn view(&self) -> Seq<Message> {
        self.messages@.map_values(|m: Instruction| m@)
    }
}

impl Response {
    /// The response that sends nothing.
    pub fn new() -> (r: Response)
        ensures
            r@ == Seq::<Message>::empty(),
    {
        let r = Response { messages: Vec::new() };
        assert(r@ =~= Seq::<Message>::empty());
        r
    }

    /// Queues one more instruction.
    pub fn add_message(&mut self, msg: Instruction)
        ensures
            final(self)@ == old(self)@.push(msg@),
    {
        let ghost before = self@;
        self.messages.push(msg);
        assert(self@ =~= before.push(msg@));
    }
}

} // verus!
