//! Raw operations as extracted from transactions, and the protocol messages
//! and events derived from them.
use crate::chain::Txid;
use crate::ledger::{InscriptionId, ScriptKey, Tick};
use vstd::prelude::*;

verus! {

/// The content of a newly created inscription, where it has a recognised
/// shape. Its symbol is `None` where the content names one that is not four
/// bytes long (see `ledger::tick_from_bytes`).
#[derive(Clone, Copy, Debug)]
pub enum Payload {
    Deploy { tick: Option<Tick>, supply: u128, limit: u128, decimal: u128 },
    Mint { tick: Option<Tick>, amount: u128 },
    Transfer { tick: Option<Tick>, amount: u128 },
}

#[derive(Clone, Copy, Debug)]
pub enum Action {
    /// The inscription is created by this transaction.
    Inscribe { payload: Option<Payload> },
    /// An existing inscription is moved by this transaction.
    Spend,
}

/// One detected inscription event of a transaction.
#[derive(Clone, Copy, Debug)]
pub struct RawOperation {
    pub inscription_id: InscriptionId,
    pub action: Action,
    /// The holder of the inscription before the transaction.
    pub from: ScriptKey,
    /// The holder of the inscription after the transaction.
    pub to: ScriptKey,
}

/// The raw operations of one transaction.
pub struct TxOperations {
    pub txid: Txid,
    pub operations: Vec<RawOperation>,
}

#[derive(Clone, Copy, Debug)]
pub enum Operation {
    Deploy { tick: Option<Tick>, supply: u128, limit: u128, decimal: u128 },
    Mint { tick: Option<Tick>, amount: u128 },
    InscribeTransfer { tick: Option<Tick>, amount: u128 },
    Transfer { tick: Tick, amount: u128 },
}

/// Why a message was rejected.
#[derive(Clone, Copy, Debug, PartialEq, Eq, Structural)]
pub enum Rejection {
    InvalidTick,
    AlreadyDeployed,
    InvalidSupply,
    InvalidLimit,
    InvalidDecimal,
    UnknownTicker,
    InvalidAmount,
    ExceedsMintLimit,
    SupplyExhausted,
    InsufficientBalance,
    TransferNotFound,
    TransferSpent,
    BalanceOverflow,
}

impl Rejection {
    pub fn describe(&self) -> &'static str {
        match self {
            Rejection::InvalidTick => "tick must be 4 bytes length",
            Rejection::AlreadyDeployed => "tick already deployed",
            Rejection::InvalidSupply => "supply out of range",
            Rejection::InvalidLimit => "limit per mint out of range",
            Rejection::InvalidDecimal => "decimal out of range",
            Rejection::UnknownTicker => "tick not deployed",
            Rejection::InvalidAmount => "amount must be positive",
            Rejection::ExceedsMintLimit => "amount exceeds limit per mint",
            Rejection::SupplyExhausted => "amount exceeds remaining supply",
            Rejection::InsufficientBalance => "insufficient available balance",
            Rejection::TransferNotFound => "transferable inscription not found",
            Rejection::TransferSpent => "transferable inscription already spent",
            Rejection::BalanceOverflow => "balance overflow",
        }
    }
}

/// A typed protocol instruction. `rejection` is `None` when it was valid as
/// resolved.
#[derive(Clone, Copy, Debug)]
pub struct Message {
    pub txid: Txid,
    pub inscription_id: InscriptionId,
    pub from: ScriptKey,
    pub to: ScriptKey,
    pub op: Operation,
    pub rejection: Option<Rejection>,
}

/// The recorded outcome of executing one message.
#[derive(Clone, Copy, Debug)]
pub struct Event {
    pub txid: Txid,
    pub inscription_id: InscriptionId,
    pub from: ScriptKey,
    pub to: ScriptKey,
    pub op: Operation,
    pub rejection: Option<Rejection>,
}

impl Event {
    pub open spec fn valid_spec(&self) -> bool {
        self.rejection is None
    }

    pub fn valid(&self) -> (r: bool)
        ensures
            r == self.valid_spec(),
    {
        self.rejection.is_none()
    }
}

} // verus!
