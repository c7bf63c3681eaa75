//! The records that the read-only query layer serves, and its error codes.
use crate::ledger::BalanceRecord;
use vstd::prelude::*;
use vstd::string::StringSliceAdditionalSpecFns;

verus! {

#[derive(Default, Debug, Clone)]
pub struct TickInfo {
    pub tick: String,
    pub inscription_id: String,
    pub supply: String,
    pub limit_per_mint: String,
    pub minted: String,
    pub decimal: u64,
    pub deploy_by: String,
    pub txid: String,
    pub deploy_height: u64,
    pub deploy_blocktime: u64,
}

#[derive(Default, Debug, Clone)]
pub struct Balance {
    pub tick: String,
    pub available_balance: String,
    pub transferable_balance: String,
    pub overall_balance: String,
}

#[derive(Default, Debug, Clone)]
pub struct TxEvents {
    pub events: Vec<TxEvent>,
    pub txid: String,
}

#[derive(Debug, Clone)]
pub enum TxEvent {
    Deploy(DeployEvent),
    Mint(MintEvent),
    InscribeTransfer(InscribeTransferEvent),
    Transfer(TransferEvent),
}

#[derive(Default, Debug, Clone)]
pub struct DeployEvent {
    pub tick: String,
    pub inscription_id: String,
    pub supply: String,
    pub limit_per_mint: String,
    pub decimal: u64,
    pub deploy_by: String,
    pub valid: bool,
    pub msg: String,
}

#[derive(Default, Debug, Clone)]
pub struct MintEvent {
    pub tick: String,
    pub inscription_id: String,
    pub amount: String,
    pub to: String,
    pub valid: bool,
    pub msg: String,
}

#[derive(Default, Debug, Clone)]
pub struct InscribeTransferEvent {
    pub tick: String,
    pub inscription_id: String,
    pub amount: String,
    pub owner: String,
    pub valid: bool,
    pub msg: String,
}

#[derive(Default, Debug, Clone)]
pub struct TransferEvent {
    pub tick: String,
    pub amount: String,
    pub from: String,
    pub to: String,
    pub valid: bool,
    pub msg: String,
}

#[derive(Default, Debug, Clone)]
pub struct BlockEvents {
    pub block: Vec<TxEvents>,
}

#[derive(Default, Debug, Clone)]
pub struct TransferableInscriptions {
    pub inscriptions: Vec<TransferableInscription>,
}

#[derive(Default, Debug, Clone)]
pub struct TransferableInscription {
    pub id: String,
    pub amount: String,
}

pub enum ApiError {
    NoError,
    Internal(String),
    BadRequest(String),
    NotFound(String),
}

impl ApiError {
    pub open spec fn code_spec(&self) -> i32 {
        match self {
            ApiError::NoError => 0,
            ApiError::Internal(_) => 1,
            ApiError::BadRequest(_) => 2,
            ApiError::NotFound(_) => 3,
        }
    }

    pub fn code(&self) -> (r: i32)
        ensures
            r == self.code_spec(),
    {
        match self {
            ApiError::NoError => 0,
            ApiError::Internal(_) => 1,
            ApiError::BadRequest(_) => 2,
            ApiError::NotFound(_) => 3,
        }
    }

    pub fn not_found(message: String) -> (r: Self)
        ensures
            r matches ApiError::NotFound(s) && s@ == message@,
    {
        ApiError::NotFound(message)
    }

    pub fn internal(message: String) -> (r: Self)
        ensures
            r matches ApiError::Internal(s) && s@ == message@,
    {
        ApiError::Internal(message)
    }
}

pub const ERR_TICK_LENGTH: &'static str = "tick must be 4 bytes length";

/// The lower-case form of a string, as std's `str::to_lowercase` gives it.
pub uninterp spec fn lower_of(s: Seq<char>) -> Seq<char>;

/// Relies on `str::to_lowercase`: the result depends on the characters alone.
#[verifier::external_body]
fn lowercase(s: &str) -> (r: String)
    ensures
        r@ == lower_of(s@),
{
    s.to_lowercase()
}

/// The symbol that a query names, in lower case. A name that is not four
/// bytes long is a bad request.
pub fn parse_tick(tick: &str) -> (r: Result<String, ApiError>)
    ensures
        r is Ok <==> tick.spec_bytes().len() == 4,
        r matches Ok(s) ==> s@ == lower_of(tick@),
        r is Err ==> r matches Err(ApiError::BadRequest(_)),
        r matches Err(ApiError::BadRequest(s)) ==> s@ == ERR_TICK_LENGTH@,
{
    broadcast use vstd::string::to_string_from_display_ensures_for_str;

    if tick.as_bytes().len() != 4 {
        Err(ApiError::BadRequest(ERR_TICK_LENGTH.to_string()))
    } else {
        Ok(lowercase(tick))
    }
}

/// The available balance of a record that keeps `transferable <= overall`;
/// any other record is reported as an internal error.
pub fn available_balance(b: &BalanceRecord) -> (r: Result<u128, ApiError>)
    ensures
        b.transferable_balance <= b.overall_balance ==> r == Ok::<u128, ApiError>(
            (b.overall_balance - b.transferable_balance) as u128,
        ),
        b.transferable_balance > b.overall_balance ==> (r matches Err(ApiError::Internal(s)) && s@
            == "balance error"@),
{
    broadcast use vstd::string::to_string_from_display_ensures_for_str;

    if b.transferable_balance > b.overall_balance {
        Err(ApiError::internal("balance error".to_string()))
    } else {
        Ok(b.overall_balance - b.transferable_balance)
    }
}

} // verus!
