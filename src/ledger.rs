//! The ledger tables that one block's indexing reads and writes.
//!
//! Each keyed table is a log of writes: a write appends the new version of a
//! record, and a read returns the latest version written under its key.
use crate::chain::Txid;
use vstd::prelude::*;

verus! {

/// A token symbol: exactly four bytes.
pub type Tick = [u8; 4];

/// The key of a holder: the hash of the holder's output script.
pub type ScriptKey = [u8; 32];

/// The largest supply or per-mint limit that a deploy may declare.
pub const MAX_SUPPLY: u128 = 18446744073709551615;

/// The largest decimal precision that a deploy may declare.
pub const MAX_DECIMAL: u8 = 18;

/// An inscription: the transaction that created it and its index there.
#[derive(Clone, Copy, Debug)]
pub struct InscriptionId {
    pub txid: Txid,
    pub index: u32,
}

#[derive(Clone, Copy, Debug)]
pub struct TickerRecord {
    pub tick: Tick,
    pub inscription_id: InscriptionId,
    pub supply: u128,
    pub limit_per_mint: u128,
    pub decimal: u8,
    pub deploy_by: ScriptKey,
    pub deployed_number: u64,
    pub deployed_timestamp: u32,
    pub minted: u128,
}

#[derive(Clone, Copy, Debug)]
pub struct BalanceRecord {
    pub tick: Tick,
    pub owner: ScriptKey,
    pub overall_balance: u128,
    pub transferable_balance: u128,
}

/// An inscribed transfer: an amount set aside until the inscription is spent.
#[derive(Clone, Copy, Debug)]
pub struct TransferableRecord {
    pub inscription_id: InscriptionId,
    pub tick: Tick,
    pub amount: u128,
    pub owner: ScriptKey,
    pub spent: bool,
}

/// The latest ticker record written under `tick`.
pub open spec fn find_ticker(s: Seq<TickerRecord>, tick: Tick) -> Option<TickerRecord>
    decreases s.len(),
{
    if s.len() == 0 {
        None
    } else if s.last().tick == tick {
        Some(s.last())
    } else {
        find_ticker(s.drop_last(), tick)
    }
}

/// The latest balance record written under `(tick, owner)`.
pub open spec fn find_balance(s: Seq<BalanceRecord>, tick: Tick, owner: ScriptKey) -> Option<
    BalanceRecord,
>
    decreases s.len(),
{
    if s.len() == 0 {
        None
    } else if s.last().tick == tick && s.last().owner == owner {
        Some(s.last())
    } else {
        find_balance(s.drop_last(), tick, owner)
    }
}

/// The latest transferable record written under `id`.
pub open spec fn find_transfer(s: Seq<TransferableRecord>, id: InscriptionId) -> Option<
    TransferableRecord,
>
    decreases s.len(),
{
    if s.len() == 0 {
        None
    } else if s.last().inscription_id == id {
        Some(s.last())
    } else {
        find_transfer(s.drop_last(), id)
    }
}

/// The balance of `owner` in `tick`: the latest record, or an empty one.
pub open spec fn balance_of(s: Seq<BalanceRecord>, tick: Tick, owner: ScriptKey) -> BalanceRecord {
    match find_balance(s, tick, owner) {
        Some(b) => b,
        None => BalanceRecord { tick, owner, overall_balance: 0, transferable_balance: 0 },
    }
}

/// What a holder may spend without first inscribing a transfer.
pub open spec fn available_spec(b: BalanceRecord) -> int {
    b.overall_balance - b.transferable_balance
}

pub open spec fn balance_ok(b: BalanceRecord) -> bool {
    b.transferable_balance <= b.overall_balance
}

pub open spec fn ticker_ok(t: TickerRecord) -> bool {
    &&& t.minted <= t.supply
    &&& t.supply <= MAX_SUPPLY
    &&& t.limit_per_mint <= MAX_SUPPLY
}

/// A byte with ASCII capitals folded to lower case.
pub open spec fn ascii_lower_spec(b: u8) -> u8 {
    if 65 <= b <= 90 {
        (b + 32) as u8
    } else {
        b
    }
}

pub fn ascii_lower(b: u8) -> (r: u8)
    ensures
        r == ascii_lower_spec(b),
{
    if 65 <= b && b <= 90 {
        b + 32
    } else {
        b
    }
}

/// Bytes with ASCII capitals folded to lower case.
pub open spec fn fold_case(b: Seq<u8>) -> Seq<u8> {
    b.map_values(|x: u8| ascii_lower_spec(x))
}

/// The symbol that bytes name: only exactly four bytes make one, and symbols
/// do not tell ASCII capitals from lower case, so the key is case-folded.
pub open spec fn tick_of(b: Seq<u8>) -> Option<Tick> {
    if b.len() == 4 {
        Some(choose|t: Tick| t@ == fold_case(b))
    } else {
        None
    }
}

/// The symbol that raw bytes name.
pub fn tick_from_bytes(b: &[u8]) -> (r: Option<Tick>)
    ensures
        r == tick_of(b@),
        r is Some <==> b@.len() == 4,
        r matches Some(t) ==> t@ == fold_case(b@),
{
    broadcast use vstd::array::group_array_axioms;

    if b.len() != 4 {
        None
    } else {
        let t: Tick = [ascii_lower(b[0]), ascii_lower(b[1]), ascii_lower(b[2]), ascii_lower(b[3])];
        assert(t@ =~= fold_case(b@));
        proof {
            let c = choose|c: Tick| c@ == fold_case(b@);
            assert(c@ == t@);
            assert(c =~= t);
        }
        Some(t)
    }
}

pub fn bytes4_eq(a: &[u8; 4], b: &[u8; 4]) -> (r: bool)
    ensures
        r == (*a == *b),
{
    broadcast use vstd::array::group_array_axioms;

    let r = a[0] == b[0] && a[1] == b[1] && a[2] == b[2] && a[3] == b[3];
    if r {
        assert(*a =~= *b);
    }
    r
}

pub fn bytes32_eq(a: &[u8; 32], b: &[u8; 32]) -> (r: bool)
    ensures
        r == (*a == *b),
{
    broadcast use vstd::array::group_array_axioms;

    let mut i: usize = 0;
    while i < 32
        invariant
            0 <= i <= 32,
            forall|j: int| 0 <= j < i ==> #[trigger] a@[j] == b@[j],
        decreases 32 - i,
    {
        if a[i] != b[i] {
            return false;
        }
        i = i + 1;
    }
    assert(*a =~= *b);
    true
}

pub fn inscription_id_eq(a: &InscriptionId, b: &InscriptionId) -> (r: bool)
    ensures
        r == (*a == *b),
{
    a.index == b.index && bytes32_eq(&a.txid, &b.txid)
}

pub fn lookup_ticker(s: &Vec<TickerRecord>, tick: &Tick) -> (r: Option<TickerRecord>)
    ensures
        r == find_ticker(s@, *tick),
{
    let mut i: usize = s.len();
    assert(s@.take(i as int) =~= s@);
    while i > 0
        invariant
            i <= s.len(),
            find_ticker(s@, *tick) == find_ticker(s@.take(i as int), *tick),
        decreases i,
    {
        assert(s@.take(i as int).drop_last() =~= s@.take(i - 1));
        if bytes4_eq(&s[i - 1].tick, tick) {
            return Some(s[i - 1]);
        }
        i = i - 1;
    }
    None
}

pub fn lookup_balance(s: &Vec<BalanceRecord>, tick: &Tick, owner: &ScriptKey) -> (r: Option<
    BalanceRecord,
>)
    ensures
        r == find_balance(s@, *tick, *owner),
{
    let mut i: usize = s.len();
    assert(s@.take(i as int) =~= s@);
    while i > 0
        invariant
            i <= s.len(),
            find_balance(s@, *tick, *owner) == find_balance(s@.take(i as int), *tick, *owner),
        decreases i,
    {
        assert(s@.take(i as int).drop_last() =~= s@.take(i - 1));
        if bytes4_eq(&s[i - 1].tick, tick) && bytes32_eq(&s[i - 1].owner, owner) {
            return Some(s[i - 1]);
        }
        i = i - 1;
    }
    None
}

pub fn lookup_transfer(s: &Vec<TransferableRecord>, id: &InscriptionId) -> (r: Option<
    TransferableRecord,
>)
    ensures
        r == find_transfer(s@, *id),
{
    let mut i: usize = s.len();
    assert(s@.take(i as int) =~= s@);
    while i > 0
        invariant
            i <= s.len(),
            find_transfer(s@, *id) == find_transfer(s@.take(i as int), *id),
        decreases i,
    {
        assert(s@.take(i as int).drop_last() =~= s@.take(i - 1));
        if inscription_id_eq(&s[i - 1].inscription_id, id) {
            return Some(s[i - 1]);
        }
        i = i - 1;
    }
    None
}

/// The balance of `owner` in `tick`, an empty record where none was written.
pub fn get_balance(s: &Vec<BalanceRecord>, tick: &Tick, owner: &ScriptKey) -> (r: BalanceRecord)
    ensures
        r == balance_of(s@, *tick, *owner),
{
    match lookup_balance(s, tick, owner) {
        Some(b) => b,
        None => BalanceRecord {
            tick: *tick,
            owner: *owner,
            overall_balance: 0,
            transferable_balance: 0,
        },
    }
}

} // verus!
