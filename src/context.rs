//! The ledger state of one block's indexing, and the execution of messages
//! against it: the one path by which the ledger tables change.
use crate::chain::Txid;
use crate::ledger::{
    available_spec, balance_of, bytes32_eq, get_balance, lookup_ticker, lookup_transfer, balance_ok, find_ticker, find_transfer, ticker_ok, BalanceRecord,
    ScriptKey, Tick, TickerRecord, TransferableRecord, MAX_DECIMAL, MAX_SUPPLY,
};
use crate::message::{Event, Message, Operation, RawOperation, Rejection};
use vstd::prelude::*;

verus! {

/// The raw operations of one transaction, kept for audit.
#[derive(Debug)]
pub struct Receipt {
    pub txid: Txid,
    pub operations: Vec<RawOperation>,
}

/// One result of the secondary protocol pipeline for a transaction.
#[derive(Debug)]
pub struct SecondaryRecord {
    pub txid: Txid,
    pub data: Vec<u8>,
}

/// The one record that each indexed block leaves.
#[derive(Debug)]
pub struct BlockSummary {
    pub height: u64,
    pub block_hash: [u8; 32],
    pub prev_block_hash: [u8; 32],
    pub time: u32,
    pub txs: Vec<SecondaryRecord>,
}

/// The tables that indexing writes, at the chain height of the block.
pub struct Ledger {
    pub height: u64,
    pub time: u32,
    pub tickers: Vec<TickerRecord>,
    pub balances: Vec<BalanceRecord>,
    pub transfers: Vec<TransferableRecord>,
    pub events: Vec<Event>,
    pub receipts: Vec<Receipt>,
    pub summaries: Vec<BlockSummary>,
}

pub ghost struct LedgerState {
    pub height: u64,
    pub time: u32,
    pub tickers: Seq<TickerRecord>,
    pub balances: Seq<BalanceRecord>,
    pub transfers: Seq<TransferableRecord>,
    pub events: Seq<Event>,
    pub receipts: Seq<(Txid, Seq<RawOperation>)>,
}

impl LedgerState {
    /// Every record ever written keeps the ledger's invariants.
    pub open spec fn wf(self) -> bool {
        &&& forall|i: int| 0 <= i < self.tickers.len() ==> ticker_ok(#[trigger] self.tickers[i])
        &&& forall|i: int|
            0 <= i < self.balances.len() ==> balance_ok(#[trigger] self.balances[i])
    }
}

impl View for Ledger {
    type V = LedgerState;

    open spec fn view(&self) -> LedgerState {
        LedgerState {
            height: self.height,
            time: self.time,
            tickers: self.tickers@,
            balances: self.balances@,
            transfers: self.transfers@,
            events: self.events@,
            receipts: self.receipts@.map_values(|r: Receipt| (r.txid, r.operations@)),
        }
    }
}

pub proof fn lemma_find_ticker_ok(s: Seq<TickerRecord>, tick: Tick)
    requires
        forall|i: int| 0 <= i < s.len() ==> ticker_ok(#[trigger] s[i]),
    ensures
        find_ticker(s, tick) matches Some(t) ==> ticker_ok(t),
    decreases s.len(),
{
    if s.len() > 0 && s.last().tick != tick {
        lemma_find_ticker_ok(s.drop_last(), tick);
    }
}

pub proof fn lemma_balance_of_ok(s: Seq<BalanceRecord>, tick: Tick, owner: ScriptKey)
    requires
        forall|i: int| 0 <= i < s.len() ==> balance_ok(#[trigger] s[i]),
    ensures
        balance_ok(balance_of(s, tick, owner)),
    decreases s.len(),
{
    if s.len() > 0 && !(s.last().tick == tick && s.last().owner == owner) {
        lemma_balance_of_ok(s.drop_last(), tick, owner);
    }
}

/// Which rule, if any, a message breaks against the ledger `l`.
pub open spec fn validate_spec(l: LedgerState, m: Message) -> Option<Rejection> {
    match m.op {
        Operation::Deploy { tick: None, .. } | Operation::Mint { tick: None, .. }
        | Operation::InscribeTransfer { tick: None, .. } => Some(Rejection::InvalidTick),
        Operation::Deploy { tick: Some(tick), supply, limit, decimal } => {
            if find_ticker(l.tickers, tick) is Some {
                Some(Rejection::AlreadyDeployed)
            } else if supply == 0 || supply > MAX_SUPPLY {
                Some(Rejection::InvalidSupply)
            } else if limit == 0 || limit > MAX_SUPPLY {
                Some(Rejection::InvalidLimit)
            } else if decimal == 0 || decimal > MAX_DECIMAL as u128 {
                Some(Rejection::InvalidDecimal)
            } else {
                None
            }
        },
        Operation::Mint { tick: Some(tick), amount } => match find_ticker(l.tickers, tick) {
            None => Some(Rejection::UnknownTicker),
            Some(t) => {
                if amount == 0 {
                    Some(Rejection::InvalidAmount)
                } else if amount > t.limit_per_mint {
                    Some(Rejection::ExceedsMintLimit)
                } else if t.minted + amount > t.supply {
                    Some(Rejection::SupplyExhausted)
                } else if balance_of(l.balances, tick, m.to).overall_balance + amount > u128::MAX {
                    Some(Rejection::BalanceOverflow)
                } else {
                    None
                }
            },
        },
        Operation::InscribeTransfer { tick: Some(tick), amount } => match find_ticker(
            l.tickers,
            tick,
        ) {
            None => Some(Rejection::UnknownTicker),
            Some(_) => {
                if amount == 0 {
                    Some(Rejection::InvalidAmount)
                } else if available_spec(balance_of(l.balances, tick, m.to)) < amount {
                    Some(Rejection::InsufficientBalance)
                } else {
                    None
                }
            },
        },
        Operation::Transfer { .. } => match find_transfer(l.transfers, m.inscription_id) {
            None => Some(Rejection::TransferNotFound),
            Some(r) => {
                if r.spent {
                    Some(Rejection::TransferSpent)
                } else if balance_of(l.balances, r.tick, r.owner).transferable_balance < r.amount {
                    Some(Rejection::InsufficientBalance)
                } else if r.owner != m.to && balance_of(l.balances, r.tick, m.to).overall_balance
                    + r.amount > u128::MAX {
                    Some(Rejection::BalanceOverflow)
                } else {
                    None
                }
            },
        },
    }
}

/// The effect on the ledger of a message that passed validation.
pub open spec fn apply_spec(l: LedgerState, m: Message) -> LedgerState {
    match m.op {
        Operation::Deploy { tick, supply, limit, decimal } => LedgerState {
            tickers: l.tickers.push(
                TickerRecord {
                    tick: tick.unwrap(),
                    inscription_id: m.inscription_id,
                    supply,
                    limit_per_mint: limit,
                    decimal: decimal as u8,
                    deploy_by: m.to,
                    deployed_number: l.height,
                    deployed_timestamp: l.time,
                    minted: 0,
                },
            ),
            ..l
        },
        Operation::Mint { tick, amount } => {
            let tick = tick.unwrap();
            let t = find_ticker(l.tickers, tick).unwrap();
            let b = balance_of(l.balances, tick, m.to);
            LedgerState {
                tickers: l.tickers.push(TickerRecord { minted: (t.minted + amount) as u128, ..t }),
                balances: l.balances.push(
                    BalanceRecord { overall_balance: (b.overall_balance + amount) as u128, ..b },
                ),
                ..l
            }
        },
        Operation::InscribeTransfer { tick, amount } => {
            let tick = tick.unwrap();
            let b = balance_of(l.balances, tick, m.to);
            LedgerState {
                balances: l.balances.push(
                    BalanceRecord {
                        transferable_balance: (b.transferable_balance + amount) as u128,
                        ..b
                    },
                ),
                transfers: l.transfers.push(
                    TransferableRecord {
                        inscription_id: m.inscription_id,
                        tick,
                        amount,
                        owner: m.to,
                        spent: false,
                    },
                ),
                ..l
            }
        },
        Operation::Transfer { .. } => {
            let r = find_transfer(l.transfers, m.inscription_id).unwrap();
            let s = balance_of(l.balances, r.tick, r.owner);
            let transfers = l.transfers.push(TransferableRecord { spent: true, ..r });
            if m.to == r.owner {
                LedgerState {
                    balances: l.balances.push(
                        BalanceRecord {
                            transferable_balance: (s.transferable_balance - r.amount) as u128,
                            ..s
                        },
                    ),
                    transfers,
                    ..l
                }
            } else {
                let c = balance_of(l.balances, r.tick, m.to);
                LedgerState {
                    balances: l.balances.push(
                        BalanceRecord {
                            transferable_balance: (s.transferable_balance - r.amount) as u128,
                            overall_balance: (s.overall_balance - r.amount) as u128,
                            ..s
                        },
                    ).push(
                        BalanceRecord { overall_balance: (c.overall_balance + r.amount) as u128, ..c },
                    ),
                    transfers,
                    ..l
                }
            }
        },
    }
}

/// The rejection that execution records: the resolver's, or else the
/// ledger's verdict at execution time.
pub open spec fn outcome_spec(l: LedgerState, m: Message) -> Option<Rejection> {
    if m.rejection is Some {
        m.rejection
    } else {
        validate_spec(l, m)
    }
}

pub open spec fn event_of(m: Message, rejection: Option<Rejection>) -> Event {
    Event {
        txid: m.txid,
        inscription_id: m.inscription_id,
        from: m.from,
        to: m.to,
        op: m.op,
        rejection,
    }
}

/// Executing a message: apply it when valid, and record an event either way.
pub open spec fn execute_spec(l: LedgerState, m: Message) -> LedgerState {
    let rejection = outcome_spec(l, m);
    let l2 = if rejection is None {
        apply_spec(l, m)
    } else {
        l
    };
    LedgerState { events: l2.events.push(event_of(m, rejection)), ..l2 }
}

/// A copy of a transaction's raw operations.
pub fn copy_operations(ops: &Vec<RawOperation>) -> (r: Vec<RawOperation>)
    ensures
        r@ == ops@,
{
    let mut r: Vec<RawOperation> = Vec::new();
    let mut i: usize = 0;
    while i < ops.len()
        invariant
            i <= ops.len(),
            r@ == ops@.take(i as int),
        decreases ops.len() - i,
    {
        assert(ops@.take(i + 1) =~= ops@.take(i as int).push(ops@[i as int]));
        r.push(ops[i]);
        i = i + 1;
    }
    assert(ops@.take(ops.len() as int) =~= ops@);
    r
}

/// The operations last kept for `txid` in the audit table.
pub open spec fn find_receipt(s: Seq<(Txid, Seq<RawOperation>)>, txid: Txid) -> Option<
    Seq<RawOperation>,
>
    decreases s.len(),
{
    if s.len() == 0 {
        None
    } else if s.last().0 == txid {
        Some(s.last().1)
    } else {
        find_receipt(s.drop_last(), txid)
    }
}

impl Ledger {
    /// The raw operations last kept for `txid`: indexing a transaction again
    /// replaces what was kept for it.
    pub fn receipt(&self, txid: &Txid) -> (r: Option<Vec<RawOperation>>)
        ensures
            find_receipt(self@.receipts, *txid) is None <==> r is None,
            r matches Some(v) ==> find_receipt(self@.receipts, *txid) == Some(v@),
    {
        let ghost all = self@.receipts;
        let mut i: usize = self.receipts.len();
        assert(all.take(i as int) =~= all);
        while i > 0
            invariant
                i <= self.receipts.len(),
                all == self@.receipts,
                all.len() == self.receipts@.len(),
                find_receipt(all, *txid) == find_receipt(all.take(i as int), *txid),
            decreases i,
        {
            assert(all.take(i as int).drop_last() =~= all.take(i - 1));
            assert(all[i - 1] == (self.receipts@[i - 1].txid, self.receipts@[i - 1].operations@));
            if bytes32_eq(&self.receipts[i - 1].txid, txid) {
                return Some(copy_operations(&self.receipts[i - 1].operations));
            }
            i = i - 1;
        }
        None
    }

    /// An empty ledger at the given chain height and block time.
    pub fn new(height: u64, time: u32) -> (r: Ledger)
        ensures
            r@.height == height,
            r@.time == time,
            r@.tickers.len() == 0,
            r@.balances.len() == 0,
            r@.transfers.len() == 0,
            r@.events.len() == 0,
            r@.receipts.len() == 0,
            r.summaries@.len() == 0,
            r@.wf(),
    {
        Ledger {
            height,
            time,
            tickers: Vec::new(),
            balances: Vec::new(),
            transfers: Vec::new(),
            events: Vec::new(),
            receipts: Vec::new(),
            summaries: Vec::new(),
        }
    }

    /// Which rule, if any, `m` breaks against the current tables.
    pub fn validate(&self, m: &Message) -> (r: Option<Rejection>)
        requires
            self@.wf(),
        ensures
            r == validate_spec(self@, *m),
    {
        match m.op {
            Operation::Deploy { tick: None, .. } | Operation::Mint { tick: None, .. }
            | Operation::InscribeTransfer { tick: None, .. } => Some(Rejection::InvalidTick),
            Operation::Deploy { tick: Some(tick), supply, limit, decimal } => {
                if lookup_ticker(&self.tickers, &tick).is_some() {
                    Some(Rejection::AlreadyDeployed)
                } else if supply == 0 || supply > MAX_SUPPLY {
                    Some(Rejection::InvalidSupply)
                } else if limit == 0 || limit > MAX_SUPPLY {
                    Some(Rejection::InvalidLimit)
                } else if decimal == 0 || decimal > MAX_DECIMAL as u128 {
                    Some(Rejection::InvalidDecimal)
                } else {
                    None
                }
            },
            Operation::Mint { tick: Some(tick), amount } => match lookup_ticker(
                &self.tickers,
                &tick,
            ) {
                None => Some(Rejection::UnknownTicker),
                Some(t) => {
                    proof {
                        lemma_find_ticker_ok(self.tickers@, tick);
                    }
                    if amount == 0 {
                        Some(Rejection::InvalidAmount)
                    } else if amount > t.limit_per_mint {
                        Some(Rejection::ExceedsMintLimit)
                    } else if t.minted + amount > t.supply {
                        Some(Rejection::SupplyExhausted)
                    } else {
                        let b = get_balance(&self.balances, &tick, &m.to);
                        if amount > u128::MAX - b.overall_balance {
                            Some(Rejection::BalanceOverflow)
                        } else {
                            None
                        }
                    }
                },
            },
            Operation::InscribeTransfer { tick: Some(tick), amount } => match lookup_ticker(
                &self.tickers,
                &tick,
            ) {
                None => Some(Rejection::UnknownTicker),
                Some(_) => {
                    let b = get_balance(&self.balances, &tick, &m.to);
                    proof {
                        lemma_balance_of_ok(self.balances@, tick, m.to);
                    }
                    if amount == 0 {
                        Some(Rejection::InvalidAmount)
                    } else if b.overall_balance - b.transferable_balance < amount {
                        Some(Rejection::InsufficientBalance)
                    } else {
                        None
                    }
                },
            },
            Operation::Transfer { .. } => match lookup_transfer(&self.transfers, &m.inscription_id) {
                None => Some(Rejection::TransferNotFound),
                Some(r) => {
                    if r.spent {
                        Some(Rejection::TransferSpent)
                    } else {
                        let s = get_balance(&self.balances, &r.tick, &r.owner);
                        if s.transferable_balance < r.amount {
                            Some(Rejection::InsufficientBalance)
                        } else if !bytes32_eq(&r.owner, &m.to) {
                            let c = get_balance(&self.balances, &r.tick, &m.to);
                            if r.amount > u128::MAX - c.overall_balance {
                                Some(Rejection::BalanceOverflow)
                            } else {
                                None
                            }
                        } else {
                            None
                        }
                    }
                },
            },
        }
    }

    fn apply(&mut self, m: &Message)
        requires
            old(self)@.wf(),
            validate_spec(old(self)@, *m) is None,
        ensures
            final(self)@ == apply_spec(old(self)@, *m),
            final(self)@.wf(),
            final(self).summaries@ == old(self).summaries@,
    {
        match m.op {
            Operation::Deploy { tick, supply, limit, decimal } => {
                let t = TickerRecord {
                    tick: tick.unwrap(),
                    inscription_id: m.inscription_id,
                    supply,
                    limit_per_mint: limit,
                    decimal: decimal as u8,
                    deploy_by: m.to,
                    deployed_number: self.height,
                    deployed_timestamp: self.time,
                    minted: 0,
                };
                self.tickers.push(t);
            },
            Operation::Mint { tick, amount } => {
                let tick = tick.unwrap();
                let t = lookup_ticker(&self.tickers, &tick).unwrap();
                let b = get_balance(&self.balances, &tick, &m.to);
                proof {
                    lemma_find_ticker_ok(self.tickers@, tick);
                    lemma_balance_of_ok(self.balances@, tick, m.to);
                }
                self.tickers.push(TickerRecord { minted: t.minted + amount, ..t });
                self.balances.push(BalanceRecord { overall_balance: b.overall_balance + amount, ..b });
            },
            Operation::InscribeTransfer { tick, amount } => {
                let tick = tick.unwrap();
                let b = get_balance(&self.balances, &tick, &m.to);
                proof {
                    lemma_balance_of_ok(self.balances@, tick, m.to);
                }
                self.balances.push(
                    BalanceRecord { transferable_balance: b.transferable_balance + amount, ..b },
                );
                self.transfers.push(
                    TransferableRecord {
                        inscription_id: m.inscription_id,
                        tick,
                        amount,
                        owner: m.to,
                        spent: false,
                    },
                );
            },
            Operation::Transfer { .. } => {
                let r = lookup_transfer(&self.transfers, &m.inscription_id).unwrap();
                let s = get_balance(&self.balances, &r.tick, &r.owner);
                proof {
                    lemma_balance_of_ok(self.balances@, r.tick, r.owner);
                }
                self.transfers.push(TransferableRecord { spent: true, ..r });
                if bytes32_eq(&m.to, &r.owner) {
                    self.balances.push(
                        BalanceRecord {
                            transferable_balance: s.transferable_balance - r.amount,
                            ..s
                        },
                    );
                } else {
                    let c = get_balance(&self.balances, &r.tick, &m.to);
                    proof {
                        lemma_balance_of_ok(self.balances@, r.tick, m.to);
                    }
                    self.balances.push(
                        BalanceRecord {
                            transferable_balance: s.transferable_balance - r.amount,
                            overall_balance: s.overall_balance - r.amount,
                            ..s
                        },
                    );
                    self.balances.push(
                        BalanceRecord { overall_balance: c.overall_balance + r.amount, ..c },
                    );
                }
            },
        }
    }

    /// Executes `m`: applies it where it is valid now, and appends its event.
    pub fn execute(&mut self, m: &Message)
        requires
            old(self)@.wf(),
        ensures
            final(self)@ == execute_spec(old(self)@, *m),
            final(self)@.wf(),
            final(self).summaries@ == old(self).summaries@,
            final(self).height == old(self).height,
    {
        let rejection = if m.rejection.is_some() {
            m.rejection
        } else {
            self.validate(m)
        };
        if rejection.is_none() {
            self.apply(m);
        }
        let ghost mid = self@;
        self.events.push(
            Event {
                txid: m.txid,
                inscription_id: m.inscription_id,
                from: m.from,
                to: m.to,
                op: m.op,
                rejection,
            },
        );
        assert(self@.tickers == mid.tickers && self@.balances == mid.balances);
    }
}

} // verus!
