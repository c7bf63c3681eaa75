//! Per-block orchestration: coinbase filtering, resolution and execution of
//! each transaction's messages, the collaborating pipelines, and the block's
//! summary record.
use crate::chain::{is_coinbase_spec, header_hash_spec, BlockData, Transaction, Txid};
use crate::context::{
    copy_operations, execute_spec, BlockSummary, Ledger, LedgerState, Receipt, SecondaryRecord,
};
use crate::ledger::bytes32_eq;
use crate::message::{Message, RawOperation, TxOperations};
use crate::resolve::{resolve, resolve_spec};
use vstd::prelude::*;

verus! {

/// Which stages run, and from which chain height.
#[derive(Clone, Copy, Debug)]
pub struct ProtocolConfig {
    /// Keep each transaction's raw operations for audit.
    pub enable_ord_receipts: bool,
    /// The height from which raw operations are kept.
    pub first_inscription_height: u64,
    /// Run the bitmap claim pass after each block.
    pub enable_index_bitmap: bool,
    /// The height from which the secondary pipeline runs; `None` disables it.
    pub first_brc20_height: Option<u64>,
}

/// The secondary protocol pipeline, run per transaction. Any error aborts
/// the block.
pub trait SecondaryResolver {
    fn resolve(
        &mut self,
        ledger: &Ledger,
        block_hash: &[u8; 32],
        tx: &Transaction,
        operations: &Vec<RawOperation>,
    ) -> Result<Vec<SecondaryRecord>, String>;
}

/// The block-wide bitmap claim pass; returns how many claims it indexed.
pub trait BitmapIndexer {
    fn index(&mut self, ledger: &Ledger, operations: &Vec<TxOperations>) -> Result<u64, String>;
}

/// A stand-in for a collaborating pipeline that the configuration disables:
/// it yields nothing and never fails.
pub struct Disabled;

impl SecondaryResolver for Disabled {
    fn resolve(
        &mut self,
        ledger: &Ledger,
        block_hash: &[u8; 32],
        tx: &Transaction,
        operations: &Vec<RawOperation>,
    ) -> Result<Vec<SecondaryRecord>, String> {
        Ok(Vec::new())
    }
}

impl BitmapIndexer for Disabled {
    fn index(&mut self, ledger: &Ledger, operations: &Vec<TxOperations>) -> Result<u64, String> {
        Ok(0)
    }
}

/// Why indexing a block failed. The caller must discard the ledger.
#[derive(Debug)]
pub enum IndexError {
    Secondary(String),
    Bitmap(String),
}

/// The latest operations entry for `txid`.
pub open spec fn find_ops(s: Seq<TxOperations>, txid: Txid) -> Option<Seq<RawOperation>>
    decreases s.len(),
{
    if s.len() == 0 {
        None
    } else if s.last().txid == txid {
        Some(s.last().operations@)
    } else {
        find_ops(s.drop_last(), txid)
    }
}

/// Executes messages `0..n` in order.
pub open spec fn execute_all_spec(l: LedgerState, msgs: Seq<Message>, n: nat) -> LedgerState
    decreases n,
{
    if n == 0 {
        l
    } else {
        execute_spec(execute_all_spec(l, msgs, (n - 1) as nat), msgs[n - 1])
    }
}

/// Whether the raw operations of a transaction are kept at the ledger's height.
pub open spec fn keeps_receipts(c: ProtocolConfig, l: LedgerState) -> bool {
    c.enable_ord_receipts && l.height >= c.first_inscription_height
}

/// The effect of one transaction on the ledger.
pub open spec fn index_tx_spec(
    c: ProtocolConfig,
    l: LedgerState,
    tx: &Transaction,
    entries: Seq<TxOperations>,
) -> LedgerState {
    match find_ops(entries, tx.txid) {
        Some(ops) if !is_coinbase_spec(tx) && ops.len() > 0 => {
            let l1 = if keeps_receipts(c, l) {
                LedgerState { receipts: l.receipts.push((tx.txid, ops)), ..l }
            } else {
                l
            };
            let msgs = resolve_spec(l1, tx.txid, ops);
            execute_all_spec(l1, msgs, msgs.len())
        },
        _ => l,
    }
}

/// The effect of transactions `0..n` of a block, in block order.
pub open spec fn index_txs_spec(
    c: ProtocolConfig,
    l: LedgerState,
    txs: Seq<Transaction>,
    entries: Seq<TxOperations>,
    n: nat,
) -> LedgerState
    decreases n,
{
    if n == 0 {
        l
    } else {
        index_tx_spec(c, index_txs_spec(c, l, txs, entries, (n - 1) as nat), &txs[n - 1], entries)
    }
}

pub open spec fn index_block_spec(
    c: ProtocolConfig,
    l: LedgerState,
    block: &BlockData,
    entries: Seq<TxOperations>,
) -> LedgerState {
    index_txs_spec(c, l, block.txdata@, entries, block.txdata@.len())
}

/// The index of the latest operations entry for `txid`.
pub fn lookup_ops(entries: &Vec<TxOperations>, txid: &Txid) -> (r: Option<usize>)
    ensures
        match r {
            Some(i) => i < entries@.len() && find_ops(entries@, *txid) == Some(
                entries@[i as int].operations@,
            ),
            None => find_ops(entries@, *txid) is None,
        },
{
    let mut i: usize = entries.len();
    assert(entries@.take(i as int) =~= entries@);
    while i > 0
        invariant
            i <= entries.len(),
            find_ops(entries@, *txid) == find_ops(entries@.take(i as int), *txid),
        decreases i,
    {
        assert(entries@.take(i as int).drop_last() =~= entries@.take(i - 1));
        if bytes32_eq(&entries[i - 1].txid, txid) {
            return Some(i - 1);
        }
        i = i - 1;
    }
    None
}

/// Takes in the result of one secondary pipeline call: its records are
/// appended to `txs`, and its failure aborts the block.
pub fn collect_secondary(
    txs: &mut Vec<SecondaryRecord>,
    res: Result<Vec<SecondaryRecord>, String>,
) -> (r: Result<(), IndexError>)
    ensures
        r is Err <==> res is Err,
        res matches Ok(v) ==> final(txs)@ == old(txs)@ + v@,
        res is Err ==> final(txs)@ == old(txs)@,
{
    match res {
        Ok(v) => {
            let mut v = v;
            txs.append(&mut v);
            Ok(())
        },
        Err(e) => Err(IndexError::Secondary(e)),
    }
}

/// Takes in the result of the bitmap pass: its failure aborts the block.
pub fn bitmap_outcome(res: Result<u64, String>) -> (r: Result<u64, IndexError>)
    ensures
        r is Err <==> res is Err,
        res matches Ok(n) ==> r matches Ok(m) && m == n,
{
    match res {
        Ok(n) => Ok(n),
        Err(e) => Err(IndexError::Bitmap(e)),
    }
}

/// Whether the secondary pipeline runs at the ledger's height.
pub open spec fn secondary_active(c: ProtocolConfig, height: u64) -> bool {
    c.first_brc20_height matches Some(h) && height >= h
}

pub struct ProtocolManager {
    pub config: ProtocolConfig,
}

impl ProtocolManager {
    pub fn new(config: ProtocolConfig) -> (r: Self)
        ensures
            r.config == config,
    {
        ProtocolManager { config }
    }

    fn execute_all(ledger: &mut Ledger, msgs: &Vec<Message>)
        requires
            old(ledger)@.wf(),
        ensures
            final(ledger)@ == execute_all_spec(old(ledger)@, msgs@, msgs@.len()),
            final(ledger)@.wf(),
            final(ledger).summaries@ == old(ledger).summaries@,
            final(ledger).height == old(ledger).height,
    {
        let mut i: usize = 0;
        while i < msgs.len()
            invariant
                i <= msgs.len(),
                ledger@ == execute_all_spec(old(ledger)@, msgs@, i as nat),
                ledger@.wf(),
                ledger.summaries@ == old(ledger).summaries@,
                ledger.height == old(ledger).height,
            decreases msgs.len() - i,
        {
            ledger.execute(&msgs[i]);
            i = i + 1;
        }
    }

    /// Indexes one transaction. Returns the index of its operations entry
    /// where the transaction was processed.
    fn index_tx(&self, ledger: &mut Ledger, tx: &Transaction, entries: &Vec<TxOperations>) -> (r:
        Option<usize>)
        requires
            old(ledger)@.wf(),
        ensures
            final(ledger)@ == index_tx_spec(self.config, old(ledger)@, tx, entries@),
            final(ledger)@.wf(),
            final(ledger).summaries@ == old(ledger).summaries@,
            final(ledger).height == old(ledger).height,
            match r {
                Some(i) => i < entries@.len() && find_ops(entries@, tx.txid) == Some(
                    entries@[i as int].operations@,
                ) && !is_coinbase_spec(tx) && entries@[i as int].operations@.len() > 0,
                None => !(find_ops(entries@, tx.txid) matches Some(ops) && !is_coinbase_spec(tx)
                    && ops.len() > 0),
            },
    {
        if tx.is_coinbase() {
            return None;
        }
        let i = match lookup_ops(entries, &tx.txid) {
            None => {
                return None;
            },
            Some(i) => i,
        };
        let ops = &entries[i].operations;
        if ops.len() == 0 {
            return None;
        }
        if self.config.enable_ord_receipts && ledger.height >= self.config.first_inscription_height {
            let ghost before = ledger@;
            let copy = copy_operations(ops);
            ledger.receipts.push(Receipt { txid: tx.txid, operations: copy });
            assert(ledger@.receipts =~= before.receipts.push((tx.txid, ops@)));
        }
        let msgs = resolve(ledger, &tx.txid, ops);
        Self::execute_all(ledger, &msgs);
        Some(i)
    }

    /// Indexes a block against `ledger`, whose height is the block's.
    ///
    /// On success the ledger holds the effect of every non-coinbase
    /// transaction with operations, in block order, and one new summary
    /// record. An error comes only from an enabled collaborating pipeline;
    /// the ledger must then be discarded.
    pub fn index_block<S: SecondaryResolver, B: BitmapIndexer>(
        &self,
        ledger: &mut Ledger,
        block: &BlockData,
        operations: &Vec<TxOperations>,
        secondary: &mut S,
        bitmap: &mut B,
    ) -> (r: Result<(), IndexError>)
        requires
            old(ledger)@.wf(),
        ensures
            final(ledger)@.wf(),
            r is Err ==> self.config.enable_index_bitmap || secondary_active(
                self.config,
                old(ledger).height,
            ),
            r is Ok && !secondary_active(self.config, old(ledger).height)
                ==> final(ledger).summaries@.last().txs@.len() == 0,
            r is Ok ==> {
                &&& final(ledger)@ == index_block_spec(self.config, old(ledger)@, block, operations@)
                &&& final(ledger).summaries@.len() == old(ledger).summaries@.len() + 1
                &&& final(ledger).summaries@.drop_last() == old(ledger).summaries@
                &&& final(ledger).summaries@.last().height == old(ledger).height
                &&& final(ledger).summaries@.last().block_hash@ == header_hash_spec(block.header)
                &&& final(ledger).summaries@.last().prev_block_hash == block.header.prev_blockhash
                &&& final(ledger).summaries@.last().time == block.header.time
            },
    {
        let block_hash = block.header.block_hash();
        let mut txs: Vec<SecondaryRecord> = Vec::new();
        let mut k: usize = 0;
        while k < block.txdata.len()
            invariant
                k <= block.txdata.len(),
                ledger@ == index_txs_spec(
                    self.config,
                    old(ledger)@,
                    block.txdata@,
                    operations@,
                    k as nat,
                ),
                ledger@.wf(),
                ledger.summaries@ == old(ledger).summaries@,
                ledger.height == old(ledger).height,
                block_hash@ == header_hash_spec(block.header),
                !secondary_active(self.config, old(ledger).height) ==> txs@.len() == 0,
            decreases block.txdata.len() - k,
        {
            let tx = &block.txdata[k];
            match self.index_tx(ledger, tx, operations) {
                None => {},
                Some(i) => {
                    match self.config.first_brc20_height {
                        None => {},
                        Some(h) => {
                            if ledger.height >= h {
                                let res = secondary.resolve(
                                    ledger,
                                    &block_hash,
                                    tx,
                                    &operations[i].operations,
                                );
                                match collect_secondary(&mut txs, res) {
                                    Ok(()) => {},
                                    Err(e) => {
                                        return Err(e);
                                    },
                                }
                            }
                        },
                    }
                },
            }
            k = k + 1;
        }
        if self.config.enable_index_bitmap {
            let res = bitmap.index(ledger, operations);
            match bitmap_outcome(res) {
                Ok(_) => {},
                Err(e) => {
                    return Err(e);
                },
            }
        }
        let ghost before = ledger.summaries@;
        ledger.summaries.push(
            BlockSummary {
                height: ledger.height,
                block_hash,
                prev_block_hash: block.header.prev_blockhash,
                time: block.header.time,
                txs,
            },
        );
        assert(ledger.summaries@.drop_last() =~= before);
        Ok(())
    }
}

} // verus!
