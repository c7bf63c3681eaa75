//! Properties of block indexing that hold for all inputs.
use crate::chain::{is_coinbase_spec, BlockData, Transaction, Txid};
use crate::context::{
    apply_spec, event_of, validate_spec, execute_spec, lemma_balance_of_ok, lemma_find_ticker_ok, outcome_spec, LedgerState,
};
use crate::ledger::{
    balance_of, find_ticker, find_transfer, BalanceRecord, ScriptKey, Tick,
    TickerRecord,
};
use crate::manager::{
    execute_all_spec, find_ops, index_block_spec, index_tx_spec, index_txs_spec, keeps_receipts,
    ProtocolConfig,
};
use crate::resolve::{checked, message_of, resolve_spec};
use crate::message::{
    Action, Event, Message, Operation, Payload, RawOperation, Rejection, TxOperations,
};
use vstd::prelude::*;

verus! {

/// A ledger with no records, at the given height and block time.
pub open spec fn is_fresh(l: LedgerState) -> bool {
    &&& l.tickers.len() == 0
    &&& l.balances.len() == 0
    &&& l.transfers.len() == 0
    &&& l.events.len() == 0
    &&& l.receipts.len() == 0
}

/// Indexing the same block and operations against two fresh ledgers at the
/// same height and time gives the same tables and the same events.
pub proof fn lemma_index_block_deterministic(
    c: ProtocolConfig,
    l1: LedgerState,
    l2: LedgerState,
    block: &BlockData,
    entries: Seq<TxOperations>,
)
    requires
        is_fresh(l1),
        is_fresh(l2),
        l1.height == l2.height,
        l1.time == l2.time,
    ensures
        index_block_spec(c, l1, block, entries) == index_block_spec(c, l2, block, entries),
{
    assert(l1.tickers =~= l2.tickers);
    assert(l1.balances =~= l2.balances);
    assert(l1.transfers =~= l2.transfers);
    assert(l1.events =~= l2.events);
    assert(l1.receipts =~= l2.receipts);
    assert(l1 == l2);
}

/// A coinbase transaction changes nothing: no receipt, no message, no event,
/// whatever operations are recorded for it.
pub proof fn lemma_coinbase_excluded(
    c: ProtocolConfig,
    l: LedgerState,
    tx: &Transaction,
    entries: Seq<TxOperations>,
)
    requires
        is_coinbase_spec(tx),
    ensures
        index_tx_spec(c, l, tx, entries) == l,
{
}

/// A deploy of a symbol that is already deployed is recorded as invalid and
/// leaves the symbol's ticker record as it was.
pub proof fn lemma_deploy_once(l: LedgerState, m: Message, tick: Tick)
    requires
        find_ticker(l.tickers, tick) is Some,
        m.op matches Operation::Deploy { tick: t, .. } && t == Some(tick),
    ensures
        outcome_spec(l, m) is Some,
        execute_spec(l, m).events.last().rejection is Some,
        find_ticker(execute_spec(l, m).tickers, tick) == find_ticker(l.tickers, tick),
{
}

/// A mint beyond the remaining supply is rejected, never clipped: it is
/// recorded as invalid and the minted count stays as it was.
pub proof fn lemma_mint_over_supply_rejected(l: LedgerState, m: Message, tick: Tick, amount: u128)
    requires
        m.op == (Operation::Mint { tick: Some(tick), amount }),
        find_ticker(l.tickers, tick) matches Some(t) && t.minted + amount > t.supply,
    ensures
        outcome_spec(l, m) is Some,
        m.rejection is None ==> outcome_spec(l, m) == Some(Rejection::SupplyExhausted)
            || outcome_spec(l, m) == Some(Rejection::ExceedsMintLimit)
            || outcome_spec(l, m) == Some(Rejection::InvalidAmount),
        find_ticker(execute_spec(l, m).tickers, tick) == find_ticker(l.tickers, tick),
{
}

/// Executing any message keeps every record within the ledger's invariants:
/// each balance has `transferable <= overall`, and each ticker has
/// `minted <= supply`.
pub proof fn lemma_execute_keeps_invariant(l: LedgerState, m: Message)
    requires
        l.wf(),
    ensures
        execute_spec(l, m).wf(),
{
    match m.op {
        Operation::Mint { tick: Some(tick), .. } => {
            lemma_find_ticker_ok(l.tickers, tick);
            lemma_balance_of_ok(l.balances, tick, m.to);
        },
        Operation::InscribeTransfer { tick: Some(tick), .. } => {
            lemma_balance_of_ok(l.balances, tick, m.to);
        },
        Operation::Transfer { .. } => {
            if let Some(r) = find_transfer(l.transfers, m.inscription_id) {
                lemma_balance_of_ok(l.balances, r.tick, r.owner);
                lemma_balance_of_ok(l.balances, r.tick, m.to);
            }
        },
        _ => {},
    }
}

proof fn lemma_execute_all_keeps_invariant(l: LedgerState, msgs: Seq<Message>, n: nat)
    requires
        l.wf(),
    ensures
        execute_all_spec(l, msgs, n).wf(),
    decreases n,
{
    if n > 0 {
        lemma_execute_all_keeps_invariant(l, msgs, (n - 1) as nat);
        lemma_execute_keeps_invariant(execute_all_spec(l, msgs, (n - 1) as nat), msgs[n - 1]);
    }
}

proof fn lemma_index_txs_keeps_invariant(
    c: ProtocolConfig,
    l: LedgerState,
    txs: Seq<Transaction>,
    entries: Seq<TxOperations>,
    n: nat,
)
    requires
        l.wf(),
    ensures
        index_txs_spec(c, l, txs, entries, n).wf(),
    decreases n,
{
    if n > 0 {
        lemma_index_txs_keeps_invariant(c, l, txs, entries, (n - 1) as nat);
        let prev = index_txs_spec(c, l, txs, entries, (n - 1) as nat);
        let tx = &txs[n - 1];
        if let Some(ops) = find_ops(entries, tx.txid) {
            let l1 = if keeps_receipts(c, prev) {
                LedgerState { receipts: prev.receipts.push((tx.txid, ops)), ..prev }
            } else {
                prev
            };
            let msgs = resolve_spec(l1, tx.txid, ops);
            lemma_execute_all_keeps_invariant(l1, msgs, msgs.len());
        }
    }
}

/// Indexing a block keeps every balance within `0 <= transferable <= overall`
/// and every ticker's minted count within its supply.
pub proof fn lemma_index_block_keeps_invariant(
    c: ProtocolConfig,
    l: LedgerState,
    block: &BlockData,
    entries: Seq<TxOperations>,
)
    requires
        l.wf(),
    ensures
        index_block_spec(c, l, block, entries).wf(),
{
    lemma_index_txs_keeps_invariant(c, l, block.txdata@, entries, block.txdata@.len());
}

/// `b` is a later version of the ticker record `a`: every declared field is
/// kept, and the minted count has not gone down.
pub open spec fn ticker_extends(a: TickerRecord, b: TickerRecord) -> bool {
    &&& b.tick == a.tick
    &&& b.inscription_id == a.inscription_id
    &&& b.supply == a.supply
    &&& b.limit_per_mint == a.limit_per_mint
    &&& b.decimal == a.decimal
    &&& b.deploy_by == a.deploy_by
    &&& b.deployed_number == a.deployed_number
    &&& b.deployed_timestamp == a.deployed_timestamp
    &&& a.minted <= b.minted
}

proof fn lemma_find_ticker_key(s: Seq<TickerRecord>, tick: Tick)
    ensures
        find_ticker(s, tick) matches Some(r) ==> r.tick == tick,
    decreases s.len(),
{
    if s.len() > 0 {
        lemma_find_ticker_key(s.drop_last(), tick);
    }
}

proof fn lemma_find_ticker_push(s: Seq<TickerRecord>, x: TickerRecord, tick: Tick)
    ensures
        find_ticker(s.push(x), tick) == if x.tick == tick {
            Some(x)
        } else {
            find_ticker(s, tick)
        },
{
    assert(s.push(x).drop_last() =~= s);
}

/// Executing a message keeps a deployed symbol's record: no field but the
/// minted count changes, and that only grows.
pub proof fn lemma_execute_keeps_ticker(l: LedgerState, m: Message, tick: Tick)
    requires
        find_ticker(l.tickers, tick) is Some,
    ensures
        find_ticker(execute_spec(l, m).tickers, tick) matches Some(b) && ticker_extends(
            find_ticker(l.tickers, tick).unwrap(),
            b,
        ),
{
    let l2 = execute_spec(l, m);
    if outcome_spec(l, m) is None {
        match m.op {
            Operation::Deploy { tick: t, supply, limit, decimal } => {
                assert(validate_spec(l, m) is None);
                assert(t is Some && find_ticker(l.tickers, t.unwrap()) is None);
                assert(l2.tickers.last().tick == t.unwrap());
                lemma_find_ticker_push(l.tickers, l2.tickers.last(), tick);
                assert(l2.tickers == l.tickers.push(l2.tickers.last()));
                assert(find_ticker(l2.tickers, tick) == find_ticker(l.tickers, tick));
            },
            Operation::Mint { tick: t, amount } => {
                assert(validate_spec(l, m) is None);
                let r = find_ticker(l.tickers, t.unwrap()).unwrap();
                lemma_find_ticker_key(l.tickers, t.unwrap());
                assert(r.minted + amount <= r.supply);
                let x = TickerRecord { minted: (r.minted + amount) as u128, ..r };
                assert(l2.tickers == l.tickers.push(x));
                lemma_find_ticker_push(l.tickers, x, tick);
                assert(r.tick == t.unwrap());
                if t.unwrap() == tick {
                    assert(ticker_extends(r, x));
                }
            },
            _ => {
                assert(l2.tickers == l.tickers);
            },
        }
    } else {
        assert(l2.tickers == l.tickers);
    }
}

proof fn lemma_execute_all_keeps_ticker(l: LedgerState, msgs: Seq<Message>, n: nat, tick: Tick)
    requires
        find_ticker(l.tickers, tick) is Some,
    ensures
        find_ticker(execute_all_spec(l, msgs, n).tickers, tick) matches Some(b) && ticker_extends(
            find_ticker(l.tickers, tick).unwrap(),
            b,
        ),
    decreases n,
{
    if n > 0 {
        lemma_execute_all_keeps_ticker(l, msgs, (n - 1) as nat, tick);
        lemma_execute_keeps_ticker(execute_all_spec(l, msgs, (n - 1) as nat), msgs[n - 1], tick);
    }
}

proof fn lemma_index_txs_keeps_ticker(
    c: ProtocolConfig,
    l: LedgerState,
    txs: Seq<Transaction>,
    entries: Seq<TxOperations>,
    n: nat,
    tick: Tick,
)
    requires
        find_ticker(l.tickers, tick) is Some,
    ensures
        find_ticker(index_txs_spec(c, l, txs, entries, n).tickers, tick) matches Some(b)
            && ticker_extends(find_ticker(l.tickers, tick).unwrap(), b),
    decreases n,
{
    if n > 0 {
        lemma_index_txs_keeps_ticker(c, l, txs, entries, (n - 1) as nat, tick);
        let prev = index_txs_spec(c, l, txs, entries, (n - 1) as nat);
        let tx = &txs[n - 1];
        if let Some(ops) = find_ops(entries, tx.txid) {
            let l1 = if keeps_receipts(c, prev) {
                LedgerState { receipts: prev.receipts.push((tx.txid, ops)), ..prev }
            } else {
                prev
            };
            let msgs = resolve_spec(l1, tx.txid, ops);
            lemma_execute_all_keeps_ticker(l1, msgs, msgs.len(), tick);
        }
    }
}

/// Across a block, a symbol deployed before it keeps its ticker record: a
/// second deploy never overwrites it, and only the minted count changes, never
/// downwards.
pub proof fn lemma_index_block_keeps_ticker(
    c: ProtocolConfig,
    l: LedgerState,
    block: &BlockData,
    entries: Seq<TxOperations>,
    tick: Tick,
)
    requires
        find_ticker(l.tickers, tick) is Some,
    ensures
        find_ticker(index_block_spec(c, l, block, entries).tickers, tick) matches Some(b)
            && ticker_extends(find_ticker(l.tickers, tick).unwrap(), b),
{
    lemma_index_txs_keeps_ticker(c, l, block.txdata@, entries, block.txdata@.len(), tick);
}

proof fn lemma_resolve_txid(l: LedgerState, txid: Txid, ops: Seq<RawOperation>)
    ensures
        forall|j: int|
            0 <= j < resolve_spec(l, txid, ops).len() ==> (#[trigger] resolve_spec(
                l,
                txid,
                ops,
            )[j]).txid == txid,
    decreases ops.len(),
{
    if ops.len() > 0 {
        lemma_resolve_txid(l, txid, ops.drop_last());
    }
}

/// `b` keeps the events of `a` and adds only events of transaction `txid`.
pub open spec fn appends_events_of(a: Seq<Event>, b: Seq<Event>, txid: Txid) -> bool {
    &&& a.len() <= b.len()
    &&& forall|i: int| 0 <= i < a.len() ==> b[i] == a[i]
    &&& forall|i: int| a.len() <= i < b.len() ==> (#[trigger] b[i]).txid == txid
}

proof fn lemma_execute_all_events(l: LedgerState, msgs: Seq<Message>, n: nat, txid: Txid)
    requires
        n <= msgs.len(),
        forall|j: int| 0 <= j < msgs.len() ==> (#[trigger] msgs[j]).txid == txid,
    ensures
        appends_events_of(l.events, execute_all_spec(l, msgs, n).events, txid),
    decreases n,
{
    if n > 0 {
        lemma_execute_all_events(l, msgs, (n - 1) as nat, txid);
        let prev = execute_all_spec(l, msgs, (n - 1) as nat);
        let m = msgs[n - 1];
        let next = execute_spec(prev, m);
        let l2 = if outcome_spec(prev, m) is None {
            apply_spec(prev, m)
        } else {
            prev
        };
        assert(l2.events == prev.events);
        assert(next.events == prev.events.push(event_of(m, outcome_spec(prev, m))));
    }
}

/// Every event in `b` beyond those of `a` belongs to a transaction among the
/// first `n` of `txs` that is not a coinbase.
pub open spec fn events_from_non_coinbase(
    a: Seq<Event>,
    b: Seq<Event>,
    txs: Seq<Transaction>,
    n: nat,
) -> bool {
    &&& a.len() <= b.len()
    &&& forall|i: int| 0 <= i < a.len() ==> b[i] == a[i]
    &&& forall|i: int|
        a.len() <= i < b.len() ==> exists|k: int|
            0 <= k < n && !is_coinbase_spec(&txs[k]) && #[trigger] txs[k].txid == (
            #[trigger] b[i]).txid
}

proof fn lemma_index_txs_events(
    c: ProtocolConfig,
    l: LedgerState,
    txs: Seq<Transaction>,
    entries: Seq<TxOperations>,
    n: nat,
)
    requires
        n <= txs.len(),
    ensures
        events_from_non_coinbase(l.events, index_txs_spec(c, l, txs, entries, n).events, txs, n),
    decreases n,
{
    if n > 0 {
        lemma_index_txs_events(c, l, txs, entries, (n - 1) as nat);
        let prev = index_txs_spec(c, l, txs, entries, (n - 1) as nat);
        let next = index_txs_spec(c, l, txs, entries, n);
        let tx = &txs[n - 1];
        if let Some(ops) = find_ops(entries, tx.txid) {
            if !is_coinbase_spec(tx) && ops.len() > 0 {
                let l1 = if keeps_receipts(c, prev) {
                    LedgerState { receipts: prev.receipts.push((tx.txid, ops)), ..prev }
                } else {
                    prev
                };
                let msgs = resolve_spec(l1, tx.txid, ops);
                lemma_resolve_txid(l1, tx.txid, ops);
                lemma_execute_all_events(l1, msgs, msgs.len(), tx.txid);
                assert forall|i: int| l.events.len() <= i < next.events.len() implies exists|k: int|
                    0 <= k < n && !is_coinbase_spec(&txs[k]) && #[trigger] txs[k].txid == (
                    #[trigger] next.events[i]).txid by {
                    if i < prev.events.len() {
                        let k = choose|k: int|
                            0 <= k < n - 1 && !is_coinbase_spec(&txs[k]) && #[trigger] txs[k].txid
                                == (#[trigger] prev.events[i]).txid;
                        assert(txs[k].txid == next.events[i].txid);
                    } else {
                        assert(txs[n - 1].txid == next.events[i].txid);
                    }
                }
            }
        }
    }
}

/// Indexing a block keeps every earlier event, and each event it adds belongs
/// to a transaction of the block that is not a coinbase: a coinbase
/// transaction gets no event, whatever operations are recorded for it.
pub proof fn lemma_index_block_events(
    c: ProtocolConfig,
    l: LedgerState,
    block: &BlockData,
    entries: Seq<TxOperations>,
)
    ensures
        events_from_non_coinbase(
            l.events,
            index_block_spec(c, l, block, entries).events,
            block.txdata@,
            block.txdata@.len(),
        ),
{
    lemma_index_txs_events(c, l, block.txdata@, entries, block.txdata@.len());
}

proof fn lemma_balance_of_push(s: Seq<BalanceRecord>, x: BalanceRecord, tick: Tick, owner: ScriptKey)
    ensures
        balance_of(s.push(x), tick, owner) == if x.tick == tick && x.owner == owner {
            x
        } else {
            balance_of(s, tick, owner)
        },
{
    assert(s.push(x).drop_last() =~= s);
}

proof fn lemma_balance_of_key(s: Seq<BalanceRecord>, tick: Tick, owner: ScriptKey)
    ensures
        balance_of(s, tick, owner).tick == tick,
        balance_of(s, tick, owner).owner == owner,
    decreases s.len(),
{
    if s.len() > 0 {
        lemma_balance_of_key(s.drop_last(), tick, owner);
    }
}

/// The order of execution carries meaning: a holder with nothing who is
/// minted 50 and then inscribes a transfer of 30 has the transfer accepted,
/// while the same two messages in the other order reject the transfer.
pub proof fn lemma_order_matters(
    l: LedgerState,
    mint: Message,
    inscribe: Message,
    tick: Tick,
    holder: ScriptKey,
)
    requires
        l.wf(),
        find_ticker(l.tickers, tick) matches Some(t) && 50 <= t.limit_per_mint && t.minted + 50
            <= t.supply,
        balance_of(l.balances, tick, holder).overall_balance == 0,
        mint.op == (Operation::Mint { tick: Some(tick), amount: 50 }),
        mint.to == holder,
        mint.rejection is None,
        inscribe.op == (Operation::InscribeTransfer { tick: Some(tick), amount: 30 }),
        inscribe.to == holder,
        inscribe.rejection is None,
    ensures
        validate_spec(l, mint) is None,
        validate_spec(execute_spec(l, mint), inscribe) is None,
        validate_spec(l, inscribe) == Some(Rejection::InsufficientBalance),
        validate_spec(execute_spec(l, inscribe), mint) is None,
        balance_of(execute_spec(execute_spec(l, mint), inscribe).balances, tick, holder)
            .overall_balance == 50,
        balance_of(execute_spec(execute_spec(l, inscribe), mint).balances, tick, holder)
            .overall_balance == 50,
        execute_spec(execute_spec(l, mint), inscribe).events.last().rejection is None,
        balance_of(execute_spec(execute_spec(l, mint), inscribe).balances, tick, holder)
            .transferable_balance == 30,
        execute_spec(execute_spec(l, inscribe), mint).events[l.events.len() as int].rejection
            == Some(Rejection::InsufficientBalance),
        balance_of(execute_spec(execute_spec(l, inscribe), mint).balances, tick, holder)
            .transferable_balance == 0,
{
    let b0 = balance_of(l.balances, tick, holder);
    lemma_balance_of_ok(l.balances, tick, holder);
    lemma_balance_of_key(l.balances, tick, holder);
    let t = find_ticker(l.tickers, tick).unwrap();
    lemma_find_ticker_ok(l.tickers, tick);
    lemma_find_ticker_key(l.tickers, tick);
    // Mint first.
    let l1 = execute_spec(l, mint);
    assert(validate_spec(l, mint) is None);
    let bm = BalanceRecord { overall_balance: (b0.overall_balance + 50) as u128, ..b0 };
    let tm = TickerRecord { minted: (t.minted + 50) as u128, ..t };
    assert(l1.balances == l.balances.push(bm));
    assert(l1.tickers == l.tickers.push(tm));
    lemma_balance_of_push(l.balances, bm, tick, holder);
    lemma_find_ticker_push(l.tickers, tm, tick);
    let l2 = execute_spec(l1, inscribe);
    assert(validate_spec(l1, inscribe) is None);
    let bi = BalanceRecord { transferable_balance: (bm.transferable_balance + 30) as u128, ..bm };
    assert(l2.balances == l1.balances.push(bi));
    lemma_balance_of_push(l1.balances, bi, tick, holder);
    // Transfer first.
    let r1 = execute_spec(l, inscribe);
    assert(validate_spec(l, inscribe) == Some(Rejection::InsufficientBalance));
    assert(r1.balances == l.balances);
    assert(r1.tickers == l.tickers);
    assert(r1.events[l.events.len() as int].rejection == Some(Rejection::InsufficientBalance));
    let r2 = execute_spec(r1, mint);
    assert(validate_spec(r1, mint) is None);
    assert(r2.balances == l.balances.push(bm));
    assert(r2.events[l.events.len() as int] == r1.events[l.events.len() as int]);
}

proof fn lemma_resolve_one(l: LedgerState, txid: Txid, op: RawOperation)
    ensures
        resolve_spec(l, txid, seq![op]) == match message_of(l, txid, op) {
            Some(m) => seq![m],
            None => Seq::<Message>::empty(),
        },
{
    assert(seq![op].drop_last() =~= Seq::<RawOperation>::empty());
    assert(seq![op].last() == op);
    assert(resolve_spec(l, txid, Seq::<RawOperation>::empty()) == Seq::<Message>::empty());
    if let Some(m) = message_of(l, txid, op) {
        assert(Seq::<Message>::empty().push(m) =~= seq![m]);
    }
}

proof fn lemma_execute_ignores_receipts(
    x: LedgerState,
    r: Seq<(Txid, Seq<RawOperation>)>,
    m: Message,
)
    ensures
        execute_spec(LedgerState { receipts: r, ..x }, m) == (LedgerState {
            receipts: r,
            ..execute_spec(x, m)
        }),
{
    let y = LedgerState { receipts: r, ..x };
    assert(validate_spec(y, m) == validate_spec(x, m));
    assert(outcome_spec(y, m) == outcome_spec(x, m));
    if outcome_spec(x, m) is None {
        assert(apply_spec(y, m) == LedgerState { receipts: r, ..apply_spec(x, m) });
    }
}

proof fn lemma_execute_one(l: LedgerState, m: Message)
    ensures
        execute_all_spec(l, seq![m], 1) == execute_spec(l, m),
{
    assert(seq![m][0] == m);
    assert(execute_all_spec(l, seq![m], 0) == l);
}

/// Reordering the transactions of a block can change its outcome: a holder
/// with nothing, whose block mints 50 and then inscribes a transfer of 30,
/// ends with 30 transferable; with the two transactions the other way round,
/// the transfer is rejected and nothing is transferable.
pub proof fn lemma_block_order_matters(
    c: ProtocolConfig,
    l: LedgerState,
    tm: Transaction,
    ti: Transaction,
    entries: Seq<TxOperations>,
    op_m: RawOperation,
    op_i: RawOperation,
    tick: Tick,
    holder: ScriptKey,
)
    requires
        l.wf(),
        find_ticker(l.tickers, tick) matches Some(t) && 50 <= t.limit_per_mint && t.minted + 50
            <= t.supply,
        balance_of(l.balances, tick, holder).overall_balance == 0,
        !is_coinbase_spec(&tm),
        !is_coinbase_spec(&ti),
        find_ops(entries, tm.txid) == Some(seq![op_m]),
        find_ops(entries, ti.txid) == Some(seq![op_i]),
        op_m.action == (Action::Inscribe {
            payload: Some(Payload::Mint { tick: Some(tick), amount: 50 }),
        }),
        op_m.to == holder,
        op_i.action == (Action::Inscribe {
            payload: Some(Payload::Transfer { tick: Some(tick), amount: 30 }),
        }),
        op_i.to == holder,
    ensures
        balance_of(index_txs_spec(c, l, seq![tm, ti], entries, 2).balances, tick, holder)
            == (BalanceRecord {
            tick,
            owner: holder,
            overall_balance: 50,
            transferable_balance: 30,
        }),
        balance_of(index_txs_spec(c, l, seq![ti, tm], entries, 2).balances, tick, holder)
            == (BalanceRecord {
            tick,
            owner: holder,
            overall_balance: 50,
            transferable_balance: 0,
        }),
{
    let mm = Message {
        txid: tm.txid,
        inscription_id: op_m.inscription_id,
        from: op_m.from,
        to: op_m.to,
        op: Operation::Mint { tick: Some(tick), amount: 50 },
        rejection: None,
    };
    let mi = Message {
        txid: ti.txid,
        inscription_id: op_i.inscription_id,
        from: op_i.from,
        to: op_i.to,
        op: Operation::InscribeTransfer { tick: Some(tick), amount: 30 },
        rejection: None,
    };
    let k = keeps_receipts(c, l);
    let ra = l.receipts.push((tm.txid, seq![op_m]));
    let rb = l.receipts.push((ti.txid, seq![op_i]));
    let la = if k { LedgerState { receipts: ra, ..l } } else { l };
    let lb = if k { LedgerState { receipts: rb, ..l } } else { l };
    lemma_order_matters(la, mm, mi, tick, holder);
    lemma_order_matters(lb, mm, mi, tick, holder);
    lemma_balance_of_key(execute_spec(execute_spec(la, mm), mi).balances, tick, holder);
    lemma_balance_of_key(execute_spec(execute_spec(lb, mi), mm).balances, tick, holder);
    // Mint first.
    let x1 = execute_spec(la, mm);
    lemma_resolve_one(la, tm.txid, op_m);
    assert(message_of(la, tm.txid, op_m) == Some(mm));
    assert(index_txs_spec(c, l, seq![tm, ti], entries, 0) == l);
    assert(index_tx_spec(c, l, &tm, entries) == x1) by {
        lemma_execute_one(la, mm);
    }
    assert(index_txs_spec(c, l, seq![tm, ti], entries, 1) == x1) by {
        assert(seq![tm, ti][0] == tm);
    }
    assert(x1.height == l.height);
    let xr = x1.receipts.push((ti.txid, seq![op_i]));
    let x1b = if k { LedgerState { receipts: xr, ..x1 } } else { x1 };
    lemma_execute_ignores_receipts(x1, xr, mi);
    lemma_resolve_one(x1b, ti.txid, op_i);
    assert(validate_spec(x1b, mi) == validate_spec(x1, mi));
    assert(message_of(x1b, ti.txid, op_i) == Some(mi));
    assert(seq![tm, ti][1] == ti);
    lemma_execute_one(x1b, mi);
    assert(index_txs_spec(c, l, seq![tm, ti], entries, 2) == execute_spec(x1b, mi));
    assert(execute_spec(x1b, mi).balances == execute_spec(x1, mi).balances);
    // Transfer first.
    let mi2 = checked(lb, mi);
    assert(mi2.rejection == Some(Rejection::InsufficientBalance));
    let y1 = execute_spec(lb, mi2);
    assert(y1 == execute_spec(lb, mi));
    lemma_resolve_one(lb, ti.txid, op_i);
    assert(message_of(lb, ti.txid, op_i) == Some(mi2));
    assert(index_txs_spec(c, l, seq![ti, tm], entries, 0) == l);
    assert(index_tx_spec(c, l, &ti, entries) == y1) by {
        lemma_execute_one(lb, mi2);
    }
    assert(index_txs_spec(c, l, seq![ti, tm], entries, 1) == y1) by {
        assert(seq![ti, tm][0] == ti);
    }
    assert(y1.height == l.height);
    let yr = y1.receipts.push((tm.txid, seq![op_m]));
    let y1b = if k { LedgerState { receipts: yr, ..y1 } } else { y1 };
    lemma_execute_ignores_receipts(y1, yr, mm);
    lemma_resolve_one(y1b, tm.txid, op_m);
    assert(validate_spec(y1b, mm) == validate_spec(y1, mm));
    assert(message_of(y1b, tm.txid, op_m) == Some(mm));
    assert(seq![ti, tm][1] == tm);
    lemma_execute_one(y1b, mm);
    assert(index_txs_spec(c, l, seq![ti, tm], entries, 2) == execute_spec(y1b, mm));
    assert(execute_spec(y1b, mm).balances == execute_spec(y1, mm).balances);
}

} // verus!
