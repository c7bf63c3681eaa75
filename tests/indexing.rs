use okx_index::chain::{BlockData, BlockHeader, OutPoint, Transaction};
use okx_index::context::{Ledger, SecondaryRecord};
use okx_index::ledger::{get_balance, lookup_ticker, tick_from_bytes, InscriptionId, ScriptKey, Tick};
use okx_index::manager::{
    bitmap_outcome, collect_secondary, BitmapIndexer, Disabled, IndexError, ProtocolConfig, ProtocolManager,
    SecondaryResolver,
};
use okx_index::message::{
    Action, Message, Operation, Payload, RawOperation, Rejection, TxOperations,
};

const ABCD: Tick = *b"abcd";
const A: ScriptKey = [0xaa; 32];
const B: ScriptKey = [0xbb; 32];

fn txid(n: u8) -> [u8; 32] {
    let mut t = [0u8; 32];
    t[0] = n;
    t[31] = 7;
    t
}

fn tx(n: u8) -> Transaction {
    Transaction { txid: txid(n), input: vec![OutPoint { txid: txid(200 - n), vout: 0 }] }
}

fn coinbase(n: u8) -> Transaction {
    Transaction { txid: txid(n), input: vec![OutPoint { txid: [0u8; 32], vout: u32::MAX }] }
}

fn id(n: u8) -> InscriptionId {
    InscriptionId { txid: txid(n), index: 0 }
}

fn inscribe(n: u8, payload: Payload, to: ScriptKey) -> RawOperation {
    RawOperation { inscription_id: id(n), action: Action::Inscribe { payload: Some(payload) }, from: to, to }
}

fn spend(inscription: InscriptionId, from: ScriptKey, to: ScriptKey) -> RawOperation {
    RawOperation { inscription_id: inscription, action: Action::Spend, from, to }
}

fn deploy(supply: u128, limit: u128) -> Payload {
    Payload::Deploy { tick: Some(ABCD), supply, limit, decimal: 18 }
}

fn entry(t: &Transaction, ops: Vec<RawOperation>) -> TxOperations {
    TxOperations { txid: t.txid, operations: ops }
}

fn header() -> BlockHeader {
    BlockHeader { version: 1, prev_blockhash: [3u8; 32], merkle_root: [4u8; 32], time: 1000, bits: 0x1d00ffff, nonce: 9 }
}

fn config() -> ProtocolConfig {
    ProtocolConfig { enable_ord_receipts: true, first_inscription_height: 0, enable_index_bitmap: false, first_brc20_height: None }
}

struct NoSecondary;
impl SecondaryResolver for NoSecondary {
    fn resolve(&mut self, _l: &Ledger, _h: &[u8; 32], _tx: &Transaction, _o: &Vec<RawOperation>) -> Result<Vec<SecondaryRecord>, String> {
        Ok(Vec::new())
    }
}

struct FailingSecondary;
impl SecondaryResolver for FailingSecondary {
    fn resolve(&mut self, _l: &Ledger, _h: &[u8; 32], _tx: &Transaction, _o: &Vec<RawOperation>) -> Result<Vec<SecondaryRecord>, String> {
        Err("secondary failed".to_string())
    }
}

struct EchoSecondary;
impl SecondaryResolver for EchoSecondary {
    fn resolve(&mut self, _l: &Ledger, _h: &[u8; 32], tx: &Transaction, _o: &Vec<RawOperation>) -> Result<Vec<SecondaryRecord>, String> {
        Ok(vec![SecondaryRecord { txid: tx.txid, data: vec![1, 2] }])
    }
}

struct NoBitmap;
impl BitmapIndexer for NoBitmap {
    fn index(&mut self, _l: &Ledger, _o: &Vec<TxOperations>) -> Result<u64, String> {
        Ok(0)
    }
}

struct FailingBitmap;
impl BitmapIndexer for FailingBitmap {
    fn index(&mut self, _l: &Ledger, _o: &Vec<TxOperations>) -> Result<u64, String> {
        Err("bitmap failed".to_string())
    }
}

fn run(ledger: &mut Ledger, txs: Vec<Transaction>, entries: Vec<TxOperations>) {
    let block = BlockData { header: header(), txdata: txs };
    let manager = ProtocolManager::new(config());
    let r = manager.index_block(ledger, &block, &entries, &mut NoSecondary, &mut NoBitmap);
    assert!(r.is_ok());
}

fn balance(l: &Ledger, owner: ScriptKey) -> (u128, u128) {
    let b = get_balance(&l.balances, &ABCD, &owner);
    (b.overall_balance, b.transferable_balance)
}

fn scenario_a_ledger() -> Ledger {
    let mut l = Ledger::new(800_000, 1000);
    let (t1, t2) = (tx(1), tx(2));
    let e = vec![
        entry(&t1, vec![inscribe(1, deploy(1000, 100), A)]),
        entry(&t2, vec![inscribe(2, Payload::Mint { tick: Some(ABCD), amount: 50 }, A)]),
    ];
    run(&mut l, vec![t1, t2], e);
    l
}

fn scenario_b_ledger() -> Ledger {
    let mut l = scenario_a_ledger();
    let t3 = tx(3);
    let e = vec![entry(&t3, vec![inscribe(3, Payload::Transfer { tick: Some(ABCD), amount: 30 }, A)])];
    run(&mut l, vec![t3], e);
    l
}

#[test]
fn scenario_deploy_and_mint() {
    let l = scenario_a_ledger();
    let t = lookup_ticker(&l.tickers, &ABCD).unwrap();
    assert_eq!(t.minted, 50);
    assert_eq!(t.supply, 1000);
    assert_eq!(t.limit_per_mint, 100);
    assert_eq!(t.deployed_number, 800_000);
    assert_eq!(balance(&l, A), (50, 0));
    assert_eq!(l.events.len(), 2);
    assert!(l.events.iter().all(|e| e.valid()));
    assert_eq!(l.summaries.len(), 1);
    assert_eq!(l.summaries[0].height, 800_000);
    assert_eq!(l.summaries[0].prev_block_hash, [3u8; 32]);
    assert_eq!(l.summaries[0].time, 1000);
    assert!(l.summaries[0].txs.is_empty());
}

#[test]
fn scenario_inscribe_transfer() {
    let l = scenario_b_ledger();
    assert_eq!(balance(&l, A), (50, 30));
    let b = get_balance(&l.balances, &ABCD, &A);
    assert_eq!(okx_index::api::available_balance(&b).ok(), Some(20));
    assert_eq!(l.events.len(), 3);
    assert!(l.events[2].valid());
}

#[test]
fn scenario_spend_transfer() {
    let mut l = scenario_b_ledger();
    let t4 = tx(4);
    let e = vec![entry(&t4, vec![spend(id(3), A, B)])];
    run(&mut l, vec![t4], e);
    assert_eq!(balance(&l, A), (20, 0));
    assert_eq!(balance(&l, B), (30, 0));
    assert!(l.events[3].valid());
    assert!(matches!(l.events[3].op, Operation::Transfer { amount: 30, .. }));
}

#[test]
fn spend_back_to_owner_restores_available() {
    let mut l = scenario_b_ledger();
    let t4 = tx(4);
    let e = vec![entry(&t4, vec![spend(id(3), A, A)])];
    run(&mut l, vec![t4], e);
    assert_eq!(balance(&l, A), (50, 0));
}

#[test]
fn spending_twice_is_rejected() {
    let mut l = scenario_b_ledger();
    let (t4, t5) = (tx(4), tx(5));
    let e = vec![entry(&t4, vec![spend(id(3), A, B)]), entry(&t5, vec![spend(id(3), B, A)])];
    run(&mut l, vec![t4, t5], e);
    assert_eq!(l.events[4].rejection, Some(Rejection::TransferSpent));
    assert_eq!(balance(&l, A), (20, 0));
    assert_eq!(balance(&l, B), (30, 0));
}

#[test]
fn spend_of_plain_inscription_gives_no_message() {
    let mut l = scenario_a_ledger();
    let t4 = tx(4);
    let e = vec![entry(&t4, vec![spend(id(99), A, B)])];
    run(&mut l, vec![t4], e);
    assert_eq!(l.events.len(), 2);
}

#[test]
fn order_of_transactions_matters() {
    let (t1, t2, t3) = (tx(1), tx(2), tx(3));
    let e = vec![
        entry(&t1, vec![inscribe(1, deploy(1000, 100), A)]),
        entry(&t2, vec![inscribe(2, Payload::Mint { tick: Some(ABCD), amount: 50 }, A)]),
        entry(&t3, vec![inscribe(3, Payload::Transfer { tick: Some(ABCD), amount: 30 }, A)]),
    ];
    let mut first = Ledger::new(1, 1);
    run(&mut first, vec![tx(1), tx(2), tx(3)], e);
    assert_eq!(balance(&first, A), (50, 30));

    let e = vec![
        entry(&t1, vec![inscribe(1, deploy(1000, 100), A)]),
        entry(&t2, vec![inscribe(2, Payload::Mint { tick: Some(ABCD), amount: 50 }, A)]),
        entry(&t3, vec![inscribe(3, Payload::Transfer { tick: Some(ABCD), amount: 30 }, A)]),
    ];
    let mut second = Ledger::new(1, 1);
    run(&mut second, vec![tx(1), tx(3), tx(2)], e);
    assert_eq!(balance(&second, A), (50, 0));
    assert_eq!(second.events[1].rejection, Some(Rejection::InsufficientBalance));
}

#[test]
fn independent_operations_commute_within_a_transaction() {
    let t1 = tx(1);
    let deploy_x = inscribe(1, Payload::Deploy { tick: Some(*b"xxxx"), supply: 10, limit: 10, decimal: 1 }, A);
    let deploy_y = inscribe(2, Payload::Deploy { tick: Some(*b"yyyy"), supply: 20, limit: 5, decimal: 2 }, B);
    let mut one = Ledger::new(5, 5);
    run(&mut one, vec![tx(1)], vec![entry(&t1, vec![deploy_x, deploy_y])]);
    let mut two = Ledger::new(5, 5);
    run(&mut two, vec![tx(1)], vec![entry(&t1, vec![deploy_y, deploy_x])]);
    for t in [*b"xxxx", *b"yyyy"] {
        let a = lookup_ticker(&one.tickers, &t).unwrap();
        let b = lookup_ticker(&two.tickers, &t).unwrap();
        assert_eq!(format!("{:?}", a), format!("{:?}", b));
    }
}

#[test]
fn indexing_is_deterministic() {
    let make = || {
        let (t1, t2, t3) = (tx(1), tx(2), tx(3));
        let e = vec![
            entry(&t1, vec![inscribe(1, deploy(1000, 100), A)]),
            entry(&t2, vec![inscribe(2, Payload::Mint { tick: Some(ABCD), amount: 70 }, A)]),
            entry(&t3, vec![inscribe(3, Payload::Transfer { tick: Some(ABCD), amount: 30 }, A), spend(id(3), A, B)]),
        ];
        let mut l = Ledger::new(42, 7);
        run(&mut l, vec![t1, t2, t3], e);
        l
    };
    let (x, y) = (make(), make());
    assert_eq!(format!("{:?}", x.tickers), format!("{:?}", y.tickers));
    assert_eq!(format!("{:?}", x.balances), format!("{:?}", y.balances));
    assert_eq!(format!("{:?}", x.transfers), format!("{:?}", y.transfers));
    assert_eq!(format!("{:?}", x.events), format!("{:?}", y.events));
    assert_eq!(format!("{:?}", x.receipts), format!("{:?}", y.receipts));
}

#[test]
fn balance_invariant_holds_throughout() {
    let l = scenario_b_ledger();
    assert!(l.balances.iter().all(|b| b.transferable_balance <= b.overall_balance));
}

#[test]
fn coinbase_is_skipped() {
    let mut l = Ledger::new(1, 1);
    let cb = coinbase(1);
    let e = vec![entry(&cb, vec![inscribe(1, deploy(1000, 100), A)])];
    run(&mut l, vec![cb], e);
    assert!(l.events.is_empty());
    assert!(l.tickers.is_empty());
    assert!(l.receipts.is_empty());
    assert_eq!(l.summaries.len(), 1);
}

#[test]
fn transaction_without_operations_is_skipped() {
    let mut l = Ledger::new(1, 1);
    let (t1, t2) = (tx(1), tx(2));
    run(&mut l, vec![t1, t2], vec![entry(&tx(2), vec![])]);
    assert!(l.events.is_empty());
    assert!(l.receipts.is_empty());
}

#[test]
fn second_deploy_is_rejected() {
    let mut l = Ledger::new(1, 1);
    let (t1, t2) = (tx(1), tx(2));
    let e = vec![
        entry(&t1, vec![inscribe(1, deploy(1000, 100), A)]),
        entry(&t2, vec![inscribe(2, deploy(5, 5), B)]),
    ];
    run(&mut l, vec![t1, t2], e);
    assert_eq!(l.events[1].rejection, Some(Rejection::AlreadyDeployed));
    let t = lookup_ticker(&l.tickers, &ABCD).unwrap();
    assert_eq!(t.supply, 1000);
    assert_eq!(t.deploy_by, A);
}

#[test]
fn second_deploy_in_one_transaction_is_rejected() {
    let mut l = Ledger::new(1, 1);
    let t1 = tx(1);
    let e = vec![entry(&t1, vec![inscribe(1, deploy(1000, 100), A), inscribe(2, deploy(5, 5), B)])];
    run(&mut l, vec![t1], e);
    assert!(l.events[0].valid());
    assert_eq!(l.events[1].rejection, Some(Rejection::AlreadyDeployed));
    assert_eq!(lookup_ticker(&l.tickers, &ABCD).unwrap().supply, 1000);
}

#[test]
fn mint_beyond_supply_is_rejected() {
    let mut l = Ledger::new(1, 1);
    let (t1, t2, t3) = (tx(1), tx(2), tx(3));
    let e = vec![
        entry(&t1, vec![inscribe(1, deploy(100, 60), A)]),
        entry(&t2, vec![inscribe(2, Payload::Mint { tick: Some(ABCD), amount: 60 }, A)]),
        entry(&t3, vec![inscribe(3, Payload::Mint { tick: Some(ABCD), amount: 60 }, B)]),
    ];
    run(&mut l, vec![t1, t2, t3], e);
    assert_eq!(l.events[2].rejection, Some(Rejection::SupplyExhausted));
    assert_eq!(lookup_ticker(&l.tickers, &ABCD).unwrap().minted, 60);
    assert_eq!(balance(&l, B), (0, 0));
}

#[test]
fn mint_to_exact_supply_is_accepted() {
    let mut l = Ledger::new(1, 1);
    let (t1, t2, t3) = (tx(1), tx(2), tx(3));
    let e = vec![
        entry(&t1, vec![inscribe(1, deploy(100, 60), A)]),
        entry(&t2, vec![inscribe(2, Payload::Mint { tick: Some(ABCD), amount: 60 }, A)]),
        entry(&t3, vec![inscribe(3, Payload::Mint { tick: Some(ABCD), amount: 40 }, B)]),
    ];
    run(&mut l, vec![t1, t2, t3], e);
    assert!(l.events[2].valid());
    assert_eq!(lookup_ticker(&l.tickers, &ABCD).unwrap().minted, 100);
}

#[test]
fn mints_in_one_transaction_respect_supply() {
    let mut l = Ledger::new(1, 1);
    let (t1, t2) = (tx(1), tx(2));
    let e = vec![
        entry(&t1, vec![inscribe(1, deploy(100, 60), A)]),
        entry(&t2, vec![
            inscribe(2, Payload::Mint { tick: Some(ABCD), amount: 60 }, A),
            RawOperation { inscription_id: InscriptionId { txid: txid(2), index: 1 }, action: Action::Inscribe { payload: Some(Payload::Mint { tick: Some(ABCD), amount: 60 }) }, from: A, to: A },
        ]),
    ];
    run(&mut l, vec![t1, t2], e);
    assert_eq!(l.events[2].rejection, Some(Rejection::SupplyExhausted));
    assert_eq!(lookup_ticker(&l.tickers, &ABCD).unwrap().minted, 60);
}

/// The last event's rejection after `setup` in one transaction and
/// `payloads` in the next.
fn rejection_of(setup: Vec<Payload>, payloads: Vec<Payload>) -> Option<Rejection> {
    let ops = |n: u8, ps: &Vec<Payload>| -> Vec<RawOperation> {
        ps.iter().enumerate().map(|(i, p)| RawOperation {
            inscription_id: InscriptionId { txid: txid(n), index: i as u32 },
            action: Action::Inscribe { payload: Some(*p) },
            from: A,
            to: A,
        }).collect()
    };
    let mut l = Ledger::new(1, 1);
    let e = vec![entry(&tx(1), ops(1, &setup)), entry(&tx(2), ops(2, &payloads))];
    run(&mut l, vec![tx(1), tx(2)], e);
    l.events.last().unwrap().rejection
}

#[test]
fn each_rule_has_its_rejection() {
    let none: Vec<Payload> = vec![];
    let d = || vec![deploy(10, 5)];
    assert_eq!(rejection_of(none.clone(), vec![deploy(0, 1)]), Some(Rejection::InvalidSupply));
    assert_eq!(rejection_of(none.clone(), vec![Payload::Deploy { tick: None, supply: 10, limit: 1, decimal: 1 }]), Some(Rejection::InvalidTick));
    assert_eq!(rejection_of(d(), vec![Payload::Mint { tick: None, amount: 1 }]), Some(Rejection::InvalidTick));
    assert_eq!(rejection_of(d(), vec![Payload::Transfer { tick: tick_from_bytes(b"abcde"), amount: 1 }]), Some(Rejection::InvalidTick));
    assert_eq!(rejection_of(none.clone(), vec![deploy(18446744073709551616, 1)]), Some(Rejection::InvalidSupply));
    assert_eq!(rejection_of(none.clone(), vec![deploy(18446744073709551615, 18446744073709551615)]), None);
    assert_eq!(rejection_of(none.clone(), vec![deploy(10, 0)]), Some(Rejection::InvalidLimit));
    assert_eq!(rejection_of(none.clone(), vec![deploy(10, 18446744073709551616)]), Some(Rejection::InvalidLimit));
    assert_eq!(rejection_of(none.clone(), vec![Payload::Deploy { tick: Some(ABCD), supply: 10, limit: 1, decimal: 0 }]), Some(Rejection::InvalidDecimal));
    assert_eq!(rejection_of(none.clone(), vec![Payload::Deploy { tick: Some(ABCD), supply: 10, limit: 1, decimal: 19 }]), Some(Rejection::InvalidDecimal));
    assert_eq!(rejection_of(none.clone(), vec![Payload::Mint { tick: Some(ABCD), amount: 1 }]), Some(Rejection::UnknownTicker));
    assert_eq!(rejection_of(none.clone(), vec![Payload::Transfer { tick: Some(ABCD), amount: 1 }]), Some(Rejection::UnknownTicker));
    assert_eq!(rejection_of(vec![deploy(10, 5)], vec![deploy(10, 5), Payload::Mint { tick: Some(ABCD), amount: 1 }]), None);
    assert_eq!(rejection_of(d(), vec![Payload::Mint { tick: Some(ABCD), amount: 0 }]), Some(Rejection::InvalidAmount));
    assert_eq!(rejection_of(d(), vec![Payload::Mint { tick: Some(ABCD), amount: 6 }]), Some(Rejection::ExceedsMintLimit));
    assert_eq!(rejection_of(d(), vec![Payload::Transfer { tick: Some(ABCD), amount: 0 }]), Some(Rejection::InvalidAmount));
    assert_eq!(rejection_of(d(), vec![Payload::Transfer { tick: Some(ABCD), amount: 1 }]), Some(Rejection::InsufficientBalance));
}

#[test]
fn same_transaction_resolves_against_earlier_state() {
    assert_eq!(rejection_of(vec![], vec![deploy(10, 5), Payload::Mint { tick: Some(ABCD), amount: 1 }]), Some(Rejection::UnknownTicker));
}

#[test]
fn executing_transfer_of_unknown_inscription_is_rejected() {
    let mut l = Ledger::new(1, 1);
    let m = Message { txid: txid(1), inscription_id: id(1), from: A, to: B, op: Operation::Transfer { tick: ABCD, amount: 5 }, rejection: None };
    l.execute(&m);
    assert_eq!(l.events.len(), 1);
    assert_eq!(l.events[0].rejection, Some(Rejection::TransferNotFound));
    assert_eq!(balance(&l, B), (0, 0));
}

#[test]
fn resolver_verdict_is_kept() {
    let mut l = Ledger::new(1, 1);
    let m = Message { txid: txid(1), inscription_id: id(1), from: A, to: A, op: Operation::Deploy { tick: Some(ABCD), supply: 10, limit: 10, decimal: 1 }, rejection: Some(Rejection::InvalidLimit) };
    l.execute(&m);
    assert_eq!(l.events[0].rejection, Some(Rejection::InvalidLimit));
    assert!(l.tickers.is_empty());
}

#[test]
fn receipts_follow_configuration() {
    let t1 = tx(1);
    let block = BlockData { header: header(), txdata: vec![tx(1)] };
    let e = vec![entry(&t1, vec![inscribe(1, deploy(1000, 100), A)])];
    let mut l = Ledger::new(10, 1);
    let m = ProtocolManager::new(ProtocolConfig { first_inscription_height: 11, ..config() });
    assert!(m.index_block(&mut l, &block, &e, &mut NoSecondary, &mut NoBitmap).is_ok());
    assert!(l.receipts.is_empty());
    let mut l = Ledger::new(11, 1);
    assert!(m.index_block(&mut l, &block, &e, &mut NoSecondary, &mut NoBitmap).is_ok());
    assert_eq!(l.receipts.len(), 1);
    assert_eq!(l.receipts[0].txid, t1.txid);
    assert_eq!(l.receipts[0].operations.len(), 1);
}

#[test]
fn secondary_failure_aborts_block() {
    let t1 = tx(1);
    let block = BlockData { header: header(), txdata: vec![tx(1)] };
    let e = vec![entry(&t1, vec![inscribe(1, deploy(1000, 100), A)])];
    let mut l = Ledger::new(10, 1);
    let m = ProtocolManager::new(ProtocolConfig { first_brc20_height: Some(10), ..config() });
    let r = m.index_block(&mut l, &block, &e, &mut FailingSecondary, &mut NoBitmap);
    assert!(matches!(r, Err(IndexError::Secondary(_))));
    assert!(l.summaries.is_empty());
}

#[test]
fn secondary_results_reach_summary() {
    let t1 = tx(1);
    let block = BlockData { header: header(), txdata: vec![tx(1), tx(2)] };
    let e = vec![entry(&t1, vec![inscribe(1, deploy(1000, 100), A)])];
    let mut l = Ledger::new(10, 1);
    let m = ProtocolManager::new(ProtocolConfig { first_brc20_height: Some(10), ..config() });
    assert!(m.index_block(&mut l, &block, &e, &mut EchoSecondary, &mut NoBitmap).is_ok());
    assert_eq!(l.summaries[0].txs.len(), 1);
    assert_eq!(l.summaries[0].txs[0].txid, t1.txid);
    let mut l = Ledger::new(9, 1);
    assert!(m.index_block(&mut l, &block, &e, &mut FailingSecondary, &mut NoBitmap).is_ok());
    assert!(l.summaries[0].txs.is_empty());
}

#[test]
fn bitmap_failure_aborts_block() {
    let block = BlockData { header: header(), txdata: vec![] };
    let mut l = Ledger::new(10, 1);
    let m = ProtocolManager::new(ProtocolConfig { enable_index_bitmap: true, ..config() });
    let r = m.index_block(&mut l, &block, &vec![], &mut NoSecondary, &mut FailingBitmap);
    assert!(matches!(r, Err(IndexError::Bitmap(_))));
    let m = ProtocolManager::new(config());
    assert!(m.index_block(&mut l, &block, &vec![], &mut NoSecondary, &mut FailingBitmap).is_ok());
}

#[test]
fn reindexing_a_transaction_replaces_its_receipt() {
    let t1 = tx(1);
    let mut l = Ledger::new(1, 1);
    run(&mut l, vec![tx(1)], vec![entry(&t1, vec![inscribe(1, deploy(1000, 100), A)])]);
    let two = vec![inscribe(1, deploy(1000, 100), A), inscribe(2, deploy(5, 5), B)];
    run(&mut l, vec![tx(1)], vec![entry(&t1, two)]);
    assert_eq!(l.receipt(&t1.txid).unwrap().len(), 2);
    assert!(l.receipt(&txid(9)).is_none());
}

#[test]
fn secondary_below_activation_is_not_called() {
    let t1 = tx(1);
    let block = BlockData { header: header(), txdata: vec![tx(1)] };
    let e = vec![entry(&t1, vec![inscribe(1, deploy(1000, 100), A)])];
    let mut l = Ledger::new(10, 1);
    let m = ProtocolManager::new(ProtocolConfig { first_brc20_height: Some(11), ..config() });
    assert!(m.index_block(&mut l, &block, &e, &mut FailingSecondary, &mut NoBitmap).is_ok());
    assert!(l.summaries[0].txs.is_empty());
}

#[test]
fn collecting_secondary_results() {
    let mut txs = vec![SecondaryRecord { txid: txid(1), data: vec![] }];
    let r = collect_secondary(&mut txs, Ok(vec![SecondaryRecord { txid: txid(2), data: vec![9] }]));
    assert!(r.is_ok());
    assert_eq!(txs.len(), 2);
    assert_eq!(txs[1].txid, txid(2));
    let r = collect_secondary(&mut txs, Err("boom".to_string()));
    assert!(matches!(r, Err(IndexError::Secondary(m)) if m == "boom"));
    assert_eq!(txs.len(), 2);
}

#[test]
fn disabled_collaborators_index_a_block() {
    let t1 = tx(1);
    let block = BlockData { header: header(), txdata: vec![tx(1)] };
    let e = vec![entry(&t1, vec![inscribe(1, deploy(1000, 100), A)])];
    let mut l = Ledger::new(3, 1);
    let m = ProtocolManager::new(config());
    assert!(m.index_block(&mut l, &block, &e, &mut Disabled, &mut Disabled).is_ok());
    assert!(lookup_ticker(&l.tickers, &ABCD).is_some());
    assert!(l.summaries[0].txs.is_empty());
}

#[test]
fn bitmap_result_outcome() {
    assert!(matches!(bitmap_outcome(Ok(7)), Ok(7)));
    assert!(matches!(bitmap_outcome(Err("x".to_string())), Err(IndexError::Bitmap(m)) if m == "x"));
}
