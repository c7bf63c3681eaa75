//! Turning a transaction's raw operations into protocol messages.
use crate::chain::Txid;
use crate::context::{validate_spec, Ledger, LedgerState};
use crate::ledger::{find_transfer, lookup_transfer};
use crate::message::{Action, Message, Operation, Payload, RawOperation};
use vstd::prelude::*;

verus! {

/// `m` with the verdict of validation against `l`.
pub open spec fn checked(l: LedgerState, m: Message) -> Message {
    Message { rejection: validate_spec(l, m), ..m }
}

pub open spec fn operation_of(p: Payload) -> Operation {
    match p {
        Payload::Deploy { tick, supply, limit, decimal } => Operation::Deploy {
            tick,
            supply,
            limit,
            decimal,
        },
        Payload::Mint { tick, amount } => Operation::Mint { tick, amount },
        Payload::Transfer { tick, amount } => Operation::InscribeTransfer { tick, amount },
    }
}

/// The message that one raw operation gives, if it has a recognised shape: a
/// new inscription with a payload, or the spending of an inscribed transfer.
pub open spec fn message_of(l: LedgerState, txid: Txid, op: RawOperation) -> Option<Message> {
    match op.action {
        Action::Inscribe { payload: None } => None,
        Action::Inscribe { payload: Some(p) } => Some(
            checked(
                l,
                Message {
                    txid,
                    inscription_id: op.inscription_id,
                    from: op.from,
                    to: op.to,
                    op: operation_of(p),
                    rejection: None,
                },
            ),
        ),
        Action::Spend => match find_transfer(l.transfers, op.inscription_id) {
            None => None,
            Some(r) => Some(
                checked(
                    l,
                    Message {
                        txid,
                        inscription_id: op.inscription_id,
                        from: op.from,
                        to: op.to,
                        op: Operation::Transfer { tick: r.tick, amount: r.amount },
                        rejection: None,
                    },
                ),
            ),
        },
    }
}

/// The messages of a transaction's operations, in extraction order.
pub open spec fn resolve_spec(l: LedgerState, txid: Txid, ops: Seq<RawOperation>) -> Seq<Message>
    decreases ops.len(),
{
    if ops.len() == 0 {
        Seq::empty()
    } else {
        let prev = resolve_spec(l, txid, ops.drop_last());
        match message_of(l, txid, ops.last()) {
            Some(m) => prev.push(m),
            None => prev,
        }
    }
}

pub fn resolve_operation(ledger: &Ledger, txid: &Txid, op: &RawOperation) -> (r: Option<Message>)
    requires
        ledger@.wf(),
    ensures
        r == message_of(ledger@, *txid, *op),
{
    let base = match op.action {
        Action::Inscribe { payload: None } => {
            return None;
        },
        Action::Inscribe { payload: Some(p) } => {
            let o = match p {
                Payload::Deploy { tick, supply, limit, decimal } => Operation::Deploy {
                    tick,
                    supply,
                    limit,
                    decimal,
                },
                Payload::Mint { tick, amount } => Operation::Mint { tick, amount },
                Payload::Transfer { tick, amount } => Operation::InscribeTransfer { tick, amount },
            };
            Message {
                txid: *txid,
                inscription_id: op.inscription_id,
                from: op.from,
                to: op.to,
                op: o,
                rejection: None,
            }
        },
        Action::Spend => match lookup_transfer(&ledger.transfers, &op.inscription_id) {
            None => {
                return None;
            },
            Some(r) => Message {
                txid: *txid,
                inscription_id: op.inscription_id,
                from: op.from,
                to: op.to,
                op: Operation::Transfer { tick: r.tick, amount: r.amount },
                rejection: None,
            },
        },
    };
    let rejection = ledger.validate(&base);
    Some(Message { rejection, ..base })
}

/// Resolves a transaction's operations against the ledger as it stands.
pub fn resolve(ledger: &Ledger, txid: &Txid, ops: &Vec<RawOperation>) -> (r: Vec<Message>)
    requires
        ledger@.wf(),
    ensures
        r@ == resolve_spec(ledger@, *txid, ops@),
{
    let mut msgs: Vec<Message> = Vec::new();
    let mut i: usize = 0;
    while i < ops.len()
        invariant
            i <= ops.len(),
            ledger@.wf(),
            msgs@ == resolve_spec(ledger@, *txid, ops@.take(i as int)),
        decreases ops.len() - i,
    {
        assert(ops@.take(i + 1).drop_last() =~= ops@.take(i as int));
        match resolve_operation(ledger, txid, &ops[i]) {
            Some(m) => msgs.push(m),
            None => {},
        }
        i = i + 1;
    }
    assert(ops@.take(ops.len() as int) =~= ops@);
    msgs
}

} // verus!
