//! Recognising an inscription's content: its operation word and the decimal
//! numbers of its fields.
use crate::ledger::{tick_from_bytes, tick_of};
use crate::message::Payload;
use vstd::prelude::*;

verus! {

pub open spec fn is_digit(b: u8) -> bool {
    48 <= b <= 57
}

pub open spec fn all_digits(s: Seq<u8>) -> bool {
    forall|i: int| 0 <= i < s.len() ==> is_digit(#[trigger] s[i])
}

/// The value of a string of decimal digits.
pub open spec fn digits_value(s: Seq<u8>) -> int
    decreases s.len(),
{
    if s.len() == 0 {
        0
    } else {
        digits_value(s.drop_last()) * 10 + (s.last() - 48)
    }
}

/// A decimal amount: one or more digits whose value fits in a `u128`.
pub open spec fn amount_of(s: Seq<u8>) -> Option<u128> {
    if s.len() > 0 && all_digits(s) && digits_value(s) <= u128::MAX {
        Some(digits_value(s) as u128)
    } else {
        None
    }
}

/// A deploy's decimal precision: 18 where the field is absent.
pub open spec fn decimal_of(s: Seq<u8>) -> Option<u128> {
    if s.len() == 0 {
        Some(18)
    } else {
        amount_of(s)
    }
}

/// "deploy"
pub open spec fn deploy_word() -> Seq<u8> {
    seq![100u8, 101u8, 112u8, 108u8, 111u8, 121u8]
}

/// "mint"
pub open spec fn mint_word() -> Seq<u8> {
    seq![109u8, 105u8, 110u8, 116u8]
}

/// "transfer"
pub open spec fn transfer_word() -> Seq<u8> {
    seq![116u8, 114u8, 97u8, 110u8, 115u8, 102u8, 101u8, 114u8]
}

/// The payload that content fields give: a recognised operation word, and
/// decimal numbers in the fields that the operation reads. A deploy reads
/// `amount` as its supply, then `limit` and `decimal`; an empty `decimal`
/// field means the default precision of 18.
pub open spec fn payload_of(
    op: Seq<u8>,
    tick: Seq<u8>,
    amount: Seq<u8>,
    limit: Seq<u8>,
    decimal: Seq<u8>,
) -> Option<Payload> {
    if op == deploy_word() {
        match (amount_of(amount), amount_of(limit), decimal_of(decimal)) {
            (Some(supply), Some(limit), Some(decimal)) => Some(
                Payload::Deploy { tick: tick_of(tick), supply, limit, decimal },
            ),
            _ => None,
        }
    } else if op == mint_word() {
        match amount_of(amount) {
            Some(amount) => Some(Payload::Mint { tick: tick_of(tick), amount }),
            None => None,
        }
    } else if op == transfer_word() {
        match amount_of(amount) {
            Some(amount) => Some(Payload::Transfer { tick: tick_of(tick), amount }),
            None => None,
        }
    } else {
        None
    }
}

proof fn lemma_digits_value_nonneg(s: Seq<u8>)
    requires
        all_digits(s),
    ensures
        digits_value(s) >= 0,
    decreases s.len(),
{
    if s.len() > 0 {
        lemma_digits_value_nonneg(s.drop_last());
    }
}

proof fn lemma_digits_value_prefix(s: Seq<u8>, k: int)
    requires
        all_digits(s),
        0 <= k <= s.len(),
    ensures
        digits_value(s.take(k)) <= digits_value(s),
    decreases s.len(),
{
    if k == s.len() {
        assert(s.take(k) =~= s);
    } else {
        lemma_digits_value_prefix(s.drop_last(), k);
        lemma_digits_value_nonneg(s.drop_last());
        assert(s.drop_last().take(k) =~= s.take(k));
    }
}

/// Parses a decimal amount.
pub fn parse_amount(s: &[u8]) -> (r: Option<u128>)
    ensures
        r == amount_of(s@),
{
    if s.len() == 0 {
        return None;
    }
    let mut v: u128 = 0;
    let mut i: usize = 0;
    while i < s.len()
        invariant
            i <= s.len(),
            all_digits(s@.take(i as int)),
            v == digits_value(s@.take(i as int)),
        decreases s.len() - i,
    {
        let b = s[i];
        if b < 48 || b > 57 {
            assert(!is_digit(s@[i as int]));
            return None;
        }
        let d: u128 = (b - 48) as u128;
        assert(s@.take(i + 1).drop_last() =~= s@.take(i as int));
        assert(all_digits(s@.take(i + 1)));
        if v > (u128::MAX - d) / 10 {
            assert(v * 10 + d > u128::MAX) by (nonlinear_arith)
                requires
                    v > (u128::MAX - d) / 10,
                    d <= 9,
            ;
            proof {
                if all_digits(s@) {
                    lemma_digits_value_prefix(s@, i + 1);
                }
            }
            return None;
        }
        assert(v * 10 + d <= u128::MAX) by (nonlinear_arith)
            requires
                v <= (u128::MAX - d) / 10,
                d <= 9,
        ;
        v = v * 10 + d;
        i = i + 1;
    }
    assert(s@.take(s.len() as int) =~= s@);
    Some(v)
}

fn is_deploy(op: &[u8]) -> (r: bool)
    ensures
        r == (op@ == deploy_word()),
{
    let r = op.len() == 6 && op[0] == 100 && op[1] == 101 && op[2] == 112 && op[3] == 108
        && op[4] == 111 && op[5] == 121;
    if r {
        assert(op@ =~= deploy_word());
    }
    r
}

fn is_mint(op: &[u8]) -> (r: bool)
    ensures
        r == (op@ == mint_word()),
{
    let r = op.len() == 4 && op[0] == 109 && op[1] == 105 && op[2] == 110 && op[3] == 116;
    if r {
        assert(op@ =~= mint_word());
    }
    r
}

fn is_transfer(op: &[u8]) -> (r: bool)
    ensures
        r == (op@ == transfer_word()),
{
    let r = op.len() == 8 && op[0] == 116 && op[1] == 114 && op[2] == 97 && op[3] == 110
        && op[4] == 115 && op[5] == 102 && op[6] == 101 && op[7] == 114;
    if r {
        assert(op@ =~= transfer_word());
    }
    r
}

/// Recognises an inscription's content from its fields. `None` where the
/// operation word is unknown or a field that it reads is not a decimal amount.
pub fn parse_payload(op: &[u8], tick: &[u8], amount: &[u8], limit: &[u8], decimal: &[u8]) -> (r:
    Option<Payload>)
    ensures
        r == payload_of(op@, tick@, amount@, limit@, decimal@),
{
    if is_deploy(op) {
        let t = tick_from_bytes(tick);
        let d = if decimal.len() == 0 {
            Some(18u128)
        } else {
            parse_amount(decimal)
        };
        match (parse_amount(amount), parse_amount(limit), d) {
            (Some(supply), Some(limit), Some(decimal)) => Some(
                Payload::Deploy { tick: t, supply, limit, decimal },
            ),
            _ => None,
        }
    } else if is_mint(op) {
        let t = tick_from_bytes(tick);
        match parse_amount(amount) {
            Some(amount) => Some(Payload::Mint { tick: t, amount }),
            None => None,
        }
    } else if is_transfer(op) {
        let t = tick_from_bytes(tick);
        match parse_amount(amount) {
            Some(amount) => Some(Payload::Transfer { tick: t, amount }),
            None => None,
        }
    } else {
        None
    }
}

} // verus!
