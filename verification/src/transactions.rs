//! Transaction records: the parsed, validated representation of one input
//! line, and the structured outcomes a transaction can end in.

use vstd::prelude::*;
use crate::amount::{spec_amount, spec_uint, parse_amount, parse_u16, parse_u32};

verus! {

/// The closed set of recognized transaction kinds. Dispatch over this enum is
/// checked for completeness at build time; anything else is rejected at the
/// parsing boundary as `ErrorKind::UnsupportedKind`.
#[derive(Clone, Copy, PartialEq, Eq, Structural, Debug)]
pub enum TxKind {
    Deposit,
    Withdrawal,
    Dispute,
    Resolve,
    Chargeback,
}

/// The structured outcome of a transaction that was not applied. Every
/// failure is local to its record: it never aborts the stream and never
/// partially mutates the account it targeted.
#[derive(Clone, Copy, PartialEq, Eq, Structural, Debug)]
pub enum ErrorKind {
    /// The input record could not be parsed; it never reaches the processor.
    MalformedRecord,
    /// The transaction kind is not in the recognized set.
    UnsupportedKind,
    /// A deposit or withdrawal record carried no amount.
    MissingAmount,
    /// A deposit or withdrawal record carried a zero amount.
    NonPositiveAmount,
    /// Crediting the amount would push the total balance past what a
    /// fixed-point balance can hold.
    AmountOverflow,
    /// The available balance does not cover the amount.
    InsufficientFunds,
    /// A dispute referenced a transaction id not in the ledger, or one owned
    /// by another client.
    UnknownTransaction,
    /// A dispute targeted a transaction id that is already under dispute.
    DuplicateDispute,
    /// A resolve or chargeback targeted a transaction id not currently under
    /// dispute.
    NotDisputed,
    /// The held balance does not cover the disputed amount; a bookkeeping
    /// corruption guard, unreachable under the account invariants.
    InsufficientHeld,
    /// The account is locked by an earlier chargeback; it accepts no further
    /// mutating transactions.
    AccountLocked,
}

/// One parsed input record. `amount` counts ten-thousandths of a unit and is
/// absent (not zero) for dispute, resolve and chargeback records, whose
/// effective amount is derived from the referenced original transaction.
#[derive(Clone, Copy, Debug)]
pub struct Transaction {
    pub transaction_type: TxKind,
    pub client: u16,
    pub tx: u32,
    pub amount: Option<u64>,
}

/// An upper-case ASCII letter folded to lower case; any other byte is left
/// alone.
pub open spec fn lower_byte(b: u8) -> u8 {
    if 65 <= b && b <= 90 {
        (b + 32) as u8
    } else {
        b
    }
}

/// A field's bytes folded to lower case, so kind matching is
/// case-insensitive.
pub open spec fn lower_bytes(s: Seq<u8>) -> Seq<u8> {
    s.map_values(|b: u8| lower_byte(b))
}

/// The canonical spelling of each transaction kind.
pub open spec fn kind_bytes(k: TxKind) -> Seq<u8> {
    match k {
        TxKind::Deposit => seq![100u8, 101u8, 112u8, 111u8, 115u8, 105u8, 116u8],
        TxKind::Withdrawal => seq![
            119u8,
            105u8,
            116u8,
            104u8,
            100u8,
            114u8,
            97u8,
            119u8,
            97u8,
            108u8,
        ],
        TxKind::Dispute => seq![100u8, 105u8, 115u8, 112u8, 117u8, 116u8, 101u8],
        TxKind::Resolve => seq![114u8, 101u8, 115u8, 111u8, 108u8, 118u8, 101u8],
        TxKind::Chargeback => seq![
            99u8,
            104u8,
            97u8,
            114u8,
            103u8,
            101u8,
            98u8,
            97u8,
            99u8,
            107u8,
        ],
    }
}

/// The kind a field names, case-insensitively; nothing for a kind outside
/// the recognized set.
pub open spec fn spec_kind(s: Seq<u8>) -> Option<TxKind> {
    if lower_bytes(s) == kind_bytes(TxKind::Deposit) {
        Option::Some(TxKind::Deposit)
    } else if lower_bytes(s) == kind_bytes(TxKind::Withdrawal) {
        Option::Some(TxKind::Withdrawal)
    } else if lower_bytes(s) == kind_bytes(TxKind::Dispute) {
        Option::Some(TxKind::Dispute)
    } else if lower_bytes(s) == kind_bytes(TxKind::Resolve) {
        Option::Some(TxKind::Resolve)
    } else if lower_bytes(s) == kind_bytes(TxKind::Chargeback) {
        Option::Some(TxKind::Chargeback)
    } else {
        Option::None
    }
}

/// The canonical spelling of a transaction kind, as bytes.
fn kind_pattern(k: TxKind) -> (r: Vec<u8>)
    ensures
        r@ == kind_bytes(k),
{
    let mut r: Vec<u8> = Vec::new();
    match k {
        TxKind::Deposit => {
            r.push(100);
            r.push(101);
            r.push(112);
            r.push(111);
            r.push(115);
            r.push(105);
            r.push(116);
        },
        TxKind::Withdrawal => {
            r.push(119);
            r.push(105);
            r.push(116);
            r.push(104);
            r.push(100);
            r.push(114);
            r.push(97);
            r.push(119);
            r.push(97);
            r.push(108);
        },
        TxKind::Dispute => {
            r.push(100);
            r.push(105);
            r.push(115);
            r.push(112);
            r.push(117);
            r.push(116);
            r.push(101);
        },
        TxKind::Resolve => {
            r.push(114);
            r.push(101);
            r.push(115);
            r.push(111);
            r.push(108);
            r.push(118);
            r.push(101);
        },
        TxKind::Chargeback => {
            r.push(99);
            r.push(104);
            r.push(97);
            r.push(114);
            r.push(103);
            r.push(101);
            r.push(98);
            r.push(97);
            r.push(99);
            r.push(107);
        },
    }
    proof {
        assert(r@ =~= kind_bytes(k));
    }
    r
}

/// Whether the field, folded to lower case, spells this kind.
fn matches_kind(s: &Vec<u8>, k: TxKind) -> (r: bool)
    ensures
        r == (lower_bytes(s@) == kind_bytes(k)),
{
    let pat = kind_pattern(k);
    let n = s.len();
    if n != pat.len() {
        return false;
    }
    let mut i: usize = 0;
    while i < n
        invariant
            i <= n,
            n == s@.len() == pat@.len(),
            pat@ == kind_bytes(k),
            forall|j: int| 0 <= j < i ==> lower_byte(s@[j]) == pat@[j],
        decreases n - i,
    {
        let b = s[i];
        let low = if b >= 65 && b <= 90 {
            b + 32
        } else {
            b
        };
        if low != pat[i] {
            proof {
                assert(lower_bytes(s@)[i as int] != kind_bytes(k)[i as int]);
            }
            return false;
        }
        i = i + 1;
    }
    proof {
        assert(lower_bytes(s@) =~= kind_bytes(k));
    }
    true
}

/// Reads a transaction kind from a field, case-insensitively.
pub fn parse_kind(s: &Vec<u8>) -> (r: Option<TxKind>)
    ensures
        r == spec_kind(s@),
{
    if matches_kind(s, TxKind::Deposit) {
        Option::Some(TxKind::Deposit)
    } else if matches_kind(s, TxKind::Withdrawal) {
        Option::Some(TxKind::Withdrawal)
    } else if matches_kind(s, TxKind::Dispute) {
        Option::Some(TxKind::Dispute)
    } else if matches_kind(s, TxKind::Resolve) {
        Option::Some(TxKind::Resolve)
    } else if matches_kind(s, TxKind::Chargeback) {
        Option::Some(TxKind::Chargeback)
    } else {
        Option::None
    }
}

/// What parsing one raw record yields: the fields are kind, client id,
/// transaction id and, optionally, amount. A record with fewer than three
/// fields, or an unreadable client or transaction id, is malformed; an
/// unrecognized kind is unsupported. An absent or empty amount field is an
/// absent amount (not zero), and so is one that is not a readable decimal:
/// the per-kind validation then rejects the record if its kind needed one.
pub open spec fn spec_parse_transaction(fields: Seq<Vec<u8>>) -> Result<Transaction, ErrorKind> {
    if fields.len() < 3 {
        Result::Err(ErrorKind::MalformedRecord)
    } else if spec_uint(fields[1]@, u16::MAX as int) is None || spec_uint(
        fields[2]@,
        u32::MAX as int,
    ) is None {
        Result::Err(ErrorKind::MalformedRecord)
    } else if spec_kind(fields[0]@) is None {
        Result::Err(ErrorKind::UnsupportedKind)
    } else {
        Result::Ok(
            Transaction {
                transaction_type: spec_kind(fields[0]@)->Some_0,
                client: spec_uint(fields[1]@, u16::MAX as int)->Some_0 as u16,
                tx: spec_uint(fields[2]@, u32::MAX as int)->Some_0 as u32,
                amount: if fields.len() < 4 || fields[3]@.len() == 0 || spec_amount(
                    fields[3]@,
                ) is None {
                    Option::None
                } else {
                    Option::Some(spec_amount(fields[3]@)->Some_0 as u64)
                },
            },
        )
    }
}

/// Parses one raw record, handed over as the bytes of its fields in input
/// order: kind, client id, transaction id and, optionally, amount. The
/// whole outcome is `spec_parse_transaction`.
pub fn parse_transaction(fields: &Vec<Vec<u8>>) -> (r: Result<Transaction, ErrorKind>)
    ensures
        r == spec_parse_transaction(fields@),
{
    if fields.len() < 3 {
        return Result::Err(ErrorKind::MalformedRecord);
    }
    let client = match parse_u16(&fields[1]) {
        Option::Some(c) => c,
        Option::None => {
            return Result::Err(ErrorKind::MalformedRecord);
        },
    };
    let tx = match parse_u32(&fields[2]) {
        Option::Some(t) => t,
        Option::None => {
            return Result::Err(ErrorKind::MalformedRecord);
        },
    };
    let transaction_type = match parse_kind(&fields[0]) {
        Option::Some(k) => k,
        Option::None => {
            return Result::Err(ErrorKind::UnsupportedKind);
        },
    };
    let amount = if fields.len() < 4 || fields[3].len() == 0 {
        Option::None
    } else {
        parse_amount(&fields[3])
    };
    Result::Ok(Transaction { transaction_type, client, tx, amount })
}

} // verus!
