//! Transaction records and the five kinds of transaction.

use vstd::prelude::*;

verus! {

/// What a transaction asks the ledger to do.
#[derive(Clone, Copy, Debug, PartialEq, Eq, Structural)]
pub enum TransactionKind {
    Deposit,
    Withdrawal,
    Dispute,
    Resolve,
    Chargeback,
}

/// One input record. `transaction_type` is the kind as it was written, in
/// any mix of upper and lower case; `amount` is in ticks and is only looked
/// at for deposits and withdrawals.
#[derive(Debug)]
pub struct Transaction {
    pub transaction_type: String,
    pub client: u16,
    pub tx: u32,
    pub amount: Option<i64>,
}

/// The mathematical content of a [`Transaction`].
pub struct Record {
    pub transaction_type: Seq<char>,
    pub client: u16,
    pub tx: u32,
    pub amount: Option<i64>,
}

impl View for Transaction {
    type V = Record;

    open spec fn view(&self) -> Record {
        Record {
            transaction_type: self.transaction_type@,
            client: self.client,
            tx: self.tx,
            amount: self.amount,
        }
    }
}

/// The views of a list of transactions, in the same order.
pub open spec fn records(transactions: Seq<Transaction>) -> Seq<Record> {
    transactions.map_values(|t: Transaction| t@)
}

/// The lower-case form of a text, as `str::to_lowercase` computes it.
pub uninterp spec fn lowercased(text: Seq<char>) -> Seq<char>;

/// `str::to_lowercase` of std: the result is the lower-case form of the
/// argument, a function of the argument's characters alone. Nothing further
/// is claimed about that form.
pub assume_specification[ str::to_lowercase ](text: &str) -> (lowered: String)
    ensures
        lowered@ == lowercased(text@),
;

/// The kind that a lower-case name stands for, if it is one of the five.
pub open spec fn kind_named(lowered: Seq<char>) -> Option<TransactionKind> {
    if lowered == "deposit"@ {
        Some(TransactionKind::Deposit)
    } else if lowered == "withdrawal"@ {
        Some(TransactionKind::Withdrawal)
    } else if lowered == "dispute"@ {
        Some(TransactionKind::Dispute)
    } else if lowered == "resolve"@ {
        Some(TransactionKind::Resolve)
    } else if lowered == "chargeback"@ {
        Some(TransactionKind::Chargeback)
    } else {
        None
    }
}

/// The kind of a record whose type was written as `text`: the kind named by
/// the lower-case form of `text`.
pub open spec fn kind_written(text: Seq<char>) -> Option<TransactionKind> {
    kind_named(lowercased(text))
}

/// Tells which kind a lower-case name stands for. Any other text, an
/// upper-case spelling included, names no kind.
pub fn parse_kind(lowered: &String) -> (kind: Option<TransactionKind>)
    ensures
        kind == kind_named(lowered@),
{
    if *lowered == String::from_str("deposit") {
        Some(TransactionKind::Deposit)
    } else if *lowered == String::from_str("withdrawal") {
        Some(TransactionKind::Withdrawal)
    } else if *lowered == String::from_str("dispute") {
        Some(TransactionKind::Dispute)
    } else if *lowered == String::from_str("resolve") {
        Some(TransactionKind::Resolve)
    } else if *lowered == String::from_str("chargeback") {
        Some(TransactionKind::Chargeback)
    } else {
        None
    }
}

impl Transaction {
    /// The kind of this record, read without regard to case; `None` when
    /// the type names none of the five kinds.
    pub fn kind(&self) -> (kind: Option<TransactionKind>)
        ensures
            kind == kind_written(self@.transaction_type),
    {
        let lowered = self.transaction_type.as_str().to_lowercase();
        parse_kind(&lowered)
    }
}

} // verus!
