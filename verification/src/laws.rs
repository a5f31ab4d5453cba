//! What holds of the ledger whatever the transactions are.

use vstd::prelude::*;
use crate::client::Account;
use crate::ledger::{book_valid, opening, settle, settle_from, step, step_keeps_valid};
use crate::transaction::{kind_written, Record, TransactionKind};

verus! {

/// A valid account stays valid under every transaction; in particular its
/// total stays the sum of its available and held funds.
pub proof fn account_stays_valid(account: Account, kind: TransactionKind, record: Record)
    requires
        account.valid(),
    ensures
        account.apply(kind, record).valid(),
{
}

/// The account that a first deposit opens is valid.
pub proof fn opened_account_is_valid(record: Record)
    requires
        Account::usable(record.amount),
    ensures
        opening(record).valid(),
{
}

/// A transaction touches no account but that of its own client, and it
/// removes no account.
pub proof fn other_clients_are_untouched(
    book: Map<u16, Account>,
    kind: Option<TransactionKind>,
    record: Record,
    id: u16,
)
    ensures
        book.contains_key(id) ==> step(book, kind, record).contains_key(id),
        id != record.client ==> step(book, kind, record).contains_key(id) == book.contains_key(id),
        id != record.client && book.contains_key(id) ==> step(book, kind, record)[id] == book[id],
{
}

/// Starting from valid accounts, the accounts are valid after any list of
/// records.
pub proof fn settle_from_keeps_valid(book: Map<u16, Account>, records: Seq<Record>)
    requires
        book_valid(book),
    ensures
        book_valid(settle_from(book, records)),
    decreases records.len(),
{
    if records.len() > 0 {
        settle_from_keeps_valid(book, records.drop_last());
        step_keeps_valid(
            settle_from(book, records.drop_last()),
            kind_written(records.last().transaction_type),
            records.last(),
        );
    }
}

/// After any list of records, and so after each record of any list, the
/// total funds of every account are the sum of its available and held
/// funds.
pub proof fn totals_add_up(records: Seq<Record>, id: u16)
    requires
        settle(records).contains_key(id),
    ensures
        settle(records)[id].total == settle(records)[id].available + settle(records)[id].held,
{
    settle_from_keeps_valid(Map::empty(), records);
}

/// A locked account ignores every transaction.
pub proof fn locked_account_ignores(account: Account, kind: TransactionKind, record: Record)
    requires
        account.locked,
    ensures
        account.apply(kind, record) == account,
{
}

/// Once an account is locked, no list of records, for this client or for
/// any other, changes anything in it.
pub proof fn locked_account_stays(book: Map<u16, Account>, records: Seq<Record>, id: u16)
    requires
        book.contains_key(id),
        book[id].locked,
    ensures
        settle_from(book, records).contains_key(id),
        settle_from(book, records)[id] == book[id],
    decreases records.len(),
{
    if records.len() > 0 {
        locked_account_stays(book, records.drop_last(), id);
        let kind = kind_written(records.last().transaction_type);
        if kind is Some {
            locked_account_ignores(book[id], kind->0, records.last());
        }
    }
}

/// Resolving a transaction that has no open dispute changes nothing.
pub proof fn resolve_without_dispute_changes_nothing(book: Map<u16, Account>, record: Record)
    requires
        !(book.contains_key(record.client) && book[record.client].open_disputes.contains_key(
            record.tx,
        )),
    ensures
        step(book, Some(TransactionKind::Resolve), record) == book,
{
    assert(step(book, Some(TransactionKind::Resolve), record) =~= book);
}

/// Resolving the same transaction a second time changes nothing.
pub proof fn second_resolve_changes_nothing(book: Map<u16, Account>, record: Record)
    ensures
        step(step(book, Some(TransactionKind::Resolve), record), Some(TransactionKind::Resolve), record)
            == step(book, Some(TransactionKind::Resolve), record),
{
    let once = step(book, Some(TransactionKind::Resolve), record);
    if book.contains_key(record.client) {
        let account = book[record.client];
        assert(account.resolve(record.tx).resolve(record.tx) == account.resolve(record.tx));
    }
    assert(step(once, Some(TransactionKind::Resolve), record) =~= once);
}

/// For a client without an account, anything but a deposit changes
/// nothing: no account appears.
pub proof fn unknown_client_is_ignored(
    book: Map<u16, Account>,
    kind: Option<TransactionKind>,
    record: Record,
)
    requires
        !book.contains_key(record.client),
        kind != Some(TransactionKind::Deposit),
    ensures
        step(book, kind, record) == book,
{
}

/// A client for whom the records hold no deposit with a usable amount has
/// no account in the end.
pub proof fn no_deposit_no_account(book: Map<u16, Account>, records: Seq<Record>, id: u16)
    requires
        !book.contains_key(id),
        forall|i: int|
            0 <= i < records.len() && (#[trigger] records[i]).client == id ==> !(kind_written(
                records[i].transaction_type,
            ) == Some(TransactionKind::Deposit) && Account::usable(records[i].amount)),
    ensures
        !settle_from(book, records).contains_key(id),
    decreases records.len(),
{
    if records.len() > 0 {
        let earlier = records.drop_last();
        assert forall|i: int| 0 <= i < earlier.len() && (#[trigger] earlier[i]).client == id implies !(
        kind_written(earlier[i].transaction_type) == Some(TransactionKind::Deposit)
            && Account::usable(earlier[i].amount)) by {
            assert(earlier[i] == records[i]);
        }
        no_deposit_no_account(book, earlier, id);
        assert(records.last() == records[records.len() - 1]);
    }
}

} // verus!
