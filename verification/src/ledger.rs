//! The ledger: every client's account under the client's id, and the rule
//! by which one transaction after another changes it.

use std::collections::hash_map::Entry;
use std::collections::HashMap;
use vstd::prelude::*;
use crate::client::{build_client, headroom, Account, Client};
use crate::transaction::{kind_written, records, Record, Transaction, TransactionKind};

verus! {

broadcast use vstd::std_specs::hash::group_hash_axioms;

/// The accounts of a ledger, each under its client's id.
pub open spec fn accounts(clients: Map<u16, Client>) -> Map<u16, Account> {
    clients.map_values(|client: Client| client@)
}

/// Whether every account is valid and filed under its own id.
pub open spec fn book_valid(book: Map<u16, Account>) -> bool {
    forall|id: u16| #[trigger] book.contains_key(id) ==> book[id].valid() && book[id].id == id
}

/// Whether every balance of every account lies between `-bound` and
/// `bound`.
pub open spec fn book_within(book: Map<u16, Account>, bound: int) -> bool {
    forall|id: u16| #[trigger] book.contains_key(id) ==> book[id].within(bound)
}

/// The account that a first deposit opens.
pub open spec fn opening(record: Record) -> Account {
    Account::opened(record.client, record.amount->0 as int).remember(record)
}

/// The accounts after one transaction of a known kind, or of none.
///
/// A record of no kind changes nothing. A transaction for a client who has
/// an account is applied to that account. For a client without one, a
/// deposit with a usable amount opens the account, and anything else
/// changes nothing.
pub open spec fn step(book: Map<u16, Account>, kind: Option<TransactionKind>, record: Record) -> Map<
    u16,
    Account,
> {
    if kind is None {
        book
    } else if book.contains_key(record.client) {
        book.insert(record.client, book[record.client].apply(kind->0, record))
    } else if kind == Some(TransactionKind::Deposit) && Account::usable(record.amount) {
        book.insert(record.client, opening(record))
    } else {
        book
    }
}

/// The accounts after one record, its kind read from its type.
pub open spec fn post(book: Map<u16, Account>, record: Record) -> Map<u16, Account> {
    step(book, kind_written(record.transaction_type), record)
}

/// The accounts after a list of records, taken in order, starting from
/// `book`.
pub open spec fn settle_from(book: Map<u16, Account>, records: Seq<Record>) -> Map<u16, Account>
    decreases records.len(),
{
    if records.len() == 0 {
        book
    } else {
        post(settle_from(book, records.drop_last()), records.last())
    }
}

/// The accounts after a list of records, starting with no account at all.
pub open spec fn settle(records: Seq<Record>) -> Map<u16, Account> {
    settle_from(Map::empty(), records)
}

/// Applies one transaction whose kind has been read already.
pub fn apply_transaction(
    clients: &mut HashMap<u16, Client>,
    kind: Option<TransactionKind>,
    transaction: Transaction,
)
    requires
        book_valid(accounts(old(clients)@)),
        book_within(accounts(old(clients)@), headroom()),
    ensures
        accounts(final(clients)@) == step(accounts(old(clients)@), kind, transaction@),
        book_valid(accounts(final(clients)@)),
{
    let ghost before = accounts(clients@);
    let ghost record = transaction@;
    proof {
        step_keeps_valid(before, kind, record);
    }
    if let Some(known) = kind {
        let id = transaction.client;
        match clients.entry(id) {
            Entry::Occupied(mut occupied) => {
                let client = occupied.get_mut();
                client.apply(known, transaction);
            },
            Entry::Vacant(vacant) => {
                if let TransactionKind::Deposit = known {
                    if let Some(amount) = transaction.amount {
                        if amount >= 0 {
                            if let Some(mut client) = build_client(id, Some(amount)) {
                                client.remember(transaction);
                                vacant.insert(client);
                            }
                        }
                    }
                }
            },
        }
    }
    assert(accounts(clients@) =~= step(before, kind, record));
}

/// Applies one transaction, reading its kind from its type without regard
/// to case.
pub fn process_transaction(clients: &mut HashMap<u16, Client>, transaction: Transaction)
    requires
        book_valid(accounts(old(clients)@)),
        book_within(accounts(old(clients)@), headroom()),
    ensures
        accounts(final(clients)@) == post(accounts(old(clients)@), transaction@),
        book_valid(accounts(final(clients)@)),
{
    let kind = transaction.kind();
    apply_transaction(clients, kind, transaction);
}

/// Runs a list of transactions, in order, against an empty ledger and
/// returns the accounts that result.
pub fn aggregate_data(transactions: Vec<Transaction>) -> (clients: HashMap<u16, Client>)
    ensures
        accounts(clients@) == settle(records(transactions@)),
        book_valid(accounts(clients@)),
        book_within(accounts(clients@), transactions@.len() * i64::MAX),
{
    let ghost input = records(transactions@);
    assert(input.len() == transactions.len());
    let mut clients: HashMap<u16, Client> = HashMap::new();
    assert(accounts(clients@) =~= Map::empty());
    for transaction in iter: transactions
        invariant
            records(iter.seq()) == input,
            input.len() <= usize::MAX,
            accounts(clients@) == settle(input.take(iter.index())),
            book_valid(accounts(clients@)),
            book_within(accounts(clients@), iter.index() * i64::MAX),
    {
        let ghost done = iter.index();
        let ghost before = accounts(clients@);
        proof {
            assert(done < input.len());
            assert(done * i64::MAX <= headroom()) by (nonlinear_arith)
                requires
                    0 <= done < 0x1_0000_0000_0000_0000,
                    headroom() == 0x7fff_ffff_ffff_ffff_ffff_ffff_ffff_ffff - 0x7fff_ffff_ffff_ffff,
                    i64::MAX == 0x7fff_ffff_ffff_ffff,
            ;
            step_moves_little(
                before,
                kind_written(transaction@.transaction_type),
                transaction@,
                done * i64::MAX,
            );
            assert(done * i64::MAX + i64::MAX == (done + 1) * i64::MAX) by (nonlinear_arith);
            assert(input.take(done + 1).drop_last() =~= input.take(done));
            assert(input.take(done + 1).last() == transaction@);
        }
        process_transaction(&mut clients, transaction);
    }
    assert(input.take(input.len() as int) =~= input);
    clients
}

/// No transaction moves a balance by more than the largest amount that a
/// record can carry.
pub proof fn step_moves_little(
    book: Map<u16, Account>,
    kind: Option<TransactionKind>,
    record: Record,
    bound: int,
)
    requires
        book_valid(book),
        book_within(book, bound),
        bound >= 0,
    ensures
        book_within(step(book, kind, record), bound + i64::MAX),
{
    let after = step(book, kind, record);
    assert forall|id: u16| #[trigger] after.contains_key(id) implies after[id].within(
        bound + i64::MAX,
    ) by {
        if book.contains_key(id) {
            assert(book[id].valid());
            assert(book[id].within(bound));
            if id == record.client && kind is Some {
                let account = book[id];
                if account.history.contains_key(record.tx) {
                    assert(Account::usable(account.history[record.tx].amount));
                }
                if account.open_disputes.contains_key(record.tx) {
                    assert(account.open_disputes[record.tx] == account.disputed_amount(record.tx));
                }
            }
        }
    }
}

/// Every valid account stays valid under every transaction, and a first
/// deposit opens a valid account.
pub proof fn step_keeps_valid(book: Map<u16, Account>, kind: Option<TransactionKind>, record: Record)
    requires
        book_valid(book),
    ensures
        book_valid(step(book, kind, record)),
{
    let after = step(book, kind, record);
    assert forall|id: u16| #[trigger] after.contains_key(id) implies after[id].valid() && after[id].id
        == id by {
        if book.contains_key(id) {
            assert(book[id].valid());
        }
    }
}

} // verus!
