//! One client's account: its balances, the transactions it remembers and
//! the disputes that are open against it.

use std::collections::HashMap;
use vstd::prelude::*;
use crate::amount::{truncate, truncated};
use crate::transaction::{Record, Transaction, TransactionKind};

verus! {

broadcast use vstd::std_specs::hash::group_hash_axioms;

/// The mathematical content of a [`Client`]: balances without bounds, and
/// the two tables as maps.
pub struct Account {
    pub id: u16,
    pub available: int,
    pub held: int,
    pub total: int,
    pub locked: bool,
    /// The deposit or withdrawal that first used each transaction id.
    pub history: Map<u32, Record>,
    /// The amount frozen under each transaction id whose dispute is open.
    pub open_disputes: Map<u32, int>,
}

impl Account {
    /// An account that holds `amount` and nothing else.
    pub open spec fn opened(id: u16, amount: int) -> Account {
        Account {
            id,
            available: amount,
            held: 0,
            total: amount,
            locked: false,
            history: Map::empty(),
            open_disputes: Map::empty(),
        }
    }

    /// The account with `record` entered in its history, unless the
    /// history already has a record under that transaction id.
    pub open spec fn remember(self, record: Record) -> Account {
        if self.history.contains_key(record.tx) {
            self
        } else {
            Account { history: self.history.insert(record.tx, record), ..self }
        }
    }

    /// Whether `amount` is there and not negative.
    pub open spec fn usable(amount: Option<i64>) -> bool {
        amount is Some && amount->0 >= 0
    }

    /// A deposit adds its amount to the available and total funds.
    pub open spec fn deposit(self, record: Record) -> Account {
        if !self.locked && Self::usable(record.amount) {
            Account {
                available: self.available + record.amount->0,
                total: self.total + record.amount->0,
                ..self
            }.remember(record)
        } else {
            self
        }
    }

    /// A withdrawal that the available funds cover takes its amount, cut to
    /// four decimal places, from the available and total funds.
    pub open spec fn withdraw(self, record: Record) -> Account {
        if !self.locked && Self::usable(record.amount) && record.amount->0 <= self.available {
            Account {
                available: self.available - truncated(record.amount->0 as int),
                total: self.total - truncated(record.amount->0 as int),
                ..self
            }.remember(record)
        } else {
            self
        }
    }

    /// The amount that a dispute of transaction `tx` freezes.
    pub open spec fn disputed_amount(self, tx: u32) -> int {
        truncated(self.history[tx].amount->0 as int)
    }

    /// A dispute of a remembered transaction moves its amount, cut to four
    /// decimal places, from the available to the held funds.
    pub open spec fn dispute(self, tx: u32) -> Account {
        if !self.locked && self.history.contains_key(tx) {
            Account {
                available: self.available - self.disputed_amount(tx),
                held: self.held + self.disputed_amount(tx),
                open_disputes: self.open_disputes.insert(tx, self.disputed_amount(tx)),
                ..self
            }
        } else {
            self
        }
    }

    /// Whether a dispute of transaction `tx` can be closed now.
    pub open spec fn disputed(self, tx: u32) -> bool {
        !self.locked && self.history.contains_key(tx) && self.open_disputes.contains_key(tx)
    }

    /// Resolving an open dispute gives the frozen amount back.
    pub open spec fn resolve(self, tx: u32) -> Account {
        if self.disputed(tx) {
            Account {
                available: self.available + self.open_disputes[tx],
                held: self.held - self.open_disputes[tx],
                open_disputes: self.open_disputes.remove(tx),
                ..self
            }
        } else {
            self
        }
    }

    /// A chargeback on an open dispute removes the frozen amount for good
    /// and locks the account.
    pub open spec fn chargeback(self, tx: u32) -> Account {
        if self.disputed(tx) {
            Account {
                held: self.held - self.open_disputes[tx],
                total: self.total - self.open_disputes[tx],
                locked: true,
                open_disputes: self.open_disputes.remove(tx),
                ..self
            }
        } else {
            self
        }
    }

    /// The account after a transaction of the given kind.
    pub open spec fn apply(self, kind: TransactionKind, record: Record) -> Account {
        match kind {
            TransactionKind::Deposit => self.deposit(record),
            TransactionKind::Withdrawal => self.withdraw(record),
            TransactionKind::Dispute => self.dispute(record.tx),
            TransactionKind::Resolve => self.resolve(record.tx),
            TransactionKind::Chargeback => self.chargeback(record.tx),
        }
    }

    /// What holds of every account that the ledger builds: the total is the
    /// sum of the available and held funds, every remembered record has a
    /// usable amount, and every open dispute freezes the cut amount of a
    /// remembered record.
    pub open spec fn valid(self) -> bool {
        &&& self.total == self.available + self.held
        &&& forall|tx: u32| #[trigger]
            self.history.contains_key(tx) ==> Self::usable(self.history[tx].amount)
        &&& forall|tx: u32| #[trigger]
            self.open_disputes.contains_key(tx) ==> self.history.contains_key(tx)
                && self.open_disputes[tx] == self.disputed_amount(tx)
    }

    /// Whether each of the three balances lies between `-bound` and `bound`.
    pub open spec fn within(self, bound: int) -> bool {
        &&& -bound <= self.available <= bound
        &&& -bound <= self.held <= bound
        &&& -bound <= self.total <= bound
    }
}

/// The largest balance, in either direction, that leaves room for one more
/// transaction.
pub open spec fn headroom() -> int {
    i128::MAX - i64::MAX
}

/// A client's account as the ledger keeps it. Balances are in ticks.
#[derive(Debug)]
pub struct Client {
    pub id: u16,
    pub available: i128,
    pub held: i128,
    pub total: i128,
    pub locked: bool,
    pub transactions: HashMap<u32, Transaction>,
    pub disputes: HashMap<u32, i64>,
}

impl View for Client {
    type V = Account;

    open spec fn view(&self) -> Account {
        Account {
            id: self.id,
            available: self.available as int,
            held: self.held as int,
            total: self.total as int,
            locked: self.locked,
            history: self.transactions@.map_values(|t: Transaction| t@),
            open_disputes: self.disputes@.map_values(|amount: i64| amount as int),
        }
    }
}

/// Opens an account for client `id` with `amount` as its first funds.
/// Without an amount there is no account.
pub fn build_client(id: u16, amount: Option<i64>) -> (client: Option<Client>)
    ensures
        amount is None ==> client is None,
        amount is Some ==> client is Some && client->0@ == Account::opened(id, amount->0 as int),
        client is Some ==> client->0@.valid(),
{
    match amount {
        None => None,
        Some(funds) => {
            let client = Client {
                id,
                available: funds as i128,
                held: 0,
                total: funds as i128,
                locked: false,
                transactions: HashMap::new(),
                disputes: HashMap::new(),
            };
            assert(client@.history =~= Map::empty());
            assert(client@.open_disputes =~= Map::empty());
            Some(client)
        },
    }
}

impl Client {
    /// Whether this account is one that the ledger could have built and
    /// that has room for one more transaction.
    pub open spec fn ready(&self) -> bool {
        self@.valid() && self@.within(headroom())
    }

    /// Enters a deposit or withdrawal in the history, unless its
    /// transaction id is already taken.
    pub fn remember(&mut self, transaction: Transaction)
        ensures
            final(self)@ == old(self)@.remember(transaction@),
    {
        if !self.transactions.contains_key(&transaction.tx) {
            self.transactions.insert(transaction.tx, transaction);
            assert(self@.history =~= old(self)@.history.insert(transaction.tx, transaction@));
        }
    }

    /// Applies a deposit; a locked account, or a missing or negative
    /// amount, leaves everything as it was.
    pub fn deposit(&mut self, transaction: Transaction)
        requires
            old(self).ready(),
        ensures
            final(self)@ == old(self)@.deposit(transaction@),
            final(self)@.valid(),
    {
        if let Some(amount) = transaction.amount {
            if amount >= 0 && !self.locked {
                self.available = self.available + amount as i128;
                self.total = self.total + amount as i128;
                self.remember(transaction);
            }
        }
    }

    /// Applies a withdrawal; a locked account, a missing or negative
    /// amount, or one above the available funds, leaves everything as it
    /// was.
    pub fn withdraw(&mut self, transaction: Transaction)
        requires
            old(self).ready(),
        ensures
            final(self)@ == old(self)@.withdraw(transaction@),
            final(self)@.valid(),
    {
        if let Some(amount) = transaction.amount {
            if amount as i128 <= self.available && amount >= 0 && !self.locked {
                let taken = truncate(amount);
                self.available = self.available - taken as i128;
                self.total = self.total - taken as i128;
                self.remember(transaction);
            }
        }
    }

    /// Opens a dispute of transaction `tx`; a locked account, or an id that
    /// the history does not have, leaves everything as it was.
    pub fn dispute(&mut self, tx: u32)
        requires
            old(self).ready(),
        ensures
            final(self)@ == old(self)@.dispute(tx),
            final(self)@.valid(),
    {
        if self.locked {
            return ;
        }
        let frozen = match self.transactions.get(&tx) {
            Some(disputed) => {
                assert(self@.history.contains_key(tx) && self@.history[tx] == disputed@);
                truncate(disputed.amount.unwrap())
            },
            None => { return ; },
        };
        self.held = self.held + frozen as i128;
        self.available = self.available - frozen as i128;
        self.disputes.insert(tx, frozen);
        assert(self@.open_disputes =~= old(self)@.open_disputes.insert(tx, frozen as int));
    }

    /// The amount frozen under `tx`, if a dispute of it can be closed now.
    fn frozen(&self, tx: u32) -> (amount: Option<i64>)
        ensures
            amount is Some <==> self@.disputed(tx),
            amount is Some ==> amount->0 == self@.open_disputes[tx],
    {
        if self.locked || !self.transactions.contains_key(&tx) {
            return None;
        }
        match self.disputes.get(&tx) {
            Some(amount) => Some(*amount),
            None => None,
        }
    }

    /// Closes the dispute of transaction `tx` in the client's favour; a
    /// locked account, or an id with no open dispute, leaves everything as
    /// it was.
    pub fn resolve(&mut self, tx: u32)
        requires
            old(self).ready(),
        ensures
            final(self)@ == old(self)@.resolve(tx),
            final(self)@.valid(),
    {
        if let Some(amount) = self.frozen(tx) {
            self.held = self.held - amount as i128;
            self.available = self.available + amount as i128;
            self.disputes.remove(&tx);
            assert(self@.open_disputes =~= old(self)@.open_disputes.remove(tx));
        }
    }

    /// Closes the dispute of transaction `tx` against the client and locks
    /// the account; a locked account, or an id with no open dispute, leaves
    /// everything as it was.
    pub fn chargeback(&mut self, tx: u32)
        requires
            old(self).ready(),
        ensures
            final(self)@ == old(self)@.chargeback(tx),
            final(self)@.valid(),
    {
        if let Some(amount) = self.frozen(tx) {
            self.total = self.total - amount as i128;
            self.held = self.held - amount as i128;
            self.locked = true;
            self.disputes.remove(&tx);
            assert(self@.open_disputes =~= old(self)@.open_disputes.remove(tx));
        }
    }

    /// Applies one transaction of the given kind to this account.
    pub fn apply(&mut self, kind: TransactionKind, transaction: Transaction)
        requires
            old(self).ready(),
        ensures
            final(self)@ == old(self)@.apply(kind, transaction@),
            final(self)@.valid(),
    {
        match kind {
            TransactionKind::Deposit => self.deposit(transaction),
            TransactionKind::Withdrawal => self.withdraw(transaction),
            TransactionKind::Dispute => self.dispute(transaction.tx),
            TransactionKind::Resolve => self.resolve(transaction.tx),
            TransactionKind::Chargeback => self.chargeback(transaction.tx),
        }
    }
}

} // verus!
