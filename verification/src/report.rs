//! The summary table: a header and one line for every client.

use std::collections::HashMap;
use vstd::prelude::*;
use vstd::std_specs::iter::IteratorSpec;
use crate::amount::{decimal, push_decimal, render, rendered};
use crate::client::{Account, Client};
use crate::ledger::accounts;

verus! {

broadcast use vstd::std_specs::hash::group_hash_axioms;

/// The first line of the table.
pub open spec fn header() -> Seq<char> {
    "client,available,held,total,locked"@
}

/// The line of one account: its id, its three balances with four decimal
/// places each, and whether it is locked.
pub open spec fn row(account: Account) -> Seq<char> {
    decimal(account.id as nat) + ","@ + rendered(account.available) + ","@ + rendered(account.held)
        + ","@ + rendered(account.total) + ","@ + (if account.locked {
        "true"@
    } else {
        "false"@
    })
}

/// The table with the accounts in the given order.
pub open spec fn table(book: Map<u16, Account>, order: Seq<u16>) -> Seq<Seq<char>> {
    seq![header()] + order.map_values(|id: u16| row(book[id]))
}

/// What a list of lines says.
pub open spec fn texts(lines: Seq<String>) -> Seq<Seq<char>> {
    lines.map_values(|line: String| line@)
}

/// Writes the line of one client.
pub fn format_row(client: &Client) -> (line: String)
    ensures
        line@ == row(client@),
{
    let mut line = String::new();
    push_decimal(&mut line, client.id as u128);
    line.append(",");
    line.append(render(client.available).as_str());
    line.append(",");
    line.append(render(client.held).as_str());
    line.append(",");
    line.append(render(client.total).as_str());
    line.append(",");
    if client.locked {
        line.append("true");
    } else {
        line.append("false");
    }
    assert(line@ =~= row(client@));
    line
}

/// Writes the table: the header, then the line of every client, each
/// client once, in an order that is left open.
pub fn output_csv(clients: &HashMap<u16, Client>) -> (lines: Vec<String>)
    ensures
        exists|order: Seq<u16>|
            order.no_duplicates() && order.to_set() == clients@.dom() && texts(lines@) == #[trigger] table(
                accounts(clients@),
                order,
            ),
{
    let ghost book = accounts(clients@);
    let ghost order = clients.keys().remaining().unref();
    let mut lines: Vec<String> = Vec::new();
    lines.push(String::from_str("client,available,held,total,locked"));
    assert(texts(lines@) =~= table(book, order.take(0)));
    for id in iter: clients.keys()
        invariant
            iter.seq().unref() == order,
            order.to_set() == clients@.dom(),
            book == accounts(clients@),
            texts(lines@) == table(book, order.take(iter.index())),
    {
        let ghost done = iter.index();
        assert(order.to_set().contains(order[done]));
        match clients.get(id) {
            Some(client) => {
                let ghost earlier = lines@;
                let line = format_row(client);
                lines.push(line);
                assert(book.contains_key(*id) && book[*id] == client@);
                assert(order.take(done + 1) =~= order.take(done).push(*id));
                assert(texts(lines@) =~= texts(earlier).push(row(book[*id])));
                assert(table(book, order.take(done).push(*id)) =~= table(
                    book,
                    order.take(done),
                ).push(row(book[*id])));
                assert(texts(lines@) =~= table(book, order.take(done + 1)));
            },
            None => {
                assert(false);
            },
        }
    }
    assert(order.take(order.len() as int) =~= order);
    lines
}

} // verus!
