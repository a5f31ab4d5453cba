use ledger_engine::amount::parse_amount;
use ledger_engine::client::{build_client, Client};
use ledger_engine::ledger::aggregate_data;
use ledger_engine::report::{format_row, output_csv};
use ledger_engine::transaction::Transaction;
use std::collections::HashMap;

fn line(kind: &str, client: u16, tx: u32, amount: &str) -> Transaction {
    Transaction {
        transaction_type: kind.to_string(),
        client,
        tx,
        amount: parse_amount(amount.as_bytes()),
    }
}

#[test]
fn row_of_a_fresh_client() {
    let client = build_client(42, Some(150_000_000)).unwrap();
    assert_eq!(format_row(&client), "42,1.5000,0.0000,1.5000,false");
}

#[test]
fn row_of_a_locked_client() {
    let clients = aggregate_data(vec![
        line("deposit", 65535, 1, "10.0"),
        line("deposit", 65535, 2, "0.12345"),
        line("dispute", 65535, 1, ""),
        line("chargeback", 65535, 1, ""),
    ]);
    assert_eq!(format_row(&clients[&65535]), "65535,0.1234,0.0000,0.1234,true");
}

#[test]
fn row_with_funds_held_and_available_below_zero() {
    let clients = aggregate_data(vec![
        line("deposit", 0, 1, "1.23456"),
        line("withdrawal", 0, 2, "1.0"),
        line("dispute", 0, 1, ""),
    ]);
    assert_eq!(format_row(&clients[&0]), "0,-0.9999,1.2345,0.2346,false");
}

#[test]
fn table_of_no_client_is_the_header() {
    let clients: HashMap<u16, Client> = HashMap::new();
    assert_eq!(output_csv(&clients), vec!["client,available,held,total,locked".to_string()]);
}

#[test]
fn table_has_one_row_for_every_client() {
    let clients = aggregate_data(vec![
        line("deposit", 1, 1, "5.0"),
        line("deposit", 2, 2, "5.0"),
        line("withdrawal", 1, 3, "3.0"),
        line("withdrawal", 2, 4, "7.0"),
        line("deposit", 3, 5, "10.0"),
        line("dispute", 3, 5, ""),
        line("chargeback", 3, 5, ""),
        line("withdrawal", 4, 6, "1.0"),
    ]);
    let lines = output_csv(&clients);
    assert_eq!(lines.len(), 4);
    assert_eq!(lines[0], "client,available,held,total,locked");
    let mut rows: Vec<String> = lines[1..].to_vec();
    rows.sort();
    assert_eq!(
        rows,
        vec![
            "1,2.0000,0.0000,2.0000,false".to_string(),
            "2,5.0000,0.0000,5.0000,false".to_string(),
            "3,0.0000,0.0000,0.0000,true".to_string(),
        ]
    );
}
