use std::collections::HashMap;
use std::io::Cursor;
use std::str::FromStr;

use accounts_manager::amount::Amount;
use accounts_manager::engine::PaymentsEngine;
use accounts_manager::types::{TransactionRecord, TransactionType};
use rust_decimal::Decimal;

/// Parse a decimal literal for test assertions.
fn dec(s: &str) -> Decimal {
    Decimal::from_str(s).unwrap()
}

fn to_amount(d: Decimal) -> Amount {
    Amount::new(d.mantissa(), d.scale()).unwrap()
}

fn to_decimal(a: Amount) -> Decimal {
    Decimal::from_i128_with_scale(a.mantissa, a.scale)
}

/// Account state returned by the test engine.
#[derive(Debug)]
struct AccountState {
    available: Decimal,
    held: Decimal,
    total: Decimal,
    locked: bool,
}

fn parse_kind(s: &str) -> Option<TransactionType> {
    match s {
        "deposit" => Some(TransactionType::Deposit),
        "withdrawal" => Some(TransactionType::Withdrawal),
        "dispute" => Some(TransactionType::Dispute),
        "resolve" => Some(TransactionType::Resolve),
        "chargeback" => Some(TransactionType::Chargeback),
        _ => None,
    }
}

fn parse_row(row: &csv::StringRecord) -> Option<TransactionRecord> {
    let kind = parse_kind(row.get(0)?)?;
    let client = row.get(1)?.parse::<u16>().ok()?;
    let tx = row.get(2)?.parse::<u32>().ok()?;
    let amount = match row.get(3) {
        None | Some("") => None,
        Some(text) => Some(to_amount(Decimal::from_str(text).ok()?)),
    };
    Some(TransactionRecord { kind, client, tx, amount })
}

/// Run the full engine pipeline on raw CSV input and return parsed output rows.
fn run_engine(csv_input: &str) -> HashMap<u16, AccountState> {
    let cursor = Cursor::new(csv_input);
    let mut reader = csv::ReaderBuilder::new()
        .trim(csv::Trim::All)
        .flexible(true)
        .from_reader(cursor);

    let mut engine = PaymentsEngine::new();
    for result in reader.records() {
        let record = match result {
            Ok(row) => match parse_row(&row) {
                Some(r) => r,
                None => continue,
            },
            Err(_) => continue,
        };
        assert!(engine.try_process(record));
    }

    let mut result_map = HashMap::new();
    for line in engine.output_records() {
        result_map.insert(
            line.client,
            AccountState {
                available: to_decimal(line.available),
                held: to_decimal(line.held),
                total: to_decimal(line.total),
                locked: line.locked,
            },
        );
    }
    result_map
}

#[test]
fn test_basic_deposits_and_withdrawals() {
    let input = "\
type, client, tx, amount
deposit, 1, 1, 1.0
deposit, 2, 2, 2.0
deposit, 1, 3, 2.0
withdrawal, 1, 4, 1.5
withdrawal, 2, 5, 3.0
";
    let out = run_engine(input);

    let c1 = &out[&1];
    assert_eq!(c1.available, dec("1.5"));
    assert_eq!(c1.held, dec("0"));
    assert_eq!(c1.total, dec("1.5"));
    assert!(!c1.locked);

    let c2 = &out[&2];
    assert_eq!(c2.available, dec("2.0"));
    assert_eq!(c2.held, dec("0"));
    assert_eq!(c2.total, dec("2.0"));
    assert!(!c2.locked);
}

#[test]
fn test_dispute_then_resolve() {
    let input = "\
type, client, tx, amount
deposit, 1, 1, 10.0
dispute, 1, 1,
resolve, 1, 1,
";
    let out = run_engine(input);
    let c1 = &out[&1];
    assert_eq!(c1.available, dec("10.0"));
    assert_eq!(c1.held, dec("0"));
    assert_eq!(c1.total, dec("10.0"));
    assert!(!c1.locked);
}

#[test]
fn test_dispute_then_chargeback() {
    let input = "\
type, client, tx, amount
deposit, 1, 1, 10.0
dispute, 1, 1,
chargeback, 1, 1,
";
    let out = run_engine(input);
    let c1 = &out[&1];
    assert_eq!(c1.available, dec("0"));
    assert_eq!(c1.held, dec("0"));
    assert_eq!(c1.total, dec("0"));
    assert!(c1.locked);
}

#[test]
fn test_dispute_nonexistent_tx_ignored() {
    let input = "\
type, client, tx, amount
deposit, 1, 1, 5.0
dispute, 1, 999,
";
    let out = run_engine(input);
    let c1 = &out[&1];
    assert_eq!(c1.available, dec("5.0"));
    assert_eq!(c1.held, dec("0"));
    assert_eq!(c1.total, dec("5.0"));
    assert!(!c1.locked);
}

#[test]
fn test_resolve_without_dispute_ignored() {
    let input = "\
type, client, tx, amount
deposit, 1, 1, 5.0
resolve, 1, 1,
";
    let out = run_engine(input);
    let c1 = &out[&1];
    assert_eq!(c1.available, dec("5.0"));
    assert_eq!(c1.held, dec("0"));
}

#[test]
fn test_chargeback_without_dispute_ignored() {
    let input = "\
type, client, tx, amount
deposit, 1, 1, 5.0
chargeback, 1, 1,
";
    let out = run_engine(input);
    let c1 = &out[&1];
    assert_eq!(c1.available, dec("5.0"));
    assert_eq!(c1.held, dec("0"));
    assert!(!c1.locked);
}

#[test]
fn test_locked_account_ignores_deposits_and_withdrawals() {
    let input = "\
type, client, tx, amount
deposit, 1, 1, 10.0
dispute, 1, 1,
chargeback, 1, 1,
deposit, 1, 2, 50.0
withdrawal, 1, 3, 1.0
";
    let out = run_engine(input);
    let c1 = &out[&1];
    assert_eq!(c1.available, dec("0"));
    assert_eq!(c1.total, dec("0"));
    assert!(c1.locked);
}

#[test]
fn test_locked_account_rejects_disputes() {
    let input = "\
type, client, tx, amount
deposit, 1, 1, 10.0
deposit, 1, 2, 5.0
dispute, 1, 1,
chargeback, 1, 1,
dispute, 1, 2,
";
    let out = run_engine(input);
    let c1 = &out[&1];
    // Dispute on tx 2 should be ignored because account is locked
    assert_eq!(c1.available, dec("5.0"));
    assert_eq!(c1.held, dec("0"));
    assert_eq!(c1.total, dec("5.0"));
    assert!(c1.locked);
}

#[test]
fn test_decimal_precision() {
    let input = "\
type, client, tx, amount
deposit, 1, 1, 1.1111
deposit, 1, 2, 2.2222
withdrawal, 1, 3, 0.3333
";
    let out = run_engine(input);
    let c1 = &out[&1];
    assert_eq!(c1.available, dec("3.0000"));
    assert_eq!(c1.total, dec("3.0000"));
}

#[test]
fn test_multiple_clients_interleaved() {
    let input = "\
type, client, tx, amount
deposit, 2, 1, 100.0
deposit, 1, 2, 50.0
withdrawal, 2, 3, 25.0
deposit, 1, 4, 25.0
";
    let out = run_engine(input);

    let c1 = &out[&1];
    assert_eq!(c1.available, dec("75.0"));
    assert_eq!(c1.total, dec("75.0"));

    let c2 = &out[&2];
    assert_eq!(c2.available, dec("75.0"));
    assert_eq!(c2.total, dec("75.0"));
}

#[test]
fn test_whitespace_tolerance() {
    let input = "\
type ,  client ,  tx ,  amount
deposit ,  1 ,  1 ,  5.0
withdrawal ,  1 ,  2 ,  2.0
";
    let out = run_engine(input);
    let c1 = &out[&1];
    assert_eq!(c1.available, dec("3.0"));
    assert_eq!(c1.total, dec("3.0"));
}

#[test]
fn test_dispute_wrong_client_ignored() {
    let input = "\
type, client, tx, amount
deposit, 1, 1, 10.0
dispute, 2, 1,
";
    let out = run_engine(input);
    let c1 = &out[&1];
    assert_eq!(c1.available, dec("10.0"));
    assert_eq!(c1.held, dec("0"));
}
