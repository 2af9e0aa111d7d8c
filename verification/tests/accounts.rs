use std::str::FromStr;

use accounts_manager::amount::{Amount, MAX_MANTISSA};
use accounts_manager::types::ClientAccount;
use rust_decimal::Decimal;

fn money(text: &str) -> Amount {
    let d = Decimal::from_str(text).unwrap();
    Amount::new(d.mantissa(), d.scale()).unwrap()
}

fn decimal(a: Amount) -> Decimal {
    Decimal::from_i128_with_scale(a.mantissa, a.scale)
}

fn account(available: &str, held: &str, total: &str) -> ClientAccount {
    ClientAccount { available: money(available), held: money(held), total: money(total), locked: false }
}

fn is_balanced(a: &ClientAccount) -> bool {
    decimal(a.available) + decimal(a.held) == decimal(a.total)
}

fn shape(a: &ClientAccount) -> ((i128, u32), (i128, u32), (i128, u32), bool) {
    (
        (a.available.mantissa, a.available.scale),
        (a.held.mantissa, a.held.scale),
        (a.total.mantissa, a.total.scale),
        a.locked,
    )
}

#[test]
fn new_account_is_empty_and_unlocked() {
    let a = ClientAccount::new();
    assert_eq!(shape(&a), ((0, 0), (0, 0), (0, 0), false));
    assert!(is_balanced(&a));
}

#[test]
fn deposit_adds_to_available_and_total() {
    let mut a = account("1.5", "4", "5.5");
    assert!(a.can_deposit(money("2.25")));
    a.deposit(money("2.25"));
    assert_eq!(shape(&a), ((375, 2), (4, 0), (775, 2), false));
    assert!(is_balanced(&a));
}

#[test]
fn deposit_into_a_new_account_keeps_the_amount_as_written() {
    let mut a = ClientAccount::new();
    a.deposit(money("10.0"));
    assert_eq!(shape(&a), ((100, 1), (0, 0), (100, 1), false));
}

#[test]
fn withdraw_takes_from_available_and_total() {
    let mut a = account("3.3333", "1", "4.3333");
    assert!(a.can_withdraw(money("0.3333")));
    assert!(a.withdraw(money("0.3333")));
    assert_eq!(shape(&a), ((30000, 4), (1, 0), (40000, 4), false));
    assert!(is_balanced(&a));
}

#[test]
fn withdraw_of_all_that_is_available_goes_through() {
    let mut a = account("2.0", "0", "2.0");
    assert!(a.withdraw(money("2")));
    assert_eq!(decimal(a.available), Decimal::ZERO);
    assert_eq!(decimal(a.total), Decimal::ZERO);
}

#[test]
fn withdraw_beyond_available_changes_nothing() {
    let mut a = account("2.0", "5", "7.0");
    let before = shape(&a);
    assert!(a.can_withdraw(money("2.01")));
    assert!(!a.withdraw(money("2.01")));
    assert_eq!(shape(&a), before);
    // The held funds do not pay for a withdrawal.
    assert!(!a.withdraw(money("3.0")));
    assert_eq!(shape(&a), before);
}

#[test]
fn withdraw_of_a_negative_amount_is_covered() {
    let mut a = account("1", "0", "1");
    assert!(a.withdraw(money("-2")));
    assert_eq!(shape(&a), ((3, 0), (0, 0), (3, 0), false));
}

#[test]
fn hold_moves_available_to_held() {
    let mut a = account("10.0", "0", "10.0");
    assert!(a.can_hold(money("4.5")));
    a.hold(money("4.5"));
    assert_eq!(shape(&a), ((55, 1), (45, 1), (100, 1), false));
    assert!(is_balanced(&a));
}

#[test]
fn hold_can_leave_available_negative() {
    let mut a = account("1", "0", "1");
    a.hold(money("5"));
    assert_eq!(shape(&a), ((-4, 0), (5, 0), (1, 0), false));
    assert!(is_balanced(&a));
}

#[test]
fn release_moves_held_back_to_available() {
    let mut a = account("5.5", "4.5", "10.0");
    assert!(a.can_release(money("4.5")));
    a.release(money("4.5"));
    assert_eq!(shape(&a), ((100, 1), (0, 1), (100, 1), false));
    assert!(is_balanced(&a));
}

#[test]
fn chargeback_removes_held_funds_and_locks() {
    let mut a = account("5.5", "4.5", "10.0");
    assert!(a.can_chargeback(money("4.5")));
    a.chargeback(money("4.5"));
    assert_eq!(shape(&a), ((55, 1), (0, 1), (55, 1), true));
    assert!(is_balanced(&a));
}

#[test]
fn operations_at_the_limit_are_told_apart() {
    let top = Amount::new(MAX_MANTISSA, 0).unwrap();
    let a = ClientAccount { available: top, held: Amount::zero(), total: top, locked: false };
    assert!(!a.can_deposit(money("1")));
    assert!(a.can_deposit(money("-1")));
    assert!(a.can_deposit(money("0.000")));
    assert!(!a.can_deposit(money("0.001")));
    assert!(a.can_withdraw(money("1")));
    assert!(!a.can_withdraw(money("-1")));
    assert!(!a.can_withdraw(money("0.5")));
    assert!(a.can_hold(money("1")));
    assert!(!a.can_hold(money("-1")));
    assert!(!a.can_release(money("1")));
    assert!(a.can_chargeback(money("1")));
    assert!(!a.can_chargeback(money("-1")));

    let b = ClientAccount { available: Amount::zero(), held: top, total: top, locked: false };
    assert!(!b.can_hold(money("1")));
    assert!(b.can_release(money("1")));
    // Not covered, so nothing is computed.
    assert!(b.can_withdraw(money("0.5")));
}

#[test]
fn balance_survives_a_run_of_operations() {
    let mut a = ClientAccount::new();
    a.deposit(money("100.25"));
    assert!(is_balanced(&a));
    a.hold(money("40.125"));
    assert!(is_balanced(&a));
    assert!(a.withdraw(money("60.125")));
    assert!(is_balanced(&a));
    a.release(money("40.125"));
    assert!(is_balanced(&a));
    a.hold(money("0.0001"));
    assert!(is_balanced(&a));
    a.chargeback(money("0.0001"));
    assert!(is_balanced(&a));
    assert_eq!(decimal(a.available), Decimal::from_str("40.1249").unwrap());
    assert_eq!(decimal(a.held), Decimal::ZERO);
    assert_eq!(decimal(a.total), Decimal::from_str("40.1249").unwrap());
    assert!(a.locked);
}
