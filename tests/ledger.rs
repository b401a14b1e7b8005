use fungible::{Event, Ledger, LedgerError};

const A: u64 = 1;
const B: u64 = 2;
const C: u64 = 3;
const D: u64 = 4;

fn ledger_with_token(owner: u64, supply: u64) -> Ledger {
    let mut l = Ledger::new();
    assert_eq!(l.create_token(owner, supply), Ok(0));
    l
}

#[test]
fn end_to_end_scenario() {
    let mut l = Ledger::new();
    assert_eq!(l.create_token(A, 1000), Ok(0));
    assert_eq!(l.balance_of(0, A), 1000);
    assert_eq!(l.total_supply(0), 1000);

    assert_eq!(l.transfer(A, 0, B, 300), Ok(()));
    assert_eq!(l.balance_of(0, A), 700);
    assert_eq!(l.balance_of(0, B), 300);

    l.approve(A, 0, C, 100);
    assert_eq!(l.allowance_of(0, A, C), 100);

    assert_eq!(l.transfer_from(C, 0, A, D, 60), Ok(()));
    assert_eq!(l.allowance_of(0, A, C), 40);
    assert_eq!(l.balance_of(0, A), 640);
    assert_eq!(l.balance_of(0, D), 60);
    assert_eq!(l.total_supply(0), 1000);
}

#[test]
fn new_ledger_is_empty() {
    let l = Ledger::new();
    assert_eq!(l.count(), 0);
    assert_eq!(l.total_supply(0), 0);
    assert_eq!(l.balance_of(0, A), 0);
    assert_eq!(l.allowance_of(0, A, B), 0);
    assert!(l.events().is_empty());
}

#[test]
fn created_ids_increase_from_zero() {
    let mut l = Ledger::new();
    assert_eq!(l.create_token(A, 10), Ok(0));
    assert_eq!(l.create_token(B, 20), Ok(1));
    assert_eq!(l.create_token(A, 30), Ok(2));
    assert_eq!(l.count(), 3);
    assert_eq!(l.balance_of(1, B), 20);
    assert_eq!(l.total_supply(1), 20);
    assert_eq!(l.balance_of(2, A), 30);
    assert_eq!(l.total_supply(2), 30);
    assert_eq!(l.balance_of(1, A), 0);
}

#[test]
fn zero_supply_token_is_allowed() {
    let mut l = Ledger::new();
    assert_eq!(l.create_token(A, 0), Ok(0));
    assert_eq!(l.total_supply(0), 0);
    assert_eq!(l.balance_of(0, A), 0);
    assert_eq!(l.count(), 1);
}

#[test]
fn largest_supply_is_allowed() {
    let mut l = Ledger::new();
    assert_eq!(l.create_token(A, u64::MAX), Ok(0));
    assert_eq!(l.transfer(A, 0, B, u64::MAX - 1), Ok(()));
    assert_eq!(l.balance_of(0, A), 1);
    assert_eq!(l.balance_of(0, B), u64::MAX - 1);
    assert_eq!(l.transfer(A, 0, B, 1), Ok(()));
    assert_eq!(l.balance_of(0, B), u64::MAX);
    assert_eq!(l.balance_of(0, A), 0);
}

#[test]
fn create_token_logs_event() {
    let mut l = Ledger::new();
    assert_eq!(l.create_token(A, 5), Ok(0));
    assert_eq!(l.events(), &vec![Event::NewToken(0, A, 5)]);
}

#[test]
fn zero_transfer_fails() {
    let mut l = ledger_with_token(A, 100);
    assert_eq!(l.transfer(A, 0, B, 0), Err(LedgerError::ZeroAmount));
    assert_eq!(l.balance_of(0, A), 100);
    assert_eq!(l.balance_of(0, B), 0);
    assert_eq!(l.events().len(), 1);
}

#[test]
fn overdraft_fails() {
    let mut l = ledger_with_token(A, 100);
    assert_eq!(l.transfer(A, 0, B, 101), Err(LedgerError::InsufficientBalance));
    assert_eq!(l.balance_of(0, A), 100);
    assert_eq!(l.balance_of(0, B), 0);
    assert_eq!(l.events().len(), 1);
}

#[test]
fn transfer_of_whole_balance() {
    let mut l = ledger_with_token(A, 100);
    assert_eq!(l.transfer(A, 0, B, 100), Ok(()));
    assert_eq!(l.balance_of(0, A), 0);
    assert_eq!(l.balance_of(0, B), 100);
    assert_eq!(l.transfer(A, 0, B, 1), Err(LedgerError::InsufficientBalance));
}

#[test]
fn transfer_of_unknown_token_fails() {
    let mut l = ledger_with_token(A, 100);
    assert_eq!(l.transfer(A, 7, B, 1), Err(LedgerError::InsufficientBalance));
    assert_eq!(l.balance_of(7, B), 0);
}

#[test]
fn transfer_logs_event() {
    let mut l = ledger_with_token(A, 100);
    assert_eq!(l.transfer(A, 0, B, 40), Ok(()));
    assert_eq!(
        l.events(),
        &vec![Event::NewToken(0, A, 100), Event::Transfer(0, A, B, 40)]
    );
}

#[test]
fn self_transfer_keeps_balance() {
    let mut l = ledger_with_token(A, 100);
    assert_eq!(l.transfer(A, 0, A, 60), Ok(()));
    assert_eq!(l.balance_of(0, A), 100);
    assert_eq!(l.events().last(), Some(&Event::Transfer(0, A, A, 60)));
    assert_eq!(l.transfer(A, 0, A, 100), Ok(()));
    assert_eq!(l.balance_of(0, A), 100);
    assert_eq!(l.transfer(A, 0, A, 101), Err(LedgerError::InsufficientBalance));
}

#[test]
fn second_approval_replaces_first() {
    let mut l = ledger_with_token(A, 100);
    l.approve(A, 0, B, 70);
    l.approve(A, 0, B, 20);
    assert_eq!(l.allowance_of(0, A, B), 20);
    assert_eq!(l.events().last(), Some(&Event::Approval(0, A, B, 20)));
}

#[test]
fn approval_may_exceed_balance() {
    let mut l = ledger_with_token(A, 100);
    l.approve(A, 0, B, 1000);
    assert_eq!(l.allowance_of(0, A, B), 1000);
    assert_eq!(l.transfer_from(B, 0, A, C, 101), Err(LedgerError::InsufficientBalance));
    assert_eq!(l.allowance_of(0, A, B), 1000);
    assert_eq!(l.balance_of(0, A), 100);
}

#[test]
fn approval_of_unknown_token_is_recorded() {
    let mut l = Ledger::new();
    l.approve(A, 9, B, 5);
    assert_eq!(l.allowance_of(9, A, B), 5);
    assert_eq!(l.transfer_from(B, 9, A, C, 5), Err(LedgerError::InsufficientBalance));
    assert_eq!(l.allowance_of(9, A, B), 5);
}

#[test]
fn delegated_transfer_charges_allowance() {
    let mut l = ledger_with_token(A, 100);
    l.approve(A, 0, B, 50);
    assert_eq!(l.transfer_from(B, 0, A, C, 50), Ok(()));
    assert_eq!(l.allowance_of(0, A, B), 0);
    assert_eq!(l.balance_of(0, A), 50);
    assert_eq!(l.balance_of(0, C), 50);
    assert_eq!(l.balance_of(0, B), 0);
    assert_eq!(l.events().last(), Some(&Event::Transfer(0, A, C, 50)));
    assert_eq!(l.events().len(), 3);
}

#[test]
fn delegated_transfer_beyond_allowance_fails() {
    let mut l = ledger_with_token(A, 100);
    l.approve(A, 0, B, 30);
    assert_eq!(l.transfer_from(B, 0, A, C, 31), Err(LedgerError::InsufficientAllowance));
    assert_eq!(l.allowance_of(0, A, B), 30);
    assert_eq!(l.balance_of(0, A), 100);
    assert_eq!(l.balance_of(0, C), 0);
    assert_eq!(l.events().len(), 2);
}

#[test]
fn delegated_transfer_without_approval_fails() {
    let mut l = ledger_with_token(A, 100);
    assert_eq!(l.transfer_from(B, 0, A, B, 1), Err(LedgerError::InsufficientAllowance));
    assert_eq!(l.balance_of(0, A), 100);
}

#[test]
fn delegated_zero_transfer_fails_and_keeps_allowance() {
    let mut l = ledger_with_token(A, 100);
    l.approve(A, 0, B, 30);
    assert_eq!(l.transfer_from(B, 0, A, C, 0), Err(LedgerError::ZeroAmount));
    assert_eq!(l.allowance_of(0, A, B), 30);
    assert_eq!(l.events().len(), 2);
}

#[test]
fn allowance_belongs_to_one_spender() {
    let mut l = ledger_with_token(A, 100);
    l.approve(A, 0, B, 30);
    assert_eq!(l.transfer_from(C, 0, A, C, 10), Err(LedgerError::InsufficientAllowance));
    assert_eq!(l.allowance_of(0, A, C), 0);
    assert_eq!(l.allowance_of(0, A, B), 30);
}

#[test]
fn conservation_over_many_operations() {
    let mut l = Ledger::new();
    assert_eq!(l.create_token(A, 500), Ok(0));
    assert_eq!(l.create_token(B, 80), Ok(1));
    assert_eq!(l.transfer(A, 0, B, 120), Ok(()));
    assert_eq!(l.transfer(B, 0, C, 20), Ok(()));
    assert_eq!(l.transfer(B, 1, A, 80), Ok(()));
    l.approve(C, 0, D, 15);
    assert_eq!(l.transfer_from(D, 0, C, A, 15), Ok(()));
    assert_eq!(l.transfer(A, 0, A, 1), Ok(()));
    let accounts = [A, B, C, D];
    let sum0: u64 = accounts.iter().map(|&a| l.balance_of(0, a)).sum();
    let sum1: u64 = accounts.iter().map(|&a| l.balance_of(1, a)).sum();
    assert_eq!(sum0, l.total_supply(0));
    assert_eq!(sum1, l.total_supply(1));
    assert_eq!(l.balance_of(0, A), 395);
    assert_eq!(l.balance_of(0, B), 100);
    assert_eq!(l.balance_of(0, C), 5);
    assert_eq!(l.balance_of(1, A), 80);
}

#[test]
fn take_events_empties_log() {
    let mut l = ledger_with_token(A, 10);
    l.approve(A, 0, B, 3);
    let taken = l.take_events();
    assert_eq!(taken, vec![Event::NewToken(0, A, 10), Event::Approval(0, A, B, 3)]);
    assert!(l.events().is_empty());
    assert_eq!(l.balance_of(0, A), 10);
    assert_eq!(l.allowance_of(0, A, B), 3);
    assert_eq!(l.count(), 1);
}
