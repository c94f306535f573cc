use anchor_lang::prelude::Pubkey;
use escrow::{Address, EscrowError, Exchange};

fn addr(b: u8) -> Address {
    Address::new([b; 32])
}

fn program() -> Address {
    addr(200)
}

const M: u8 = 1;
const T: u8 = 2;
const X: u8 = 10;
const Y: u8 = 11;

fn made() -> (Exchange, Address) {
    let mut ex = Exchange::new(program());
    ex.fund(&addr(M), &addr(X), 100).unwrap();
    let key = ex.make(&addr(M), 1, 100, 50, &addr(X), &addr(Y)).unwrap();
    (ex, key)
}

#[test]
fn make_locks_deposit_in_vault() {
    let (ex, key) = made();
    assert_eq!(ex.vault_balance(&key), Some(100));
    assert_eq!(ex.balance_of(&addr(M), &addr(X)), 0);
    let e = ex.escrow(&key).unwrap();
    assert_eq!(e.seed, 1);
    assert_eq!(e.amount_x, 100);
    assert_eq!(e.amount_y, 50);
    assert_eq!(e.maker.bytes, [M; 32]);
    assert_eq!(e.mint_x.bytes, [X; 32]);
    assert_eq!(e.mint_y.bytes, [Y; 32]);
}

#[test]
fn make_address_is_program_derived() {
    let (ex, key) = made();
    let seeds: [&[u8]; 3] = [b"escrow", &[M; 32], &1u64.to_le_bytes()];
    let (expected, bump) = Pubkey::find_program_address(&seeds, &Pubkey::new_from_array([200; 32]));
    assert_eq!(key.bytes, expected.to_bytes());
    assert_eq!(ex.escrow(&key).unwrap().bump, bump);
}

#[test]
fn take_settles_escrow() {
    let (mut ex, key) = made();
    ex.fund(&addr(T), &addr(Y), 50).unwrap();
    assert_eq!(ex.take(&addr(T), &key, &addr(X), &addr(Y)), Ok(()));
    assert!(ex.escrow(&key).is_none());
    assert_eq!(ex.vault_balance(&key), None);
    assert_eq!(ex.balance_of(&addr(T), &addr(X)), 100);
    assert_eq!(ex.balance_of(&addr(T), &addr(Y)), 0);
    assert_eq!(ex.balance_of(&addr(M), &addr(Y)), 50);
    assert_eq!(ex.balance_of(&addr(M), &addr(X)), 0);
}

#[test]
fn take_with_short_funds_changes_nothing() {
    let (mut ex, key) = made();
    ex.fund(&addr(T), &addr(Y), 40).unwrap();
    assert_eq!(ex.take(&addr(T), &key, &addr(X), &addr(Y)), Err(EscrowError::InsufficientFunds));
    assert_eq!(ex.vault_balance(&key), Some(100));
    assert!(ex.escrow(&key).is_some());
    assert_eq!(ex.balance_of(&addr(T), &addr(Y)), 40);
    assert_eq!(ex.balance_of(&addr(T), &addr(X)), 0);
    assert_eq!(ex.balance_of(&addr(M), &addr(Y)), 0);
}

#[test]
fn second_make_with_same_seed_is_refused() {
    let (mut ex, key) = made();
    ex.fund(&addr(M), &addr(X), 30).unwrap();
    assert_eq!(ex.make(&addr(M), 1, 30, 5, &addr(X), &addr(Y)).unwrap_err(), EscrowError::AlreadyExists);
    assert_eq!(ex.escrow(&key).unwrap().amount_x, 100);
    assert_eq!(ex.vault_balance(&key), Some(100));
    assert_eq!(ex.balance_of(&addr(M), &addr(X)), 30);
}

#[test]
fn other_seed_opens_second_escrow() {
    let (mut ex, key) = made();
    ex.fund(&addr(M), &addr(X), 30).unwrap();
    let other = ex.make(&addr(M), 2, 30, 5, &addr(X), &addr(Y)).unwrap();
    assert_ne!(other.bytes, key.bytes);
    assert_eq!(ex.vault_balance(&other), Some(30));
    assert_eq!(ex.vault_balance(&key), Some(100));
}

#[test]
fn second_take_is_not_found() {
    let (mut ex, key) = made();
    ex.fund(&addr(T), &addr(Y), 100).unwrap();
    assert_eq!(ex.take(&addr(T), &key, &addr(X), &addr(Y)), Ok(()));
    assert_eq!(ex.take(&addr(T), &key, &addr(X), &addr(Y)), Err(EscrowError::NotFound));
    assert_eq!(ex.balance_of(&addr(T), &addr(Y)), 50);
    assert_eq!(ex.balance_of(&addr(M), &addr(Y)), 50);
}

#[test]
fn take_with_other_asset_pair_is_refused() {
    let (mut ex, key) = made();
    ex.fund(&addr(T), &addr(Y), 50).unwrap();
    ex.fund(&addr(T), &addr(X), 50).unwrap();
    assert_eq!(ex.take(&addr(T), &key, &addr(Y), &addr(X)), Err(EscrowError::AssetMismatch));
    assert_eq!(ex.take(&addr(T), &key, &addr(X), &addr(12)), Err(EscrowError::AssetMismatch));
    assert_eq!(ex.vault_balance(&key), Some(100));
    assert_eq!(ex.balance_of(&addr(T), &addr(Y)), 50);
    assert_eq!(ex.balance_of(&addr(T), &addr(X)), 50);
    assert_eq!(ex.balance_of(&addr(M), &addr(Y)), 0);
}

#[test]
fn take_of_unknown_escrow_is_not_found() {
    let mut ex = Exchange::new(program());
    assert_eq!(ex.take(&addr(T), &addr(99), &addr(X), &addr(Y)), Err(EscrowError::NotFound));
}

#[test]
fn make_without_funds_creates_nothing() {
    let mut ex = Exchange::new(program());
    ex.fund(&addr(M), &addr(X), 99).unwrap();
    assert_eq!(ex.make(&addr(M), 1, 100, 50, &addr(X), &addr(Y)).unwrap_err(), EscrowError::InsufficientFunds);
    assert_eq!(ex.balance_of(&addr(M), &addr(X)), 99);
    let seeds: [&[u8]; 3] = [b"escrow", &[M; 32], &1u64.to_le_bytes()];
    let (key, _) = Pubkey::find_program_address(&seeds, &Pubkey::new_from_array([200; 32]));
    assert!(ex.escrow(&Address::new(key.to_bytes())).is_none());
}

#[test]
fn take_by_maker_of_own_escrow() {
    let (mut ex, key) = made();
    ex.fund(&addr(M), &addr(Y), 50).unwrap();
    assert_eq!(ex.take(&addr(M), &key, &addr(X), &addr(Y)), Ok(()));
    assert_eq!(ex.balance_of(&addr(M), &addr(X)), 100);
    assert_eq!(ex.balance_of(&addr(M), &addr(Y)), 50);
}

#[test]
fn take_that_would_overflow_taker_is_refused() {
    let (mut ex, key) = made();
    ex.fund(&addr(T), &addr(X), u64::MAX).unwrap();
    ex.fund(&addr(T), &addr(Y), 50).unwrap();
    assert_eq!(ex.take(&addr(T), &key, &addr(X), &addr(Y)), Err(EscrowError::Overflow));
    assert_eq!(ex.vault_balance(&key), Some(100));
}

#[test]
fn fund_past_max_overflows() {
    let mut ex = Exchange::new(program());
    ex.fund(&addr(M), &addr(X), u64::MAX).unwrap();
    assert_eq!(ex.fund(&addr(M), &addr(X), 1), Err(EscrowError::Overflow));
    assert_eq!(ex.balance_of(&addr(M), &addr(X)), u64::MAX);
}

#[test]
fn zero_amount_escrow_settles() {
    let mut ex = Exchange::new(program());
    let key = ex.make(&addr(M), 7, 0, 0, &addr(X), &addr(Y)).unwrap();
    assert_eq!(ex.vault_balance(&key), Some(0));
    assert_eq!(ex.take(&addr(T), &key, &addr(X), &addr(Y)), Ok(()));
    assert!(ex.escrow(&key).is_none());
}
