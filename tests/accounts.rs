use anchor_lang::prelude::Pubkey;
use escrow::{
    escrow_address, escrow_authority, escrow_seeds, le_bytes_of, Address, Escrow, EscrowError,
    Ledger, Make, Take, TokenAccount, ESCROW_SPACE,
};

fn addr(b: u8) -> Address {
    Address::new([b; 32])
}

#[test]
fn le_bytes_of_seed() {
    assert_eq!(le_bytes_of(1), vec![1, 0, 0, 0, 0, 0, 0, 0]);
    assert_eq!(le_bytes_of(0x0102030405060708), vec![8, 7, 6, 5, 4, 3, 2, 1]);
    assert_eq!(le_bytes_of(u64::MAX), vec![255; 8]);
}

#[test]
fn escrow_seeds_layout() {
    let seeds = escrow_seeds(&addr(3), 258);
    assert_eq!(seeds.len(), 3);
    assert_eq!(seeds[0], b"escrow".to_vec());
    assert_eq!(seeds[1], vec![3u8; 32]);
    assert_eq!(seeds[2], vec![2, 1, 0, 0, 0, 0, 0, 0]);
}

#[test]
fn authority_rederives_escrow_address() {
    let (key, bump) = escrow_address(&addr(9), &addr(3), 5).unwrap();
    let again = escrow_authority(&addr(9), &addr(3), 5, bump).unwrap();
    assert_eq!(again.bytes, key.bytes);
    assert_ne!(key.bytes, [9u8; 32]);
    let direct = Pubkey::create_program_address(
        &[b"escrow", &[3u8; 32], &5u64.to_le_bytes(), &[bump]],
        &Pubkey::new_from_array([9; 32]),
    )
    .unwrap();
    assert_eq!(again.bytes, direct.to_bytes());
}

#[test]
fn address_comparison() {
    assert!(addr(1).same(&addr(1)));
    let mut b = [1u8; 32];
    b[31] = 2;
    assert!(!addr(1).same(&Address::new(b)));
    assert_eq!(addr(4).to_vec(), vec![4u8; 32]);
}

#[test]
fn escrow_space_is_fixed() {
    assert_eq!(ESCROW_SPACE, 129);
}

#[test]
fn ledger_transfer_cases() {
    let mut l = Ledger::new();
    l.credit(&addr(1), &addr(10), 30).unwrap();
    assert_eq!(l.transfer(&addr(1), &addr(2), &addr(10), 31), Err(EscrowError::InsufficientFunds));
    assert_eq!(l.transfer(&addr(1), &addr(2), &addr(10), 20), Ok(()));
    assert_eq!(l.balance_of(&addr(1), &addr(10)), 10);
    assert_eq!(l.balance_of(&addr(2), &addr(10)), 20);
    assert_eq!(l.transfer(&addr(1), &addr(1), &addr(10), 10), Ok(()));
    assert_eq!(l.balance_of(&addr(1), &addr(10)), 10);
    l.credit(&addr(3), &addr(10), u64::MAX).unwrap();
    assert_eq!(l.transfer(&addr(1), &addr(3), &addr(10), 1), Err(EscrowError::Overflow));
    assert_eq!(l.debit(&addr(2), &addr(10), 21), Err(EscrowError::InsufficientFunds));
    assert_eq!(l.debit(&addr(2), &addr(10), 20), Ok(()));
    assert_eq!(l.balance_of(&addr(2), &addr(10)), 0);
    let copy = l.snapshot();
    assert_eq!(copy.balance_of(&addr(1), &addr(10)), 10);
    assert_eq!(copy.balance_of(&addr(3), &addr(11)), 0);
}

fn make_ctx(funds: u64, vault_mint: u8) -> Make {
    let mut ledger = Ledger::new();
    ledger.credit(&addr(1), &addr(10), funds).unwrap();
    Make {
        maker: addr(1),
        mint_x: addr(10),
        mint_y: addr(11),
        escrow: Escrow::blank(addr(1), addr(10), addr(11)),
        vault: TokenAccount { owner: addr(50), mint: addr(vault_mint), amount: 0 },
        ledger,
    }
}

#[test]
fn make_context_records_and_deposits() {
    let mut ctx = make_ctx(100, 10);
    assert_eq!(ctx.make(4, 60, 7, 250), Ok(()));
    assert_eq!(ctx.escrow.seed, 4);
    assert_eq!(ctx.escrow.amount_x, 60);
    assert_eq!(ctx.escrow.amount_y, 7);
    assert_eq!(ctx.escrow.bump, 250);
    assert_eq!(ctx.vault.amount, 60);
    assert_eq!(ctx.ledger.balance_of(&addr(1), &addr(10)), 40);
    assert_eq!(ctx.transfer(41), Err(EscrowError::InsufficientFunds));
    assert_eq!(ctx.transfer(40), Ok(()));
    assert_eq!(ctx.vault.amount, 100);
}

#[test]
fn make_context_refuses_wrong_vault_asset() {
    let mut ctx = make_ctx(100, 11);
    assert_eq!(ctx.transfer(10), Err(EscrowError::AssetMismatch));
    assert_eq!(ctx.vault.amount, 0);
    assert_eq!(ctx.ledger.balance_of(&addr(1), &addr(10)), 100);
}

fn take_ctx(vault_owner: Option<Address>, vault_amount: u64, taker_y: u64) -> Take {
    let program = addr(9);
    let (key, bump) = escrow_address(&program, &addr(1), 4).unwrap();
    let mut ledger = Ledger::new();
    ledger.credit(&addr(2), &addr(11), taker_y).unwrap();
    Take {
        program,
        taker: addr(2),
        maker: addr(1),
        mint_x: addr(10),
        mint_y: addr(11),
        escrow: Escrow {
            seed: 4,
            maker: addr(1),
            mint_x: addr(10),
            mint_y: addr(11),
            amount_x: 60,
            amount_y: 7,
            bump,
        },
        vault: TokenAccount { owner: vault_owner.unwrap_or(key), mint: addr(10), amount: vault_amount },
        closed: false,
        ledger,
    }
}

#[test]
fn take_context_legs() {
    let mut ctx = take_ctx(None, 60, 7);
    assert_eq!(ctx.close_vault(), Err(EscrowError::NonEmptyVault));
    assert_eq!(ctx.vault_to_taker(), Ok(()));
    assert_eq!(ctx.vault.amount, 0);
    assert_eq!(ctx.ledger.balance_of(&addr(2), &addr(10)), 60);
    assert_eq!(ctx.taker_to_maker(), Ok(()));
    assert_eq!(ctx.ledger.balance_of(&addr(1), &addr(11)), 7);
    assert_eq!(ctx.ledger.balance_of(&addr(2), &addr(11)), 0);
    assert!(!ctx.closed);
    assert_eq!(ctx.close_vault(), Ok(()));
    assert!(ctx.closed);
}

#[test]
fn take_context_refuses_foreign_vault() {
    let mut ctx = take_ctx(Some(addr(77)), 60, 7);
    assert_eq!(ctx.vault_to_taker(), Err(EscrowError::Unauthorized));
    assert_eq!(ctx.close_vault(), Err(EscrowError::Unauthorized));
    assert_eq!(ctx.vault.amount, 60);
}

#[test]
fn take_context_short_vault_and_short_taker() {
    let mut ctx = take_ctx(None, 59, 6);
    assert_eq!(ctx.vault_to_taker(), Err(EscrowError::InsufficientFunds));
    assert_eq!(ctx.taker_to_maker(), Err(EscrowError::InsufficientFunds));
    assert_eq!(ctx.ledger.balance_of(&addr(2), &addr(11)), 6);
}
