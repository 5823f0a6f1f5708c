use pda_custody::addr::Address;
use pda_custody::error::CustodyError;
use pda_custody::escrow::{Escrow, Refund};
use pda_custody::ledger::{AccountData, Ledger, MintInfo, TokenAccount};
use pda_custody::pda::find_escrow_address;

fn setup_escrow(discriminator: u64, held: u64) -> (Ledger, Address, Address, Address, Address, Address, Address) {
    let pid = Address::new([8u8; 32]);
    let maker = Address::new([2u8; 32]);
    let mint_a = Address::new([3u8; 32]);
    let mint_b = Address::new([4u8; 32]);
    let vault = Address::new([5u8; 32]);
    let ata = Address::new([6u8; 32]);
    let (escrow_addr, bump) = find_escrow_address(&maker, discriminator, &pid).unwrap();
    let mut ledger = Ledger::new();
    ledger.insert_account(maker, 1_000, AccountData::Wallet).unwrap();
    ledger.insert_account(mint_a, 1, AccountData::Mint(MintInfo { decimals: 6 })).unwrap();
    ledger
        .insert_account(
            escrow_addr,
            30,
            AccountData::Escrow(Escrow {
                discriminator,
                maker,
                mint_a,
                mint_b,
                receive_amount: 900,
                bump,
            }),
        )
        .unwrap();
    ledger
        .insert_account(vault, 25, AccountData::Token(TokenAccount { mint: mint_a, authority: escrow_addr, amount: held }))
        .unwrap();
    ledger
        .insert_account(ata, 40, AccountData::Token(TokenAccount { mint: mint_a, authority: maker, amount: 11 }))
        .unwrap();
    (ledger, pid, maker, mint_a, vault, ata, escrow_addr)
}

#[test]
fn scenario_refund_returns_everything() {
    // Discriminator 7, 500 units of mint_a in custody: refund credits the
    // maker's holding account with exactly 500, destroys the record and the
    // custody account, and returns both storage deposits to the maker.
    let (mut ledger, pid, maker, mint_a, vault, ata, escrow_addr) = setup_escrow(7, 500);
    let ix = Refund {
        maker,
        maker_signed: true,
        mint_a,
        maker_ata_for_token_a: ata,
        escrow: escrow_addr,
        vault,
    };
    ix.refund_and_close(&mut ledger, &pid).unwrap();
    assert_eq!(ledger.token_balance_of(&ata), 511);
    assert!(!ledger.contains(&escrow_addr));
    assert!(!ledger.contains(&vault));
    assert_eq!(ledger.balance_of(&maker), 1_000 + 25 + 30);
}

#[test]
fn refund_with_wrong_mint_changes_nothing() {
    // The named mint does not match the record's: the whole instruction is
    // rejected and neither the vault nor the record changes.
    let (mut ledger, pid, maker, _mint_a, vault, ata, escrow_addr) = setup_escrow(7, 500);
    let wrong_mint = Address::new([4u8; 32]);
    let ix = Refund {
        maker,
        maker_signed: true,
        mint_a: wrong_mint,
        maker_ata_for_token_a: ata,
        escrow: escrow_addr,
        vault,
    };
    let r = ix.refund_and_close(&mut ledger, &pid);
    assert_eq!(r, Err(CustodyError::MintMismatch));
    assert!(ledger.contains(&escrow_addr));
    assert!(ledger.contains(&vault));
    assert_eq!(ledger.token_balance_of(&vault), 500);
    assert_eq!(ledger.token_balance_of(&ata), 11);
    assert_eq!(ledger.balance_of(&maker), 1_000);
    assert_eq!(ledger.balance_of(&escrow_addr), 30);
    assert_eq!(ledger.balance_of(&vault), 25);
}

#[test]
fn refund_by_wrong_maker_is_an_authorization_failure() {
    // A different maker re-derives a different record address: rejected as
    // an authorization failure, nothing moves.
    let (mut ledger, pid, _maker, mint_a, vault, ata, escrow_addr) = setup_escrow(7, 500);
    let intruder = Address::new([7u8; 32]);
    ledger.insert_account(intruder, 9, AccountData::Wallet).unwrap();
    let ix = Refund {
        maker: intruder,
        maker_signed: true,
        mint_a,
        maker_ata_for_token_a: ata,
        escrow: escrow_addr,
        vault,
    };
    assert_eq!(ix.refund_and_close(&mut ledger, &pid), Err(CustodyError::AuthorityMismatch));
    assert_eq!(ledger.token_balance_of(&vault), 500);
    assert!(ledger.contains(&escrow_addr));
}

#[test]
fn unsigned_refund_rejected() {
    let (mut ledger, pid, maker, mint_a, vault, ata, escrow_addr) = setup_escrow(7, 500);
    let ix = Refund {
        maker,
        maker_signed: false,
        mint_a,
        maker_ata_for_token_a: ata,
        escrow: escrow_addr,
        vault,
    };
    assert_eq!(ix.refund_and_close(&mut ledger, &pid), Err(CustodyError::MissingSignature));
    assert_eq!(ledger.token_balance_of(&vault), 500);
}

#[test]
fn refund_with_foreign_vault_rejected() {
    // A custody account answering to some other authority is refused.
    let (mut ledger, pid, maker, mint_a, _vault, ata, escrow_addr) = setup_escrow(7, 500);
    let other_authority = Address::new([13u8; 32]);
    let foreign_vault = Address::new([14u8; 32]);
    ledger
        .insert_account(
            foreign_vault,
            25,
            AccountData::Token(TokenAccount { mint: mint_a, authority: other_authority, amount: 500 }),
        )
        .unwrap();
    let ix = Refund {
        maker,
        maker_signed: true,
        mint_a,
        maker_ata_for_token_a: ata,
        escrow: escrow_addr,
        vault: foreign_vault,
    };
    assert_eq!(ix.refund_and_close(&mut ledger, &pid), Err(CustodyError::AuthorityMismatch));
    assert_eq!(ledger.token_balance_of(&foreign_vault), 500);
    assert_eq!(ledger.token_balance_of(&ata), 11);
}
