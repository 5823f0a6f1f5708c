use pda_custody::addr::Address;
use pda_custody::error::CustodyError;
use pda_custody::ledger::{AccountData, Ledger};
use pda_custody::pda::{find_state_address, find_vault_address, vault_authority};
use pda_custody::vault::{close, deposit, initialize, withdraw};
use pda_custody::vault::{Close, DepositeAndWithdraw, Initialize, VaultState};

fn setup_vault(owner_balance: u64, state_rent: u64, vault_rent: u64) -> (Ledger, Address, Address, Address, Address) {
    let pid = Address::new([9u8; 32]);
    let owner = Address::new([1u8; 32]);
    let mut ledger = Ledger::new();
    ledger.insert_account(owner, owner_balance, AccountData::Wallet).unwrap();
    let (state_addr, _) = find_state_address(&owner, &pid).unwrap();
    let (vault_addr, _) = find_vault_address(&state_addr, &pid).unwrap();
    let ix = Initialize { user: owner, user_signed: true, vault_state: state_addr, vault: vault_addr };
    initialize(&mut ledger, &ix, state_rent, vault_rent, &pid).unwrap();
    (ledger, pid, owner, state_addr, vault_addr)
}

#[test]
fn scenario_deposit_then_withdraw() {
    // Owner deposits 100 units and withdraws 40: the vault holds 60 and
    // the owner's net change is -60 (rents set to zero to isolate it).
    let (mut ledger, pid, owner, state_addr, vault_addr) = setup_vault(1_000, 0, 0);
    let ix = DepositeAndWithdraw { user: owner, user_signed: true, vault: vault_addr, vault_state: state_addr };
    deposit(&mut ledger, &ix, 100, &pid).unwrap();
    withdraw(&mut ledger, &ix, 40, &pid).unwrap();
    assert_eq!(ledger.balance_of(&vault_addr), 60);
    assert_eq!(ledger.balance_of(&owner), 1_000 - 60);
}

#[test]
fn scenario_initialize_twice_fails() {
    // A second initialize for the same owner targets occupied derived
    // addresses and is rejected whole; the first vault is unaffected.
    let (mut ledger, pid, owner, state_addr, vault_addr) = setup_vault(1_000, 10, 20);
    assert_eq!(ledger.balance_of(&owner), 970);
    assert_eq!(ledger.balance_of(&state_addr), 10);
    assert_eq!(ledger.balance_of(&vault_addr), 20);
    let ix = Initialize { user: owner, user_signed: true, vault_state: state_addr, vault: vault_addr };
    let second = initialize(&mut ledger, &ix, 10, 20, &pid);
    assert_eq!(second, Err(CustodyError::AddressInUse));
    assert_eq!(ledger.balance_of(&owner), 970);
    assert_eq!(ledger.balance_of(&state_addr), 10);
    assert_eq!(ledger.balance_of(&vault_addr), 20);
    // The first vault still works.
    let dw = DepositeAndWithdraw { user: owner, user_signed: true, vault: vault_addr, vault_state: state_addr };
    deposit(&mut ledger, &dw, 5, &pid).unwrap();
    assert_eq!(ledger.balance_of(&vault_addr), 25);
}

#[test]
fn withdraw_over_balance_mutates_nothing() {
    // A withdrawal above the vault's balance is rejected whole and leaves
    // every balance exactly as it was.
    let (mut ledger, pid, owner, state_addr, vault_addr) = setup_vault(1_000, 0, 0);
    let ix = DepositeAndWithdraw { user: owner, user_signed: true, vault: vault_addr, vault_state: state_addr };
    deposit(&mut ledger, &ix, 100, &pid).unwrap();
    let r = withdraw(&mut ledger, &ix, 101, &pid);
    assert_eq!(r, Err(CustodyError::InsufficientFunds));
    assert_eq!(ledger.balance_of(&vault_addr), 100);
    assert_eq!(ledger.balance_of(&owner), 900);
}

#[test]
fn close_sweeps_and_destroys() {
    // Close credits the owner with the whole vault balance plus both rent
    // deposits, and leaves both derived addresses empty.
    let (mut ledger, pid, owner, state_addr, vault_addr) = setup_vault(1_000, 10, 20);
    let dw = DepositeAndWithdraw { user: owner, user_signed: true, vault: vault_addr, vault_state: state_addr };
    deposit(&mut ledger, &dw, 300, &pid).unwrap();
    let ix = Close { user: owner, user_signed: true, vault: vault_addr, vault_state: state_addr };
    close(&mut ledger, &ix, &pid).unwrap();
    assert_eq!(ledger.balance_of(&owner), 1_000);
    assert!(!ledger.contains(&vault_addr));
    assert!(!ledger.contains(&state_addr));
}

#[test]
fn unsigned_deposit_rejected() {
    let (mut ledger, pid, owner, state_addr, vault_addr) = setup_vault(1_000, 0, 0);
    let ix = DepositeAndWithdraw { user: owner, user_signed: false, vault: vault_addr, vault_state: state_addr };
    assert_eq!(deposit(&mut ledger, &ix, 10, &pid), Err(CustodyError::MissingSignature));
    assert_eq!(ledger.balance_of(&owner), 1_000);
}

#[test]
fn deposit_without_record_rejected() {
    let pid = Address::new([9u8; 32]);
    let owner = Address::new([1u8; 32]);
    let mut ledger = Ledger::new();
    ledger.insert_account(owner, 100, AccountData::Wallet).unwrap();
    let ix = DepositeAndWithdraw {
        user: owner,
        user_signed: true,
        vault: Address::new([2u8; 32]),
        vault_state: Address::new([3u8; 32]),
    };
    assert_eq!(deposit(&mut ledger, &ix, 10, &pid), Err(CustodyError::AccountNotFound));
}

#[test]
fn stale_bumps_are_an_authorization_failure() {
    // A record whose stored bumps do not re-derive the presented addresses
    // surfaces as an authorization failure, not a crash.
    let pid = Address::new([9u8; 32]);
    let owner = Address::new([1u8; 32]);
    let fake_state = Address::new([4u8; 32]);
    let fake_vault = Address::new([5u8; 32]);
    let mut ledger = Ledger::new();
    ledger.insert_account(owner, 100, AccountData::Wallet).unwrap();
    ledger
        .insert_account(fake_state, 0, AccountData::VaultState(VaultState { vault_bump: 1, state_bump: 2 }))
        .unwrap();
    ledger.insert_account(fake_vault, 50, AccountData::Wallet).unwrap();
    let ix = DepositeAndWithdraw { user: owner, user_signed: true, vault: fake_vault, vault_state: fake_state };
    assert_eq!(withdraw(&mut ledger, &ix, 10, &pid), Err(CustodyError::AuthorityMismatch));
    assert_eq!(ledger.balance_of(&fake_vault), 50);
    assert_eq!(ledger.balance_of(&owner), 100);
}

#[test]
fn initialize_without_funds_rejected() {
    let pid = Address::new([9u8; 32]);
    let owner = Address::new([1u8; 32]);
    let mut ledger = Ledger::new();
    ledger.insert_account(owner, 5, AccountData::Wallet).unwrap();
    let (state_addr, _) = find_state_address(&owner, &pid).unwrap();
    let (vault_addr, _) = find_vault_address(&state_addr, &pid).unwrap();
    let ix = Initialize { user: owner, user_signed: true, vault_state: state_addr, vault: vault_addr };
    assert_eq!(initialize(&mut ledger, &ix, 10, 20, &pid), Err(CustodyError::CannotCoverRent));
    assert_eq!(ledger.balance_of(&owner), 5);
    assert!(!ledger.contains(&state_addr));
}

#[test]
fn deposit_overflowing_vault_rejected() {
    // Crediting past the 64-bit balance limit is rejected whole.
    let pid = Address::new([9u8; 32]);
    let owner = Address::new([1u8; 32]);
    let mut ledger = Ledger::new();
    ledger.insert_account(owner, 100, AccountData::Wallet).unwrap();
    let (state_addr, sb) = find_state_address(&owner, &pid).unwrap();
    let (vault_addr, vb) = find_vault_address(&state_addr, &pid).unwrap();
    ledger
        .insert_account(state_addr, 0, AccountData::VaultState(VaultState { vault_bump: vb, state_bump: sb }))
        .unwrap();
    ledger.insert_account(vault_addr, u64::MAX, AccountData::Wallet).unwrap();
    let ix = DepositeAndWithdraw { user: owner, user_signed: true, vault: vault_addr, vault_state: state_addr };
    assert_eq!(deposit(&mut ledger, &ix, 1, &pid), Err(CustodyError::BalanceOverflow));
    assert_eq!(ledger.balance_of(&vault_addr), u64::MAX);
    assert_eq!(ledger.balance_of(&owner), 100);
}

#[test]
fn insert_account_refuses_occupied_address() {
    let a = Address::new([1u8; 32]);
    let mut ledger = Ledger::new();
    ledger.insert_account(a, 1, AccountData::Wallet).unwrap();
    assert_eq!(ledger.insert_account(a, 2, AccountData::Wallet), Err(CustodyError::AddressInUse));
    assert_eq!(ledger.balance_of(&a), 1);
}

#[test]
fn derived_transfer_requires_matching_proof() {
    // The signing primitive itself: only a proof whose seed tuple
    // re-derives the debited address may move funds out of it.
    let (mut ledger, pid, owner, state_addr, vault_addr) = setup_vault(1_000, 0, 0);
    let ix = DepositeAndWithdraw { user: owner, user_signed: true, vault: vault_addr, vault_state: state_addr };
    deposit(&mut ledger, &ix, 50, &pid).unwrap();
    let (_, vb) = find_vault_address(&state_addr, &pid).unwrap();
    let bad = vault_authority(&state_addr, vb.wrapping_sub(1));
    assert_eq!(
        ledger.transfer_from_derived(&bad, &vault_addr, &owner, 10, &pid),
        Err(CustodyError::AuthorityMismatch)
    );
    assert_eq!(ledger.balance_of(&vault_addr), 50);
    let good = vault_authority(&state_addr, vb);
    ledger.transfer_from_derived(&good, &vault_addr, &owner, 10, &pid).unwrap();
    assert_eq!(ledger.balance_of(&vault_addr), 40);
    assert_eq!(ledger.balance_of(&owner), 960);
}
