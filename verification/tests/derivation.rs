use pda_custody::addr::Address;
use pda_custody::pda::{
    escrow_authority, find_escrow_address, find_state_address, find_vault_address,
    state_authority, vault_authority,
};

#[test]
fn derivation_is_deterministic() {
    // Re-deriving with identical inputs yields identical addresses and bumps.
    let pid = Address::new([9u8; 32]);
    let owner = Address::new([1u8; 32]);
    let (a1, b1) = find_state_address(&owner, &pid).unwrap();
    let (a2, b2) = find_state_address(&owner, &pid).unwrap();
    assert_eq!(a1.bytes, a2.bytes);
    assert_eq!(b1, b2);
    let (v1, vb1) = find_vault_address(&a1, &pid).unwrap();
    let (v2, vb2) = find_vault_address(&a2, &pid).unwrap();
    assert_eq!(v1.bytes, v2.bytes);
    assert_eq!(vb1, vb2);
    let (e1, eb1) = find_escrow_address(&owner, 7, &pid).unwrap();
    let (e2, eb2) = find_escrow_address(&owner, 7, &pid).unwrap();
    assert_eq!(e1.bytes, e2.bytes);
    assert_eq!(eb1, eb2);
}

#[test]
fn derived_address_is_not_the_seed_material() {
    // The derived address is a hash of the seed tuple, not any input echoed
    // back, and distinct fields derive distinct addresses.
    let pid = Address::new([9u8; 32]);
    let owner = Address::new([1u8; 32]);
    let (state_addr, _) = find_state_address(&owner, &pid).unwrap();
    assert_ne!(state_addr.bytes, owner.bytes);
    assert_ne!(state_addr.bytes, pid.bytes);
    let other = Address::new([2u8; 32]);
    let (other_state, _) = find_state_address(&other, &pid).unwrap();
    assert_ne!(state_addr.bytes, other_state.bytes);
    let (e7, _) = find_escrow_address(&owner, 7, &pid).unwrap();
    let (e8, _) = find_escrow_address(&owner, 8, &pid).unwrap();
    assert_ne!(e7.bytes, e8.bytes);
}

#[test]
fn stored_bump_rederives_the_found_address() {
    // The bump found at creation time, presented later as part of the seed
    // tuple, re-derives exactly the recorded address — and no other.
    let pid = Address::new([9u8; 32]);
    let owner = Address::new([1u8; 32]);
    let (state_addr, sb) = find_state_address(&owner, &pid).unwrap();
    assert!(state_authority(&owner, sb).check(&state_addr, &pid));
    assert!(!state_authority(&owner, sb.wrapping_sub(1)).check(&state_addr, &pid));
    assert!(!state_authority(&owner, sb).check(&owner, &pid));
    let (vault_addr, vb) = find_vault_address(&state_addr, &pid).unwrap();
    assert!(vault_authority(&state_addr, vb).check(&vault_addr, &pid));
    assert!(!vault_authority(&state_addr, vb).check(&state_addr, &pid));
    let (escrow_addr, eb) = find_escrow_address(&owner, 42, &pid).unwrap();
    assert!(escrow_authority(&owner, 42, eb).check(&escrow_addr, &pid));
    assert!(!escrow_authority(&owner, 41, eb).check(&escrow_addr, &pid));
}

#[test]
fn address_equality_is_bytewise() {
    let a = Address::new([1u8; 32]);
    let b = Address::new([1u8; 32]);
    let mut c_bytes = [1u8; 32];
    c_bytes[31] = 2;
    let c = Address::new(c_bytes);
    assert!(a.eq_addr(&b));
    assert!(!a.eq_addr(&c));
    assert_eq!(a.to_vec(), b.to_vec());
    assert_ne!(a.to_vec(), c.to_vec());
}
