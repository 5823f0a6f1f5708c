use vstd::prelude::*;
use crate::addr::Address;
use crate::error::CustodyError;
use crate::ledger::{
    AccountData, AccountEntry, Ledger, data_of, has_account, idx_of, lamports_of,
    lemma_idx_from_push, lemma_idx_from_update, lemma_idx_props, lemma_idx_unique,
    lemma_wf_push, lemma_wf_remove, lemma_wf_update, transfer_outcome, wf_entries,
};
use crate::pda::{
    find_pda, state_authority, state_pda, state_seeds, vault_authority, vault_pda, vault_seeds,
    find_state_address, find_vault_address,
};

verus! {

/// A vault's persisted state: the two derivation nonces, immutable after
/// initialization. They are all a vault persists — the held balance lives
/// on the vault's own account.
#[derive(Clone, Copy, Debug, PartialEq, Eq, Structural)]
pub struct VaultState {
    /// The nonce that makes the vault's derived address valid.
    pub vault_bump: u8,
    /// The nonce that makes this record's own derived address valid.
    pub state_bump: u8,
}

/// The accounts a vault-creating instruction names.
pub struct Initialize {
    /// The owner: pays the minimum balances and signs.
    pub user: Address,
    /// Whether the owner's transaction signature is present.
    pub user_signed: bool,
    /// Where the state record is to be created (tag "state" + owner).
    pub vault_state: Address,
    /// Where the vault is to be created (tag "vault" + state record).
    pub vault: Address,
}

/// The accounts a deposit or withdrawal names.
pub struct DepositeAndWithdraw {
    /// The owner: signs, and is the counterpart of every movement.
    pub user: Address,
    /// Whether the owner's transaction signature is present.
    pub user_signed: bool,
    /// The vault holding the custodied balance.
    pub vault: Address,
    /// The state record holding the two derivation nonces.
    pub vault_state: Address,
}

/// The accounts a vault-closing instruction names.
pub struct Close {
    /// The owner: signs, and receives the swept balance and both refunds.
    pub user: Address,
    /// Whether the owner's transaction signature is present.
    pub user_signed: bool,
    /// The vault holding the custodied balance.
    pub vault: Address,
    /// The state record holding the two derivation nonces.
    pub vault_state: Address,
}

/// The validation pass shared by deposit, withdraw and close: the
/// signature must be present, a state record must exist at the presented
/// address, and both stored bumps must re-derive exactly the presented
/// addresses — presenting a different owner yields a non-matching record.
pub open spec fn validate_vault_accounts(
    s: Seq<AccountEntry>,
    user: Seq<u8>,
    vault: Seq<u8>,
    vault_state: Seq<u8>,
    signed: bool,
    program_id: Seq<u8>,
) -> Result<VaultState, CustodyError> {
    if !signed {
        Err(CustodyError::MissingSignature)
    } else {
        match data_of(s, vault_state) {
            Some(AccountData::VaultState(rec)) => {
                if state_pda(user, rec.state_bump, program_id) != Some(vault_state) {
                    Err(CustodyError::AuthorityMismatch)
                } else if vault_pda(vault_state, rec.vault_bump, program_id) != Some(vault) {
                    Err(CustodyError::AuthorityMismatch)
                } else {
                    Ok(rec)
                }
            },
            _ => Err(CustodyError::AccountNotFound),
        }
    }
}

/// Outcome of `initialize`: the checks, in order, and on success the two
/// accounts created at their derived addresses, funded by the owner.
pub open spec fn initialize_outcome(
    s: Seq<AccountEntry>,
    ix: Initialize,
    state_rent: u64,
    vault_rent: u64,
    program_id: Seq<u8>,
) -> Result<Seq<AccountEntry>, CustodyError> {
    if !ix.user_signed {
        Err(CustodyError::MissingSignature)
    } else {
        match find_pda(state_seeds(ix.user@), program_id) {
            None => Err(CustodyError::AuthorityMismatch),
            Some(sp) => if sp.0 != ix.vault_state@ {
                Err(CustodyError::AuthorityMismatch)
            } else {
                match find_pda(vault_seeds(ix.vault_state@), program_id) {
                    None => Err(CustodyError::AuthorityMismatch),
                    Some(vp) => if vp.0 != ix.vault@ {
                        Err(CustodyError::AuthorityMismatch)
                    } else if has_account(s, ix.vault_state@) || has_account(s, ix.vault@)
                        || ix.vault_state@ == ix.vault@ {
                        Err(CustodyError::AddressInUse)
                    } else if !has_account(s, ix.user@) {
                        Err(CustodyError::AccountNotFound)
                    } else if (lamports_of(s, ix.user@) as int) < state_rent as int
                        + vault_rent as int {
                        Err(CustodyError::CannotCoverRent)
                    } else {
                        let ui = idx_of(s, ix.user@);
                        let ue = s[ui];
                        Ok(
                            s.update(
                                ui,
                                (AccountEntry {
                                    addr: ue.addr,
                                    lamports: (ue.lamports - state_rent - vault_rent) as u64,
                                    data: ue.data,
                                }),
                            ).push(
                                (AccountEntry {
                                    addr: ix.vault_state,
                                    lamports: state_rent,
                                    data: AccountData::VaultState(
                                        (VaultState { vault_bump: vp.1, state_bump: sp.1 }),
                                    ),
                                }),
                            ).push(
                                (AccountEntry {
                                    addr: ix.vault,
                                    lamports: vault_rent,
                                    data: AccountData::Wallet,
                                }),
                            ),
                        )
                    },
                }
            },
        }
    }
}

/// Outcome of `deposit`: validation, then a signed transfer owner → vault.
pub open spec fn deposit_outcome(
    s: Seq<AccountEntry>,
    ix: DepositeAndWithdraw,
    amount: u64,
    program_id: Seq<u8>,
) -> Result<Seq<AccountEntry>, CustodyError> {
    match validate_vault_accounts(s, ix.user@, ix.vault@, ix.vault_state@, ix.user_signed,
        program_id) {
        Err(e) => Err(e),
        Ok(_rec) => transfer_outcome(s, ix.user@, ix.vault@, amount),
    }
}

/// Outcome of `withdraw`: validation, then a transfer vault → owner
/// authorized by the re-derived vault seeds.
pub open spec fn withdraw_outcome(
    s: Seq<AccountEntry>,
    ix: DepositeAndWithdraw,
    amount: u64,
    program_id: Seq<u8>,
) -> Result<Seq<AccountEntry>, CustodyError> {
    match validate_vault_accounts(s, ix.user@, ix.vault@, ix.vault_state@, ix.user_signed,
        program_id) {
        Err(e) => Err(e),
        Ok(_rec) => transfer_outcome(s, ix.vault@, ix.user@, amount),
    }
}

/// Outcome of `close`: validation, then — as one unit — the vault's whole
/// balance and both accounts' minimum-balance deposits move to the owner
/// and both accounts cease to exist.
pub open spec fn close_outcome(
    s: Seq<AccountEntry>,
    ix: Close,
    program_id: Seq<u8>,
) -> Result<Seq<AccountEntry>, CustodyError> {
    match validate_vault_accounts(s, ix.user@, ix.vault@, ix.vault_state@, ix.user_signed,
        program_id) {
        Err(e) => Err(e),
        Ok(_rec) => {
            if ix.user@ == ix.vault@ || ix.user@ == ix.vault_state@ || ix.vault@
                == ix.vault_state@ {
                // A wallet cannot stand at a derived custody address, nor can
                // two distinct derivations share one: such a claim of
                // authority is rejected.
                Err(CustodyError::AuthorityMismatch)
            } else if !has_account(s, ix.vault@) || !has_account(s, ix.user@) {
                Err(CustodyError::AccountNotFound)
            } else {
                let ui = idx_of(s, ix.user@);
                let vi = idx_of(s, ix.vault@);
                let si = idx_of(s, ix.vault_state@);
                let total = lamports_of(s, ix.user@) as int + lamports_of(s, ix.vault@) as int
                    + lamports_of(s, ix.vault_state@) as int;
                if total > u64::MAX as int {
                    Err(CustodyError::BalanceOverflow)
                } else {
                    let ue = s[ui];
                    let s1 = s.update(
                        ui,
                        (AccountEntry { addr: ue.addr, lamports: total as u64, data: ue.data }),
                    );
                    let hi = if vi > si { vi } else { si };
                    let lo = if vi > si { si } else { vi };
                    Ok(s1.remove(hi).remove(lo))
                }
            }
        },
    }
}

impl DepositeAndWithdraw {
    /// The shared validation pass, executed before any mutation.
    fn validate(&self, ledger: &Ledger, program_id: &Address) -> (r: Result<
        VaultState,
        CustodyError,
    >)
        ensures
            r == validate_vault_accounts(
                ledger@,
                self.user@,
                self.vault@,
                self.vault_state@,
                self.user_signed,
                program_id@,
            ),
    {
        if !self.user_signed {
            return Err(CustodyError::MissingSignature);
        }
        let rec = match ledger.vault_state_at(&self.vault_state) {
            Some(rec) => rec,
            None => {
                return Err(CustodyError::AccountNotFound);
            },
        };
        if !state_authority(&self.user, rec.state_bump).check(&self.vault_state, program_id) {
            return Err(CustodyError::AuthorityMismatch);
        }
        if !vault_authority(&self.vault_state, rec.vault_bump).check(&self.vault, program_id) {
            return Err(CustodyError::AuthorityMismatch);
        }
        Ok(rec)
    }

    /// Move `amount` from the owner into the vault. Funds flow *into* the
    /// program-owned account, so the owner's signature is the only
    /// authority needed. All-or-nothing: any rejection mutates nothing.
    pub fn deposit(&self, ledger: &mut Ledger, amount: u64, program_id: &Address) -> (r: Result<
        (),
        CustodyError,
    >)
        requires
            old(ledger).wf(),
        ensures
            final(ledger).wf(),
            match deposit_outcome(old(ledger)@, *self, amount, program_id@) {
                Ok(s2) => r is Ok && final(ledger)@ == s2,
                Err(e) => r == Err::<(), CustodyError>(e) && final(ledger)@ == old(ledger)@,
            },
    {
        match self.validate(ledger, program_id) {
            Err(e) => Err(e),
            Ok(_rec) => ledger.transfer_native(&self.user, &self.vault, amount),
        }
    }

    /// Move `amount` from the vault back to the owner, authorized by
    /// re-deriving the vault's signing seeds from the stored bump.
    /// All-or-nothing: in particular, a withdrawal of more than the vault
    /// holds is rejected whole and mutates no balance.
    pub fn withdraw(&self, ledger: &mut Ledger, amount: u64, program_id: &Address) -> (r: Result<
        (),
        CustodyError,
    >)
        requires
            old(ledger).wf(),
        ensures
            final(ledger).wf(),
            match withdraw_outcome(old(ledger)@, *self, amount, program_id@) {
                Ok(s2) => r is Ok && final(ledger)@ == s2,
                Err(e) => r == Err::<(), CustodyError>(e) && final(ledger)@ == old(ledger)@,
            },
            amount > lamports_of(old(ledger)@, self.vault@) ==> r is Err && final(ledger)@ == old(
                ledger,
            )@,
    {
        let rec = match self.validate(ledger, program_id) {
            Err(e) => {
                return Err(e);
            },
            Ok(rec) => rec,
        };
        let auth = vault_authority(&self.vault_state, rec.vault_bump);
        ledger.transfer_from_derived(&auth, &self.vault, &self.user, amount, program_id)
    }
}

impl Initialize {
    /// Create the state record and the vault at their derived addresses,
    /// persist the two bumps, and fund both with their minimum balances
    /// from the owner. Fails whole — mutating nothing — if either derived
    /// address is already occupied or the owner cannot cover the minimums.
    pub fn initialize(&self, ledger: &mut Ledger, state_rent: u64, vault_rent: u64,
        program_id: &Address) -> (r: Result<(), CustodyError>)
        requires
            old(ledger).wf(),
        ensures
            final(ledger).wf(),
            match initialize_outcome(old(ledger)@, *self, state_rent, vault_rent, program_id@) {
                Ok(s2) => r is Ok && final(ledger)@ == s2,
                Err(e) => r == Err::<(), CustodyError>(e) && final(ledger)@ == old(ledger)@,
            },
    {
        if !self.user_signed {
            return Err(CustodyError::MissingSignature);
        }
        let sp = match find_state_address(&self.user, program_id) {
            Some(p) => p,
            None => {
                return Err(CustodyError::AuthorityMismatch);
            },
        };
        if !sp.0.eq_addr(&self.vault_state) {
            return Err(CustodyError::AuthorityMismatch);
        }
        let vp = match find_vault_address(&self.vault_state, program_id) {
            Some(p) => p,
            None => {
                return Err(CustodyError::AuthorityMismatch);
            },
        };
        if !vp.0.eq_addr(&self.vault) {
            return Err(CustodyError::AuthorityMismatch);
        }
        if ledger.contains(&self.vault_state) || ledger.contains(&self.vault) {
            return Err(CustodyError::AddressInUse);
        }
        if self.vault_state.eq_addr(&self.vault) {
            return Err(CustodyError::AddressInUse);
        }
        let ui = match ledger.find_index(&self.user) {
            Some(i) => i,
            None => {
                return Err(CustodyError::AccountNotFound);
            },
        };
        let ue = ledger.entries[ui];
        if ue.lamports < state_rent {
            return Err(CustodyError::CannotCoverRent);
        }
        if ue.lamports - state_rent < vault_rent {
            return Err(CustodyError::CannotCoverRent);
        }
        let ghost s0 = ledger@;
        let ue2 = AccountEntry {
            addr: ue.addr,
            lamports: ue.lamports - state_rent - vault_rent,
            data: ue.data,
        };
        proof {
            lemma_wf_update(ledger@, ui as int, ue2);
            lemma_idx_from_update(s0, ui as int, ue2, self.vault_state@, 0);
            lemma_idx_from_update(s0, ui as int, ue2, self.vault@, 0);
        }
        ledger.set_entry(ui, ue2);
        let se = AccountEntry {
            addr: self.vault_state,
            lamports: state_rent,
            data: AccountData::VaultState(VaultState { vault_bump: vp.1, state_bump: sp.1 }),
        };
        proof {
            lemma_wf_push(ledger@, se);
            lemma_idx_from_push(ledger@, se, self.vault@, 0);
        }
        ledger.entries.push(se);
        let ve = AccountEntry { addr: self.vault, lamports: vault_rent, data: AccountData::Wallet };
        proof {
            lemma_wf_push(ledger@, ve);
        }
        ledger.entries.push(ve);
        proof {
            let out = initialize_outcome(s0, *self, state_rent, vault_rent, program_id@);
            assert(ledger@ =~= out->Ok_0);
        }
        Ok(())
    }
}

impl Close {
    /// Sweep the vault's entire remaining balance to the owner and destroy
    /// both the vault and the state record, returning both minimum-balance
    /// deposits — one indivisible unit: either the sweep and both
    /// destructions happen, or nothing does.
    pub fn close_vault(&self, ledger: &mut Ledger, program_id: &Address) -> (r: Result<
        (),
        CustodyError,
    >)
        requires
            old(ledger).wf(),
        ensures
            final(ledger).wf(),
            match close_outcome(old(ledger)@, *self, program_id@) {
                Ok(s2) => r is Ok && final(ledger)@ == s2,
                Err(e) => r == Err::<(), CustodyError>(e) && final(ledger)@ == old(ledger)@,
            },
            r is Ok ==> !has_account(final(ledger)@, self.vault@) && !has_account(
                final(ledger)@,
                self.vault_state@,
            ) && lamports_of(final(ledger)@, self.user@) as int == lamports_of(
                old(ledger)@,
                self.user@,
            ) as int + lamports_of(old(ledger)@, self.vault@) as int + lamports_of(
                old(ledger)@,
                self.vault_state@,
            ) as int,
    {
        if !self.user_signed {
            return Err(CustodyError::MissingSignature);
        }
        let rec = match ledger.vault_state_at(&self.vault_state) {
            Some(rec) => rec,
            None => {
                return Err(CustodyError::AccountNotFound);
            },
        };
        if !state_authority(&self.user, rec.state_bump).check(&self.vault_state, program_id) {
            return Err(CustodyError::AuthorityMismatch);
        }
        if !vault_authority(&self.vault_state, rec.vault_bump).check(&self.vault, program_id) {
            return Err(CustodyError::AuthorityMismatch);
        }
        if self.user.eq_addr(&self.vault) || self.user.eq_addr(&self.vault_state)
            || self.vault.eq_addr(&self.vault_state) {
            return Err(CustodyError::AuthorityMismatch);
        }
        let vi = match ledger.find_index(&self.vault) {
            Some(i) => i,
            None => {
                return Err(CustodyError::AccountNotFound);
            },
        };
        let ui = match ledger.find_index(&self.user) {
            Some(i) => i,
            None => {
                return Err(CustodyError::AccountNotFound);
            },
        };
        let si = match ledger.find_index(&self.vault_state) {
            Some(i) => i,
            None => {
                return Err(CustodyError::AccountNotFound);
            },
        };
        let ue = ledger.entries[ui];
        let ve = ledger.entries[vi];
        let se = ledger.entries[si];
        if ve.lamports > u64::MAX - ue.lamports {
            return Err(CustodyError::BalanceOverflow);
        }
        if se.lamports > u64::MAX - (ue.lamports + ve.lamports) {
            return Err(CustodyError::BalanceOverflow);
        }
        let ghost s0 = ledger@;
        let total = ue.lamports + ve.lamports + se.lamports;
        let ue2 = AccountEntry { addr: ue.addr, lamports: total, data: ue.data };
        proof {
            lemma_wf_update(ledger@, ui as int, ue2);
        }
        ledger.set_entry(ui, ue2);
        let hi = if vi > si { vi } else { si };
        let lo = if vi > si { si } else { vi };
        proof {
            lemma_wf_remove(ledger@, hi as int);
        }
        let _removed_hi = ledger.entries.remove(hi);
        proof {
            lemma_wf_remove(ledger@, lo as int);
        }
        let _removed_lo = ledger.entries.remove(lo);
        proof {
            let out = close_outcome(s0, *self, program_id@);
            assert(ledger@ =~= out->Ok_0);
            // The vault's and the record's addresses are now empty, and the
            // owner holds the swept balance plus both deposits.
            let s2 = ledger@;
            assert forall|k: int| 0 <= k < s2.len() implies (#[trigger] s2[k]).addr@ != self.vault@
                && s2[k].addr@ != self.vault_state@ by {
                let k1: int = if k < lo as int { k } else { k + 1 };
                let k0: int = if k1 < hi as int { k1 } else { k1 + 1 };
                assert(s2[k] == s0.update(ui as int, ue2)[k0]);
                assert(k0 != vi as int && k0 != si as int);
            }
            lemma_idx_props(s2, self.vault@, 0);
            lemma_idx_props(s2, self.vault_state@, 0);
            let ui2: int = ui as int - (if (vi as int) < ui as int { 1int } else { 0int }) - (
            if (si as int) < ui as int {
                1int
            } else {
                0int
            });
            assert(s2[ui2] == ue2);
            lemma_idx_unique(s2, self.user@, ui2);
        }
        Ok(())
    }
}

/// Dispatch: create a vault and its state record for `ix.user`.
pub fn initialize(ledger: &mut Ledger, ix: &Initialize, state_rent: u64, vault_rent: u64,
    program_id: &Address) -> (r: Result<(), CustodyError>)
    requires
        old(ledger).wf(),
    ensures
        final(ledger).wf(),
        match initialize_outcome(old(ledger)@, *ix, state_rent, vault_rent, program_id@) {
            Ok(s2) => r is Ok && final(ledger)@ == s2,
            Err(e) => r == Err::<(), CustodyError>(e) && final(ledger)@ == old(ledger)@,
        },
{
    ix.initialize(ledger, state_rent, vault_rent, program_id)
}

/// Dispatch: move `amount` from the owner into the vault.
pub fn deposit(ledger: &mut Ledger, ix: &DepositeAndWithdraw, amount: u64, program_id: &Address)
    -> (r: Result<(), CustodyError>)
    requires
        old(ledger).wf(),
    ensures
        final(ledger).wf(),
        match deposit_outcome(old(ledger)@, *ix, amount, program_id@) {
            Ok(s2) => r is Ok && final(ledger)@ == s2,
            Err(e) => r == Err::<(), CustodyError>(e) && final(ledger)@ == old(ledger)@,
        },
{
    ix.deposit(ledger, amount, program_id)
}

/// Dispatch: move `amount` from the vault back to the owner.
pub fn withdraw(ledger: &mut Ledger, ix: &DepositeAndWithdraw, amount: u64, program_id: &Address)
    -> (r: Result<(), CustodyError>)
    requires
        old(ledger).wf(),
    ensures
        final(ledger).wf(),
        match withdraw_outcome(old(ledger)@, *ix, amount, program_id@) {
            Ok(s2) => r is Ok && final(ledger)@ == s2,
            Err(e) => r == Err::<(), CustodyError>(e) && final(ledger)@ == old(ledger)@,
        },
{
    ix.withdraw(ledger, amount, program_id)
}

/// Dispatch: sweep the vault and destroy it together with its state record.
pub fn close(ledger: &mut Ledger, ix: &Close, program_id: &Address) -> (r: Result<
    (),
    CustodyError,
>)
    requires
        old(ledger).wf(),
    ensures
        final(ledger).wf(),
        match close_outcome(old(ledger)@, *ix, program_id@) {
            Ok(s2) => r is Ok && final(ledger)@ == s2,
            Err(e) => r == Err::<(), CustodyError>(e) && final(ledger)@ == old(ledger)@,
        },
{
    ix.close_vault(ledger, program_id)
}

/// Law: once `initialize` has succeeded for an owner, running it again
/// with the same accounts finds the state record's derived address
/// occupied and fails whole — a resource failure, whatever minimum
/// balances the second attempt names.
pub proof fn lemma_initialize_not_repeatable(
    s: Seq<AccountEntry>,
    ix: Initialize,
    state_rent: u64,
    vault_rent: u64,
    state_rent2: u64,
    vault_rent2: u64,
    program_id: Seq<u8>,
)
    requires
        initialize_outcome(s, ix, state_rent, vault_rent, program_id) is Ok,
    ensures
        initialize_outcome(
            (initialize_outcome(s, ix, state_rent, vault_rent, program_id))->Ok_0,
            ix,
            state_rent2,
            vault_rent2,
            program_id,
        ) == Err::<Seq<AccountEntry>, CustodyError>(CustodyError::AddressInUse),
{
    let s2 = (initialize_outcome(s, ix, state_rent, vault_rent, program_id))->Ok_0;
    match find_pda(state_seeds(ix.user@), program_id) {
        Some(sp) => match find_pda(vault_seeds(ix.vault_state@), program_id) {
            Some(vp) => {
                lemma_idx_props(s, ix.user@, 0);
                let ui = idx_of(s, ix.user@);
                let ue = s[ui];
                let s1 = s.update(
                    ui,
                    (AccountEntry {
                        addr: ue.addr,
                        lamports: (ue.lamports - state_rent - vault_rent) as u64,
                        data: ue.data,
                    }),
                );
                let se = AccountEntry {
                    addr: ix.vault_state,
                    lamports: state_rent,
                    data: AccountData::VaultState(
                        (VaultState { vault_bump: vp.1, state_bump: sp.1 }),
                    ),
                };
                assert(s2 == s1.push(se).push(
                    (AccountEntry { addr: ix.vault, lamports: vault_rent, data: AccountData::Wallet }),
                ));
                assert(s1.len() == s.len());
                assert(s1.push(se)[s.len() as int] == se);
                assert(s2[s.len() as int] == se);
            },
            None => {
                assert(false);
            },
        },
        None => {
            assert(false);
        },
    }
    lemma_idx_props(s2, ix.vault_state@, 0);
    assert(has_account(s2, ix.vault_state@));
}

} // verus!
