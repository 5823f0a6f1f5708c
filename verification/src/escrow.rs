use vstd::prelude::*;
use crate::addr::Address;
use crate::error::CustodyError;
use crate::ledger::{
    AccountData, AccountEntry, Ledger, TokenAccount, data_of, has_account, idx_of, lamports_of,
    lemma_idx_props, lemma_idx_unique, lemma_wf_remove, lemma_wf_update, token_amount_of,
};
use crate::pda::{escrow_authority, escrow_pda};

verus! {

/// An escrow's persisted record. Its address, derived from the maker and
/// the discriminator, is the authority that owns the escrow's custody
/// account; only code holding the matching seed tuple may act for it.
#[derive(Clone, Copy, Debug)]
pub struct Escrow {
    /// Caller-chosen salt distinguishing several escrows of one maker.
    pub discriminator: u64,
    /// The party who funded the escrow and who may be refunded.
    pub maker: Address,
    /// The asset the maker deposited.
    pub mint_a: Address,
    /// The asset the maker expects in return.
    pub mint_b: Address,
    /// Amount of `mint_b` the maker requires to release the held `mint_a`.
    pub receive_amount: u64,
    /// The nonce that makes this record's own derived address valid.
    pub bump: u8,
}

/// The accounts a refund names.
pub struct Refund {
    /// The maker: signs, and receives the held asset and both deposits back.
    pub maker: Address,
    /// Whether the maker's transaction signature is present.
    pub maker_signed: bool,
    /// The asset the escrow holds in custody.
    pub mint_a: Address,
    /// The maker's own holding account for `mint_a`.
    pub maker_ata_for_token_a: Address,
    /// The escrow record, owner-by-address of the custody account.
    pub escrow: Address,
    /// The custody account holding the deposited `mint_a`.
    pub vault: Address,
}

/// The entry sequence after a successful refund: the vault's whole asset
/// balance moves to the maker's holding account, both the vault's and the
/// record's minimum-balance deposits move to the maker, and the vault and
/// the record cease to exist.
pub open spec fn refund_apply(
    s: Seq<AccountEntry>,
    ix: Refund,
    vt: TokenAccount,
    at: TokenAccount,
) -> Seq<AccountEntry> {
    let ai = idx_of(s, ix.maker_ata_for_token_a@);
    let mi = idx_of(s, ix.maker@);
    let vi = idx_of(s, ix.vault@);
    let ei = idx_of(s, ix.escrow@);
    let ae = s[ai];
    let me = s[mi];
    let s1 = s.update(
        ai,
        (AccountEntry {
            addr: ae.addr,
            lamports: ae.lamports,
            data: AccountData::Token(
                (TokenAccount {
                    mint: at.mint,
                    authority: at.authority,
                    amount: (at.amount + vt.amount) as u64,
                }),
            ),
        }),
    );
    let s2 = s1.update(
        mi,
        (AccountEntry {
            addr: me.addr,
            lamports: (me.lamports + s[vi].lamports + s[ei].lamports) as u64,
            data: me.data,
        }),
    );
    let hi = if vi > ei { vi } else { ei };
    let lo = if vi > ei { ei } else { vi };
    s2.remove(hi).remove(lo)
}

/// Outcome of `refund_and_close`: the checks, in order, and the atomic
/// sweep-and-destroy on success. Every rejection leaves the ledger
/// exactly as it was.
pub open spec fn refund_outcome(
    s: Seq<AccountEntry>,
    ix: Refund,
    program_id: Seq<u8>,
) -> Result<Seq<AccountEntry>, CustodyError> {
    if !ix.maker_signed {
        Err(CustodyError::MissingSignature)
    } else {
        match data_of(s, ix.escrow@) {
            Some(AccountData::Escrow(esc)) => {
                if esc.mint_a@ != ix.mint_a@ {
                    Err(CustodyError::MintMismatch)
                } else if escrow_pda(ix.maker@, esc.discriminator, esc.bump, program_id) != Some(
                    ix.escrow@,
                ) {
                    Err(CustodyError::AuthorityMismatch)
                } else {
                    match data_of(s, ix.vault@) {
                        Some(AccountData::Token(vt)) => {
                            if vt.authority@ != ix.escrow@ {
                                Err(CustodyError::AuthorityMismatch)
                            } else if vt.mint@ != ix.mint_a@ {
                                Err(CustodyError::MintMismatch)
                            } else {
                                match data_of(s, ix.maker_ata_for_token_a@) {
                                    Some(AccountData::Token(at)) => {
                                        if at.authority@ != ix.maker@ {
                                            Err(CustodyError::AuthorityMismatch)
                                        } else if at.mint@ != ix.mint_a@ {
                                            Err(CustodyError::MintMismatch)
                                        } else {
                                            match (data_of(s, ix.mint_a@), data_of(s, ix.maker@)) {
                                                (
                                                    Some(AccountData::Mint(_)),
                                                    Some(AccountData::Wallet),
                                                ) => {
                                                    if at.amount as int + vt.amount as int
                                                        > u64::MAX as int {
                                                        Err(CustodyError::BalanceOverflow)
                                                    } else if lamports_of(s, ix.maker@) as int
                                                        + lamports_of(s, ix.vault@) as int
                                                        + lamports_of(s, ix.escrow@) as int
                                                        > u64::MAX as int {
                                                        Err(CustodyError::BalanceOverflow)
                                                    } else {
                                                        Ok(refund_apply(s, ix, vt, at))
                                                    }
                                                },
                                                _ => Err(CustodyError::AccountNotFound),
                                            }
                                        }
                                    },
                                    _ => Err(CustodyError::AccountNotFound),
                                }
                            }
                        },
                        _ => Err(CustodyError::AccountNotFound),
                    }
                }
            },
            _ => Err(CustodyError::AccountNotFound),
        }
    }
}

impl Refund {
    /// Return the escrow's held asset and both storage deposits to the
    /// maker, then destroy the custody account and the record — one
    /// indivisible unit, authorized by re-deriving the record's signing
    /// seeds from the stored bump. If any check fails — the named mint not
    /// matching the record's, the custody account not owned by the
    /// record's derived authority, a missing account — nothing changes.
    pub fn refund_and_close(&self, ledger: &mut Ledger, program_id: &Address) -> (r: Result<
        (),
        CustodyError,
    >)
        requires
            old(ledger).wf(),
        ensures
            final(ledger).wf(),
            match refund_outcome(old(ledger)@, *self, program_id@) {
                Ok(s2) => r is Ok && final(ledger)@ == s2,
                Err(e) => r == Err::<(), CustodyError>(e) && final(ledger)@ == old(ledger)@,
            },
            (match data_of(old(ledger)@, self.escrow@) {
                Some(AccountData::Escrow(esc)) => esc.mint_a@ != self.mint_a@,
                _ => false,
            }) ==> r is Err && final(ledger)@ == old(ledger)@,
            r is Ok ==> !has_account(final(ledger)@, self.escrow@) && !has_account(
                final(ledger)@,
                self.vault@,
            ) && token_amount_of(final(ledger)@, self.maker_ata_for_token_a@) as int
                == token_amount_of(old(ledger)@, self.maker_ata_for_token_a@) as int
                + token_amount_of(old(ledger)@, self.vault@) as int && lamports_of(
                final(ledger)@,
                self.maker@,
            ) as int == lamports_of(old(ledger)@, self.maker@) as int + lamports_of(
                old(ledger)@,
                self.vault@,
            ) as int + lamports_of(old(ledger)@, self.escrow@) as int,
    {
        if !self.maker_signed {
            return Err(CustodyError::MissingSignature);
        }
        let ei = match ledger.find_index(&self.escrow) {
            Some(i) => i,
            None => {
                return Err(CustodyError::AccountNotFound);
            },
        };
        let esc = match &ledger.entries[ei].data {
            AccountData::Escrow(e) => *e,
            _ => {
                return Err(CustodyError::AccountNotFound);
            },
        };
        if !esc.mint_a.eq_addr(&self.mint_a) {
            return Err(CustodyError::MintMismatch);
        }
        if !escrow_authority(&self.maker, esc.discriminator, esc.bump).check(
            &self.escrow,
            program_id,
        ) {
            return Err(CustodyError::AuthorityMismatch);
        }
        let vi = match ledger.find_index(&self.vault) {
            Some(i) => i,
            None => {
                return Err(CustodyError::AccountNotFound);
            },
        };
        let vt = match &ledger.entries[vi].data {
            AccountData::Token(t) => *t,
            _ => {
                return Err(CustodyError::AccountNotFound);
            },
        };
        if !vt.authority.eq_addr(&self.escrow) {
            return Err(CustodyError::AuthorityMismatch);
        }
        if !vt.mint.eq_addr(&self.mint_a) {
            return Err(CustodyError::MintMismatch);
        }
        let ai = match ledger.find_index(&self.maker_ata_for_token_a) {
            Some(i) => i,
            None => {
                return Err(CustodyError::AccountNotFound);
            },
        };
        let at = match &ledger.entries[ai].data {
            AccountData::Token(t) => *t,
            _ => {
                return Err(CustodyError::AccountNotFound);
            },
        };
        if !at.authority.eq_addr(&self.maker) {
            return Err(CustodyError::AuthorityMismatch);
        }
        if !at.mint.eq_addr(&self.mint_a) {
            return Err(CustodyError::MintMismatch);
        }
        let has_mint = match ledger.mint_at(&self.mint_a) {
            Some(_) => true,
            None => false,
        };
        if !has_mint {
            return Err(CustodyError::AccountNotFound);
        }
        let mi = match ledger.find_index(&self.maker) {
            Some(i) => i,
            None => {
                return Err(CustodyError::AccountNotFound);
            },
        };
        let me = ledger.entries[mi];
        match &me.data {
            AccountData::Wallet => {},
            _ => {
                return Err(CustodyError::AccountNotFound);
            },
        };
        if vt.amount > u64::MAX - at.amount {
            return Err(CustodyError::BalanceOverflow);
        }
        let vl = ledger.entries[vi].lamports;
        let el = ledger.entries[ei].lamports;
        if vl > u64::MAX - me.lamports {
            return Err(CustodyError::BalanceOverflow);
        }
        if el > u64::MAX - (me.lamports + vl) {
            return Err(CustodyError::BalanceOverflow);
        }
        proof {
            // The four touched indices are pairwise distinct: entries of
            // different kinds cannot share an index, and the two token
            // accounts answer to different authorities.
            if ai == vi {
                assert(at.authority@ == vt.authority@);
                assert(ledger@[ei as int].addr@ == ledger@[mi as int].addr@);
                if ei != mi {
                    assert(ledger@[ei as int].addr@ != ledger@[mi as int].addr@);
                }
            }
        }
        let ghost s0 = ledger@;
        let ae = ledger.entries[ai];
        let ae2 = AccountEntry {
            addr: ae.addr,
            lamports: ae.lamports,
            data: AccountData::Token(
                TokenAccount { mint: at.mint, authority: at.authority, amount: at.amount + vt.amount },
            ),
        };
        proof {
            lemma_wf_update(ledger@, ai as int, ae2);
        }
        ledger.set_entry(ai, ae2);
        let me2 = AccountEntry { addr: me.addr, lamports: me.lamports + vl + el, data: me.data };
        proof {
            lemma_wf_update(ledger@, mi as int, me2);
        }
        ledger.set_entry(mi, me2);
        let hi = if vi > ei { vi } else { ei };
        let lo = if vi > ei { ei } else { vi };
        proof {
            lemma_wf_remove(ledger@, hi as int);
        }
        let _removed_hi = ledger.entries.remove(hi);
        proof {
            lemma_wf_remove(ledger@, lo as int);
        }
        let _removed_lo = ledger.entries.remove(lo);
        proof {
            let out = refund_outcome(s0, *self, program_id@);
            assert(ledger@ =~= out->Ok_0);
            // Both custody addresses are now empty, the maker's holding
            // account carries the swept asset balance, and the maker holds
            // both storage deposits.
            let s2 = ledger@;
            assert forall|k: int| 0 <= k < s2.len() implies (#[trigger] s2[k]).addr@ != self.vault@
                && s2[k].addr@ != self.escrow@ by {
                let k1: int = if k < lo as int { k } else { k + 1 };
                let k0: int = if k1 < hi as int { k1 } else { k1 + 1 };
                assert(s2[k] == s0.update(ai as int, ae2).update(mi as int, me2)[k0]);
                assert(k0 != vi as int && k0 != ei as int);
            }
            lemma_idx_props(s2, self.vault@, 0);
            lemma_idx_props(s2, self.escrow@, 0);
            let shift_a: int = ai as int - (if (vi as int) < ai as int { 1int } else { 0int }) - (
            if (ei as int) < ai as int {
                1int
            } else {
                0int
            });
            assert(s2[shift_a] == ae2);
            lemma_idx_unique(s2, self.maker_ata_for_token_a@, shift_a);
            let shift_m: int = mi as int - (if (vi as int) < mi as int { 1int } else { 0int }) - (
            if (ei as int) < mi as int {
                1int
            } else {
                0int
            });
            assert(s2[shift_m] == me2);
            lemma_idx_unique(s2, self.maker@, shift_m);
        }
        Ok(())
    }
}

} // verus!
