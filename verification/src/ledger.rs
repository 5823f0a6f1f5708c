use vstd::prelude::*;
use crate::addr::Address;
use crate::error::CustodyError;
use crate::escrow::Escrow;
use crate::pda::AuthorityProof;
use crate::vault::VaultState;

verus! {

/// Balance and ownership data of one asset-holding account.
#[derive(Clone, Copy, Debug)]
pub struct TokenAccount {
    /// The asset type this account holds.
    pub mint: Address,
    /// Who may move the held balance out.
    pub authority: Address,
    /// The held balance of the asset.
    pub amount: u64,
}

/// The identity record of one asset type.
#[derive(Clone, Copy, Debug)]
pub struct MintInfo {
    /// The asset's decimal precision.
    pub decimals: u8,
}

/// What an account holds beside its native balance.
#[derive(Clone, Copy, Debug)]
pub enum AccountData {
    /// A plain native-balance account: a wallet, or a vault's custody account.
    Wallet,
    /// A vault's persisted state record.
    VaultState(VaultState),
    /// An escrow's persisted record.
    Escrow(Escrow),
    /// An account holding a balance of one asset type.
    Token(TokenAccount),
    /// The identity record of an asset type.
    Mint(MintInfo),
}

/// One existing account: its address, its native balance, and what it holds.
#[derive(Clone, Copy, Debug)]
pub struct AccountEntry {
    pub addr: Address,
    pub lamports: u64,
    pub data: AccountData,
}

/// The ledger: every account that exists. An address without an entry
/// holds no account. Each instruction validates everything against this
/// state before it mutates anything, so instructions are all-or-nothing.
#[derive(Debug)]
pub struct Ledger {
    pub entries: Vec<AccountEntry>,
}

/// Index of the first entry at address `a`, looking from position `i` on;
/// `-1` when there is none.
pub open spec fn idx_of_from(s: Seq<AccountEntry>, a: Seq<u8>, i: int) -> int
    decreases s.len() - i,
{
    if i < 0 || i >= s.len() {
        -1
    } else if s[i].addr@ == a {
        i
    } else {
        idx_of_from(s, a, i + 1)
    }
}

/// Index of the entry at address `a`; `-1` when no account exists there.
pub open spec fn idx_of(s: Seq<AccountEntry>, a: Seq<u8>) -> int {
    idx_of_from(s, a, 0)
}

/// Whether an account exists at address `a`.
pub open spec fn has_account(s: Seq<AccountEntry>, a: Seq<u8>) -> bool {
    idx_of(s, a) >= 0
}

/// Native balance of the account at `a`; an absent account holds nothing.
pub open spec fn lamports_of(s: Seq<AccountEntry>, a: Seq<u8>) -> u64 {
    if has_account(s, a) {
        s[idx_of(s, a)].lamports
    } else {
        0
    }
}

/// What the account at `a` holds, if it exists.
pub open spec fn data_of(s: Seq<AccountEntry>, a: Seq<u8>) -> Option<AccountData> {
    if has_account(s, a) {
        Some(s[idx_of(s, a)].data)
    } else {
        None
    }
}

/// Asset balance of the token account at `a`; zero when no token account
/// exists there.
pub open spec fn token_amount_of(s: Seq<AccountEntry>, a: Seq<u8>) -> u64 {
    match data_of(s, a) {
        Some(AccountData::Token(t)) => t.amount,
        _ => 0,
    }
}

/// Well-formedness: one account per address.
pub open spec fn wf_entries(s: Seq<AccountEntry>) -> bool {
    forall|i: int, j: int|
        0 <= i < j < s.len() ==> (#[trigger] s[i]).addr@ != (#[trigger] s[j]).addr@
}

/// What `idx_of_from` finds: a real entry at the address, or a guarantee
/// that none exists from `i` on.
pub proof fn lemma_idx_props(s: Seq<AccountEntry>, a: Seq<u8>, i: int)
    requires
        0 <= i <= s.len(),
    ensures
        idx_of_from(s, a, i) == -1 ==> (forall|j: int|
            i <= j < s.len() ==> (#[trigger] s[j]).addr@ != a),
        idx_of_from(s, a, i) != -1 ==> i <= idx_of_from(s, a, i) < s.len() && s[idx_of_from(
            s,
            a,
            i,
        )].addr@ == a,
    decreases s.len() - i,
{
    if i < s.len() {
        lemma_idx_props(s, a, i + 1);
    }
}

/// In a well-formed ledger, an entry at address `a` is the one `idx_of` finds.
pub proof fn lemma_idx_unique(s: Seq<AccountEntry>, a: Seq<u8>, i: int)
    requires
        wf_entries(s),
        0 <= i < s.len(),
        s[i].addr@ == a,
    ensures
        idx_of(s, a) == i,
{
    lemma_idx_props(s, a, 0);
    let k = idx_of(s, a);
    if k != i {
        if k < i {
            assert(s[k].addr@ != s[i].addr@);
        } else {
            assert(s[i].addr@ != s[k].addr@);
        }
    }
}

/// Replacing an entry without changing its address keeps the ledger well-formed.
pub proof fn lemma_wf_update(s: Seq<AccountEntry>, i: int, e: AccountEntry)
    requires
        wf_entries(s),
        0 <= i < s.len(),
        e.addr@ == s[i].addr@,
    ensures
        wf_entries(s.update(i, e)),
{
    let s2 = s.update(i, e);
    assert forall|a: int, b: int|
        0 <= a < b < s2.len() implies (#[trigger] s2[a]).addr@ != (#[trigger] s2[b]).addr@ by {
        assert(s2[a].addr@ == s[a].addr@);
        assert(s2[b].addr@ == s[b].addr@);
    }
}

/// Destroying an account keeps the ledger well-formed.
pub proof fn lemma_wf_remove(s: Seq<AccountEntry>, i: int)
    requires
        wf_entries(s),
        0 <= i < s.len(),
    ensures
        wf_entries(s.remove(i)),
{
    let s2 = s.remove(i);
    assert forall|a: int, b: int|
        0 <= a < b < s2.len() implies (#[trigger] s2[a]).addr@ != (#[trigger] s2[b]).addr@ by {
        let a0: int = if a < i { a } else { a + 1 };
        let b0: int = if b < i { b } else { b + 1 };
        assert(s2[a] == s[a0]);
        assert(s2[b] == s[b0]);
        assert(s[a0].addr@ != s[b0].addr@);
    }
}

/// Creating an account at a fresh address keeps the ledger well-formed.
pub proof fn lemma_wf_push(s: Seq<AccountEntry>, e: AccountEntry)
    requires
        wf_entries(s),
        !has_account(s, e.addr@),
    ensures
        wf_entries(s.push(e)),
{
    lemma_idx_props(s, e.addr@, 0);
    let s2 = s.push(e);
    assert forall|a: int, b: int|
        0 <= a < b < s2.len() implies (#[trigger] s2[a]).addr@ != (#[trigger] s2[b]).addr@ by {
        if b == s.len() {
            assert(s2[a] == s[a]);
            assert(s[a].addr@ != e.addr@);
        } else {
            assert(s2[a] == s[a]);
            assert(s2[b] == s[b]);
        }
    }
}

/// Replacing an entry without changing its address moves no lookup.
pub proof fn lemma_idx_from_update(s: Seq<AccountEntry>, i: int, e: AccountEntry, a: Seq<u8>, k: int)
    requires
        0 <= i < s.len(),
        e.addr@ == s[i].addr@,
        0 <= k <= s.len(),
    ensures
        idx_of_from(s.update(i, e), a, k) == idx_of_from(s, a, k),
    decreases s.len() - k,
{
    if k < s.len() {
        lemma_idx_from_update(s, i, e, a, k + 1);
    }
}

/// Creating an account at some other address moves no lookup.
pub proof fn lemma_idx_from_push(s: Seq<AccountEntry>, e: AccountEntry, a: Seq<u8>, k: int)
    requires
        e.addr@ != a,
        0 <= k <= s.len(),
    ensures
        idx_of_from(s.push(e), a, k) == idx_of_from(s, a, k),
    decreases s.len() - k,
{
    if k < s.len() {
        lemma_idx_from_push(s, e, a, k + 1);
    } else {
        assert(s.push(e)[k].addr@ != a);
        assert(idx_of_from(s.push(e), a, k + 1) == -1);
    }
}

/// The entry sequence after `amount` of native balance moves from `from`
/// to `to` (both present and distinct, the sender's balance sufficient).
pub open spec fn spec_transfer(
    s: Seq<AccountEntry>,
    from: Seq<u8>,
    to: Seq<u8>,
    amount: u64,
) -> Seq<AccountEntry> {
    let fi = idx_of(s, from);
    let ti = idx_of(s, to);
    let fe = s[fi];
    let te = s[ti];
    s.update(fi, (AccountEntry { addr: fe.addr, lamports: (fe.lamports - amount) as u64, data: fe.data })).update(
        ti,
        (AccountEntry { addr: te.addr, lamports: (te.lamports + amount) as u64, data: te.data }),
    )
}

/// Outcome of a native transfer: the checks, in order, and the moved
/// balances on success. A transfer to oneself moves nothing.
pub open spec fn transfer_outcome(
    s: Seq<AccountEntry>,
    from: Seq<u8>,
    to: Seq<u8>,
    amount: u64,
) -> Result<Seq<AccountEntry>, CustodyError> {
    if !has_account(s, from) || !has_account(s, to) {
        Err(CustodyError::AccountNotFound)
    } else if lamports_of(s, from) < amount {
        Err(CustodyError::InsufficientFunds)
    } else if from == to {
        Ok(s)
    } else if lamports_of(s, to) as int + amount as int > u64::MAX as int {
        Err(CustodyError::BalanceOverflow)
    } else {
        Ok(spec_transfer(s, from, to, amount))
    }
}

/// Outcome of a transfer out of a derived address: the presented proof of
/// authority must re-derive exactly the debited address.
pub open spec fn derived_transfer_outcome(
    s: Seq<AccountEntry>,
    auth: AuthorityProof,
    from: Seq<u8>,
    to: Seq<u8>,
    amount: u64,
    program_id: Seq<u8>,
) -> Result<Seq<AccountEntry>, CustodyError> {
    if !auth.authorizes(from, program_id) {
        Err(CustodyError::AuthorityMismatch)
    } else {
        transfer_outcome(s, from, to, amount)
    }
}

impl View for Ledger {
    type V = Seq<AccountEntry>;

    open spec fn view(&self) -> Seq<AccountEntry> {
        self.entries@
    }
}

impl Ledger {
    /// Well-formedness: one account per address.
    pub open spec fn wf(&self) -> bool {
        wf_entries(self@)
    }

    /// An empty ledger: no account exists anywhere.
    pub fn new() -> (r: Ledger)
        ensures
            r@ == Seq::<AccountEntry>::empty(),
            r.wf(),
    {
        Ledger { entries: Vec::new() }
    }

    pub(crate) fn find_index(&self, a: &Address) -> (r: Option<usize>)
        ensures
            match r {
                Some(i) => idx_of(self@, a@) == i as int && i < self@.len() && self@[i as int].addr@
                    == a@,
                None => idx_of(self@, a@) == -1 && !has_account(self@, a@),
            },
    {
        let n = self.entries.len();
        let mut i: usize = 0;
        while i < n
            invariant
                n == self@.len(),
                i <= n,
                idx_of(self@, a@) == idx_of_from(self@, a@, i as int),
            decreases n - i,
        {
            if self.entries[i].addr.eq_addr(a) {
                return Some(i);
            }
            i += 1;
        }
        None
    }

    /// Whether an account exists at `addr`.
    pub fn contains(&self, addr: &Address) -> (r: bool)
        ensures
            r == has_account(self@, addr@),
    {
        self.find_index(addr).is_some()
    }

    /// The native balance held at `addr`; zero when no account exists there.
    pub fn balance_of(&self, addr: &Address) -> (r: u64)
        ensures
            r == lamports_of(self@, addr@),
    {
        match self.find_index(addr) {
            Some(i) => self.entries[i].lamports,
            None => 0,
        }
    }

    /// The asset balance of the token account at `addr`; zero when none
    /// exists there.
    pub fn token_balance_of(&self, addr: &Address) -> (r: u64)
        ensures
            r == token_amount_of(self@, addr@),
    {
        match self.find_index(addr) {
            Some(i) => match &self.entries[i].data {
                AccountData::Token(t) => t.amount,
                _ => 0,
            },
            None => 0,
        }
    }

    /// The vault state record at `addr`, if one exists there.
    pub fn vault_state_at(&self, addr: &Address) -> (r: Option<VaultState>)
        ensures
            match r {
                Some(rec) => data_of(self@, addr@) == Some(AccountData::VaultState(rec)),
                None => !(data_of(self@, addr@) matches Some(AccountData::VaultState(_))),
            },
    {
        match self.find_index(addr) {
            Some(i) => match &self.entries[i].data {
                AccountData::VaultState(rec) => Some(*rec),
                _ => None,
            },
            None => None,
        }
    }

    /// The escrow record at `addr`, if one exists there.
    pub fn escrow_at(&self, addr: &Address) -> (r: Option<Escrow>)
        ensures
            match r {
                Some(rec) => data_of(self@, addr@) == Some(AccountData::Escrow(rec)),
                None => !(data_of(self@, addr@) matches Some(AccountData::Escrow(_))),
            },
    {
        match self.find_index(addr) {
            Some(i) => match &self.entries[i].data {
                AccountData::Escrow(rec) => Some(*rec),
                _ => None,
            },
            None => None,
        }
    }

    /// The token account at `addr`, if one exists there.
    pub fn token_at(&self, addr: &Address) -> (r: Option<TokenAccount>)
        ensures
            match r {
                Some(t) => data_of(self@, addr@) == Some(AccountData::Token(t)),
                None => !(data_of(self@, addr@) matches Some(AccountData::Token(_))),
            },
    {
        match self.find_index(addr) {
            Some(i) => match &self.entries[i].data {
                AccountData::Token(t) => Some(*t),
                _ => None,
            },
            None => None,
        }
    }

    /// The mint record at `addr`, if one exists there.
    pub fn mint_at(&self, addr: &Address) -> (r: Option<MintInfo>)
        ensures
            match r {
                Some(m) => data_of(self@, addr@) == Some(AccountData::Mint(m)),
                None => !(data_of(self@, addr@) matches Some(AccountData::Mint(_))),
            },
    {
        match self.find_index(addr) {
            Some(i) => match &self.entries[i].data {
                AccountData::Mint(m) => Some(*m),
                _ => None,
            },
            None => None,
        }
    }

    /// Create an account at `addr`. Fails, mutating nothing, when the
    /// address is already occupied.
    pub fn insert_account(&mut self, addr: Address, lamports: u64, data: AccountData) -> (r: Result<
        (),
        CustodyError,
    >)
        requires
            old(self).wf(),
        ensures
            final(self).wf(),
            has_account(old(self)@, addr@) ==> r == Err::<(), CustodyError>(
                CustodyError::AddressInUse,
            ) && final(self)@ == old(self)@,
            !has_account(old(self)@, addr@) ==> r is Ok && final(self)@ == old(self)@.push(
                (AccountEntry { addr, lamports, data }),
            ),
    {
        match self.find_index(&addr) {
            Some(_) => Err(CustodyError::AddressInUse),
            None => {
                let e = AccountEntry { addr, lamports, data };
                proof {
                    lemma_wf_push(self@, e);
                }
                self.entries.push(e);
                Ok(())
            },
        }
    }

    pub(crate) fn set_entry(&mut self, i: usize, e: AccountEntry)
        requires
            i < old(self)@.len(),
        ensures
            final(self)@ == old(self)@.update(i as int, e),
    {
        let _replaced = self.entries.remove(i);
        self.entries.insert(i, e);
        proof {
            assert(self@ =~= old(self)@.update(i as int, e));
        }
    }

    /// Move `amount` of native balance from `from` to `to`: the ledger
    /// primitive under deposits, withdrawals and sweeps.
    pub(crate) fn transfer_native(&mut self, from: &Address, to: &Address, amount: u64) -> (r:
        Result<(), CustodyError>)
        requires
            old(self).wf(),
        ensures
            final(self).wf(),
            match transfer_outcome(old(self)@, from@, to@, amount) {
                Ok(s2) => r is Ok && final(self)@ == s2,
                Err(e) => r == Err::<(), CustodyError>(e) && final(self)@ == old(self)@,
            },
    {
        let fi = match self.find_index(from) {
            Some(i) => i,
            None => {
                return Err(CustodyError::AccountNotFound);
            },
        };
        let ti = match self.find_index(to) {
            Some(i) => i,
            None => {
                return Err(CustodyError::AccountNotFound);
            },
        };
        let fe = self.entries[fi];
        if fe.lamports < amount {
            return Err(CustodyError::InsufficientFunds);
        }
        if fi == ti {
            proof {
                assert(from@ == to@);
            }
            return Ok(());
        }
        proof {
            assert(from@ != to@);
        }
        let te = self.entries[ti];
        if te.lamports > u64::MAX - amount {
            return Err(CustodyError::BalanceOverflow);
        }
        let ghost s0 = self@;
        let fe2 = AccountEntry { addr: fe.addr, lamports: fe.lamports - amount, data: fe.data };
        proof {
            lemma_wf_update(self@, fi as int, fe2);
        }
        self.set_entry(fi, fe2);
        let te2 = AccountEntry { addr: te.addr, lamports: te.lamports + amount, data: te.data };
        proof {
            lemma_wf_update(self@, ti as int, te2);
        }
        self.set_entry(ti, te2);
        proof {
            assert(self@ =~= spec_transfer(s0, from@, to@, amount));
        }
        Ok(())
    }

    /// Move `amount` of native balance out of the derived address `from`,
    /// authorized by the presented proof of authority: the model's signing
    /// primitive for accounts that no private key controls.
    pub fn transfer_from_derived(
        &mut self,
        auth: &AuthorityProof,
        from: &Address,
        to: &Address,
        amount: u64,
        program_id: &Address,
    ) -> (r: Result<(), CustodyError>)
        requires
            old(self).wf(),
        ensures
            final(self).wf(),
            match derived_transfer_outcome(old(self)@, *auth, from@, to@, amount, program_id@) {
                Ok(s2) => r is Ok && final(self)@ == s2,
                Err(e) => r == Err::<(), CustodyError>(e) && final(self)@ == old(self)@,
            },
    {
        if !auth.check(from, program_id) {
            return Err(CustodyError::AuthorityMismatch);
        }
        self.transfer_native(from, to, amount)
    }
}

} // verus!
