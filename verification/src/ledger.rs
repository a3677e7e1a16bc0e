//! The ledger on which offers and token accounts are kept.
//!
//! The ledger keeps what the escrow needs of a token ledger: accounts that
//! hold amounts of assets for their owners, and the offers recorded with
//! their vaults. Between operations every recorded offer has its vault, the
//! vault belongs to the offer's own address and holds exactly the amount
//! offered, and of no asset is more in circulation than was issued.

use crate::address::{associated_address_of, associated_token_address, is_named, Address};
use crate::offer::Offer;
use crate::store::AddressMap;
use vstd::prelude::*;

verus! {

/// An account that holds `amount` of the asset `mint` for `owner`.
#[derive(Clone, Copy, Debug, PartialEq, Eq)]
pub struct TokenAccount {
    pub address: Address,
    pub mint: Address,
    pub owner: Address,
    pub amount: u64,
}

/// What a ledger holds: the token accounts, the offers, and the address of
/// each offer's vault.
#[verifier::ext_equal]
pub struct LedgerState {
    /// The program under which offer addresses are derived.
    pub program_id: Address,
    /// The token program under which token account addresses are derived.
    pub token_program: Address,
    /// The token accounts, by address.
    pub tokens: Map<Address, TokenAccount>,
    /// The offers, by address.
    pub offers: Map<Address, Offer>,
    /// The address of the vault of each offer, by the offer's address.
    pub vaults: Map<Address, Address>,
}

/// `tokens` after `amount` has left `account`.
pub open spec fn debited(tokens: Map<Address, TokenAccount>, account: Address, amount: u64) -> Map<
    Address,
    TokenAccount,
> {
    tokens.insert(
        account,
        TokenAccount { amount: (tokens[account].amount - amount) as u64, ..tokens[account] },
    )
}

/// `tokens` after `amount` has reached `account`, which is opened for `owner`
/// in `mint` if it was absent.
pub open spec fn credited(
    tokens: Map<Address, TokenAccount>,
    account: Address,
    owner: Address,
    mint: Address,
    amount: u64,
) -> Map<Address, TokenAccount> {
    if tokens.dom().contains(account) {
        tokens.insert(
            account,
            TokenAccount { amount: (tokens[account].amount + amount) as u64, ..tokens[account] },
        )
    } else {
        tokens.insert(account, TokenAccount { address: account, mint, owner, amount })
    }
}

impl LedgerState {
    /// Every token account is filed under its own address.
    pub open spec fn tokens_in_place(self) -> bool {
        forall|a: Address| #[trigger] self.tokens.dom().contains(a) ==> self.tokens[a].address == a
    }

    /// The address `account` is free, or holds the account of `owner` in
    /// `mint`.
    pub open spec fn admits(self, account: Address, owner: Address, mint: Address) -> bool {
        self.tokens.dom().contains(account) ==> self.tokens[account].owner == owner
            && self.tokens[account].mint == mint
    }

    /// The account at `vault` belongs to the offer at `offer` and holds
    /// exactly what was offered.
    pub open spec fn holds_vault(self, offer: Address, vault: Address) -> bool {
        &&& self.tokens.dom().contains(vault)
        &&& self.tokens[vault].owner == offer
        &&& self.tokens[vault].mint == self.offers[offer].token_mint_a
        &&& self.tokens[vault].amount == self.offers[offer].amt_token_a_offered
    }

    /// Every offer is well formed and has its vault, which exists, is
    /// controlled by the offer's own address and holds exactly the amount
    /// offered; and there is no vault without its offer.
    pub open spec fn offers_funded(self) -> bool {
        &&& self.vaults.dom() =~= self.offers.dom()
        &&& forall|o: Address| #[trigger]
            self.offers.dom().contains(o) ==> self.offers[o].wf() && self.holds_vault(
                o,
                self.vaults[o],
            )
    }

    /// `account` is the address `derived`, and what is filed there, if
    /// anything, is the account of `owner` in `mint`.
    pub open spec fn fits(
        self,
        account: Address,
        derived: Option<Address>,
        owner: Address,
        mint: Address,
    ) -> bool {
        &&& derived == Some(account)
        &&& self.admits(account, owner, mint)
    }

    /// `account` can serve as the token account of `owner` in `mint`: it is
    /// the address derived for them, and what is filed there, if anything, is
    /// theirs.
    pub open spec fn is_slot(self, account: Address, owner: Address, mint: Address) -> bool {
        self.fits(account, associated_address_of(owner, mint, self.token_program), owner, mint)
    }

    /// What the account at `account` holds; nothing where there is none.
    pub open spec fn balance(self, account: Address) -> nat {
        if self.tokens.dom().contains(account) {
            self.tokens[account].amount as nat
        } else {
            0
        }
    }

    /// The same ledger with the token accounts `tokens`.
    pub open spec fn with_tokens(self, tokens: Map<Address, TokenAccount>) -> LedgerState {
        LedgerState { tokens, ..self }
    }

    /// The same ledger with `offer` recorded at `address`, and `vault` as the
    /// address of its vault.
    pub open spec fn recording(self, address: Address, offer: Offer, vault: Address) -> LedgerState {
        LedgerState {
            offers: self.offers.insert(address, offer),
            vaults: self.vaults.insert(address, vault),
            ..self
        }
    }

    /// The same ledger without the offer at `address`.
    pub open spec fn retiring(self, address: Address) -> LedgerState {
        LedgerState {
            offers: self.offers.remove(address),
            vaults: self.vaults.remove(address),
            ..self
        }
    }

    /// What holds of every ledger between operations.
    pub open spec fn consistent(self) -> bool {
        &&& self.tokens_in_place()
        &&& self.offers_funded()
    }
}

/// What `account` adds to the amount of `mint` in circulation.
pub open spec fn share(account: TokenAccount, mint: Address) -> nat {
    if account.mint == mint {
        account.amount as nat
    } else {
        0
    }
}

/// The amount of `mint` that `accounts` hold together.
pub open spec fn held(accounts: Seq<TokenAccount>, mint: Address) -> nat
    decreases accounts.len(),
{
    if accounts.len() == 0 {
        0
    } else {
        held(accounts.drop_last(), mint) + share(accounts.last(), mint)
    }
}

/// One more account adds its share.
proof fn lemma_held_push(accounts: Seq<TokenAccount>, account: TokenAccount, mint: Address)
    ensures
        held(accounts.push(account), mint) == held(accounts, mint) + share(account, mint),
{
    assert(accounts.push(account).drop_last() =~= accounts);
}

/// Replacing an account replaces its share.
proof fn lemma_held_update(accounts: Seq<TokenAccount>, i: int, account: TokenAccount, mint: Address)
    requires
        0 <= i < accounts.len(),
    ensures
        held(accounts.update(i, account), mint) + share(accounts[i], mint) == held(accounts, mint)
            + share(account, mint),
    decreases accounts.len(),
{
    let updated = accounts.update(i, account);
    if i == accounts.len() - 1 {
        assert(updated.drop_last() =~= accounts.drop_last());
    } else {
        assert(updated.drop_last() =~= accounts.drop_last().update(i, account));
        lemma_held_update(accounts.drop_last(), i, account, mint);
    }
}

/// Taking an account out takes its share out.
proof fn lemma_held_remove(accounts: Seq<TokenAccount>, i: int, mint: Address)
    requires
        0 <= i < accounts.len(),
    ensures
        held(accounts.remove(i), mint) + share(accounts[i], mint) == held(accounts, mint),
    decreases accounts.len(),
{
    let removed = accounts.remove(i);
    if i == accounts.len() - 1 {
        assert(removed =~= accounts.drop_last());
    } else {
        assert(removed.drop_last() =~= accounts.drop_last().remove(i));
        assert(removed.last() == accounts.last());
        lemma_held_remove(accounts.drop_last(), i, mint);
    }
}

/// One account's share is part of what all hold.
proof fn lemma_share_le_held(accounts: Seq<TokenAccount>, i: int, mint: Address)
    requires
        0 <= i < accounts.len(),
    ensures
        share(accounts[i], mint) <= held(accounts, mint),
{
    lemma_held_remove(accounts, i, mint);
}

/// The shares of two accounts are part of what all hold.
proof fn lemma_shares_le_held(accounts: Seq<TokenAccount>, i: int, j: int, mint: Address)
    requires
        0 <= i < accounts.len(),
        0 <= j < accounts.len(),
        i != j,
    ensures
        share(accounts[i], mint) + share(accounts[j], mint) <= held(accounts, mint),
{
    lemma_held_remove(accounts, i, mint);
    let rest = accounts.remove(i);
    let k = if j < i { j } else { j - 1 };
    assert(rest[k] == accounts[j]);
    lemma_share_le_held(rest, k, mint);
}

/// What the first accounts hold grows with each account, up to what all
/// hold.
proof fn lemma_held_take(accounts: Seq<TokenAccount>, i: int, mint: Address)
    requires
        0 <= i < accounts.len(),
    ensures
        held(accounts.take(i + 1), mint) == held(accounts.take(i), mint) + share(accounts[i], mint),
        held(accounts.take(i + 1), mint) <= held(accounts, mint),
    decreases accounts.len() - i,
{
    assert(accounts.take(i + 1).drop_last() =~= accounts.take(i));
    if i + 1 < accounts.len() {
        lemma_held_take(accounts, i + 1, mint);
    } else {
        assert(accounts.take(i + 1) =~= accounts);
    }
}

/// Changing token accounts that no recorded offer owns keeps a consistent
/// ledger consistent, as long as each account stays in its place.
pub proof fn lemma_tokens_changed(state: LedgerState, tokens: Map<Address, TokenAccount>)
    requires
        state.consistent(),
        state.with_tokens(tokens).tokens_in_place(),
        forall|v: Address|
            #![trigger state.tokens.dom().contains(v)]
            state.tokens.dom().contains(v) && state.offers.dom().contains(state.tokens[v].owner)
                ==> tokens.dom().contains(v) && tokens[v] == state.tokens[v],
    ensures
        state.with_tokens(tokens).consistent(),
{
    let after = state.with_tokens(tokens);
    assert forall|o: Address| #[trigger] after.offers.dom().contains(o) implies after.holds_vault(
        o,
        after.vaults[o],
    ) by {
        assert(state.holds_vault(o, state.vaults[o]));
    }
}

/// The ledger: token accounts and offers, each under its address. Its
/// contents can be read, accounts can be opened and amounts issued; beyond
/// that only the making and the taking of offers change it.
pub struct Ledger {
    program_id: Address,
    token_program: Address,
    tokens: AddressMap<TokenAccount>,
    offers: AddressMap<Offer>,
    vaults: AddressMap<Address>,
}

impl View for Ledger {
    type V = LedgerState;

    closed spec fn view(&self) -> LedgerState {
        LedgerState {
            program_id: self.program_id,
            token_program: self.token_program,
            tokens: self.tokens.map(),
            offers: self.offers.map(),
            vaults: self.vaults.map(),
        }
    }
}

impl Ledger {
    /// The amount of `mint` in circulation.
    pub closed spec fn supply(&self, mint: Address) -> nat {
        held(self.tokens.values@, mint)
    }

    /// The ledger's own bookkeeping is in order: no address is filed twice,
    /// and of no asset is more in circulation than an amount can express.
    pub closed spec fn sound(&self) -> bool {
        &&& self.tokens.wf()
        &&& self.offers.wf()
        &&& self.vaults.wf()
        &&& self.vaults.keys@ == self.offers.keys@
        &&& forall|mint: Address| #[trigger] held(self.tokens.values@, mint) <= u64::MAX
    }

    /// The ledger is sound and its contents are consistent.
    pub open spec fn wf(&self) -> bool {
        &&& self.sound()
        &&& self@.consistent()
    }

    /// Of no asset is more in circulation than an amount can express.
    pub proof fn lemma_supply_bounded(&self, mint: Address)
        requires
            self.sound(),
        ensures
            self.supply(mint) <= u64::MAX,
    {
    }

    /// An account holds no more than is in circulation of its asset.
    pub proof fn lemma_balance_bounded(&self, account: Address)
        requires
            self.sound(),
            self@.tokens.dom().contains(account),
        ensures
            self@.tokens[account].amount <= self.supply(self@.tokens[account].mint),
    {
        let i = crate::store::place_of(self.tokens.keys@, account);
        lemma_share_le_held(self.tokens.values@, i, self@.tokens[account].mint);
    }

    /// Two accounts of one asset hold together no more than is in circulation.
    pub proof fn lemma_balances_bounded(&self, first: Address, second: Address)
        requires
            self.sound(),
            self@.tokens.dom().contains(first),
            self@.tokens.dom().contains(second),
            first != second,
            self@.tokens[first].mint == self@.tokens[second].mint,
        ensures
            self@.tokens[first].amount + self@.tokens[second].amount <= self.supply(
                self@.tokens[first].mint,
            ),
            self@.tokens[first].amount + self@.tokens[second].amount <= u64::MAX,
    {
        let i = crate::store::place_of(self.tokens.keys@, first);
        let j = crate::store::place_of(self.tokens.keys@, second);
        lemma_shares_le_held(self.tokens.values@, i, j, self@.tokens[first].mint);
    }

    /// An empty ledger for the program `program_id`, whose token accounts
    /// live under `token_program`.
    pub fn new(program_id: Address, token_program: Address) -> (ledger: Ledger)
        ensures
            ledger.wf(),
            ledger@.program_id == program_id,
            ledger@.token_program == token_program,
            ledger@.tokens == Map::<Address, TokenAccount>::empty(),
            ledger@.offers == Map::<Address, Offer>::empty(),
            ledger@.vaults == Map::<Address, Address>::empty(),
            forall|mint: Address| ledger.supply(mint) == 0,
    {
        let ledger = Ledger {
            program_id,
            token_program,
            tokens: AddressMap::new(),
            offers: AddressMap::new(),
            vaults: AddressMap::new(),
        };
        assert(forall|mint: Address| #[trigger] held(ledger.tokens.values@, mint) == 0);
        assert(ledger.vaults.keys@ =~= ledger.offers.keys@);
        ledger
    }

    /// The program under which offer addresses are derived.
    pub fn program_id(&self) -> (program_id: Address)
        ensures
            program_id == self@.program_id,
    {
        self.program_id
    }

    /// The token program under which token account addresses are derived.
    pub fn token_program(&self) -> (token_program: Address)
        ensures
            token_program == self@.token_program,
    {
        self.token_program
    }

    /// The token account at `address`, if there is one.
    pub fn token_account(&self, address: &Address) -> (account: Option<TokenAccount>)
        requires
            self.wf(),
        ensures
            account == (if self@.tokens.dom().contains(*address) {
                Some(self@.tokens[*address])
            } else {
                None
            }),
    {
        self.tokens.get(address)
    }

    /// The offer recorded at `address`, if there is one.
    pub fn offer(&self, address: &Address) -> (offer: Option<Offer>)
        requires
            self.wf(),
        ensures
            offer == (if self@.offers.dom().contains(*address) {
                Some(self@.offers[*address])
            } else {
                None
            }),
    {
        self.offers.get(address)
    }

    /// The address of the vault of the offer recorded at `address`, if there
    /// is one.
    pub fn vault_of(&self, address: &Address) -> (vault: Option<Address>)
        requires
            self.wf(),
        ensures
            vault == (if self@.offers.dom().contains(*address) {
                Some(self@.vaults[*address])
            } else {
                None
            }),
    {
        self.vaults.get(address)
    }

    /// The amount of `mint` in circulation.
    pub fn total_supply(&self, mint: &Address) -> (total: u64)
        requires
            self.wf(),
        ensures
            total == self.supply(*mint),
    {
        let mut total: u64 = 0;
        let mut i: usize = 0;
        while i < self.tokens.values.len()
            invariant
                self.sound(),
                i <= self.tokens.values@.len(),
                total == held(self.tokens.values@.take(i as int), *mint),
            decreases self.tokens.values@.len() - i,
        {
            proof {
                lemma_held_take(self.tokens.values@, i as int, *mint);
            }
            let account = self.tokens.values[i];
            if account.mint.same_as(mint) {
                total = total + account.amount;
            }
            i += 1;
        }
        assert(self.tokens.values@.take(i as int) =~= self.tokens.values@);
        total
    }

    /// Takes `amount` out of the account at `account`.
    pub(crate) fn debit(&mut self, account: &Address, amount: u64)
        requires
            old(self).sound(),
            old(self)@.tokens.dom().contains(*account),
            old(self)@.tokens[*account].amount >= amount,
        ensures
            final(self).sound(),
            final(self)@ == old(self)@.with_tokens(debited(old(self)@.tokens, *account, amount)),
            forall|mint: Address| #[trigger]
                final(self).supply(mint) + (if mint == old(self)@.tokens[*account].mint {
                    amount as nat
                } else {
                    0
                }) == old(self).supply(mint),
    {
        let found = self.tokens.find(account);
        let i = found.unwrap();
        let current = self.tokens.values[i];
        let updated = TokenAccount {
            address: current.address,
            mint: current.mint,
            owner: current.owner,
            amount: current.amount - amount,
        };
        proof {
            assert forall|mint: Address| #[trigger]
                held(self.tokens.values@.update(i as int, updated), mint) + (if mint
                    == current.mint {
                    amount as nat
                } else {
                    0
                }) == held(self.tokens.values@, mint) by {
                lemma_held_update(self.tokens.values@, i as int, updated, mint);
            }
        }
        self.tokens.set(i, updated);
    }

    /// Adds `amount` to the account at `account`, which is opened for `owner`
    /// in `mint` if it is absent.
    pub(crate) fn credit(&mut self, account: &Address, owner: &Address, mint: &Address, amount: u64)
        requires
            old(self).sound(),
            old(self)@.tokens.dom().contains(*account) ==> old(self)@.tokens[*account].mint
                == *mint,
            old(self).supply(*mint) + amount <= u64::MAX,
        ensures
            final(self).sound(),
            final(self)@ == old(self)@.with_tokens(
                credited(old(self)@.tokens, *account, *owner, *mint, amount),
            ),
            forall|m: Address| #[trigger]
                final(self).supply(m) == old(self).supply(m) + (if m == *mint {
                    amount as nat
                } else {
                    0
                }),
    {
        match self.tokens.find(account) {
            Some(i) => {
                let current = self.tokens.values[i];
                proof {
                    lemma_share_le_held(self.tokens.values@, i as int, *mint);
                }
                let updated = TokenAccount {
                    address: current.address,
                    mint: current.mint,
                    owner: current.owner,
                    amount: current.amount + amount,
                };
                proof {
                    assert forall|m: Address| #[trigger]
                        held(self.tokens.values@.update(i as int, updated), m) == held(
                            self.tokens.values@,
                            m,
                        ) + (if m == *mint {
                            amount as nat
                        } else {
                            0
                        }) by {
                        lemma_held_update(self.tokens.values@, i as int, updated, m);
                    }
                }
                self.tokens.set(i, updated);
            },
            None => {
                let opened = TokenAccount {
                    address: *account,
                    mint: *mint,
                    owner: *owner,
                    amount,
                };
                proof {
                    assert forall|m: Address| #[trigger]
                        held(self.tokens.values@.push(opened), m) == held(
                            self.tokens.values@,
                            m,
                        ) + (if m == *mint {
                            amount as nat
                        } else {
                            0
                        }) by {
                        lemma_held_push(self.tokens.values@, opened, m);
                    }
                }
                self.tokens.push(*account, opened);
            },
        }
    }

    /// Closes the empty account at `account`.
    pub(crate) fn close(&mut self, account: &Address)
        requires
            old(self).sound(),
            old(self)@.tokens.dom().contains(*account),
            old(self)@.tokens[*account].amount == 0,
        ensures
            final(self).sound(),
            final(self)@ == old(self)@.with_tokens(old(self)@.tokens.remove(*account)),
            forall|mint: Address| #[trigger] final(self).supply(mint) == old(self).supply(mint),
    {
        let found = self.tokens.find(account);
        let i = found.unwrap();
        proof {
            assert forall|mint: Address| #[trigger]
                held(self.tokens.values@.remove(i as int), mint) == held(
                    self.tokens.values@,
                    mint,
                ) by {
                lemma_held_remove(self.tokens.values@, i as int, mint);
            }
        }
        self.tokens.remove(i);
    }

    /// Records `offer` at the free address `address`, with `vault` as the
    /// address of its vault.
    pub(crate) fn record(&mut self, address: &Address, offer: Offer, vault: &Address)
        requires
            old(self).sound(),
            !old(self)@.offers.dom().contains(*address),
        ensures
            final(self).sound(),
            final(self)@ == old(self)@.recording(*address, offer, *vault),
            forall|mint: Address| #[trigger] final(self).supply(mint) == old(self).supply(mint),
    {
        self.offers.push(*address, offer);
        self.vaults.push(*address, *vault);
    }

    /// Retires the offer recorded at `address`.
    pub(crate) fn retire(&mut self, address: &Address)
        requires
            old(self).sound(),
            old(self)@.offers.dom().contains(*address),
        ensures
            final(self).sound(),
            final(self)@ == old(self)@.retiring(*address),
            forall|mint: Address| #[trigger] final(self).supply(mint) == old(self).supply(mint),
    {
        let found = self.offers.find(address);
        let i = found.unwrap();
        self.offers.remove(i);
        self.vaults.remove(i);
    }

    /// Opens an empty account for `owner` in `mint` at `account`, unless their
    /// account is open there already. Nothing is opened where the address
    /// holds the account of another owner or mint.
    pub fn open_token_account(&mut self, account: &Address, owner: &Address, mint: &Address) -> (opened:
        bool)
        requires
            old(self).wf(),
        ensures
            final(self).wf(),
            forall|m: Address| #[trigger] final(self).supply(m) == old(self).supply(m),
            opened == old(self)@.admits(*account, *owner, *mint),
            opened ==> final(self)@ == old(self)@.with_tokens(
                credited(old(self)@.tokens, *account, *owner, *mint, 0),
            ),
            !opened ==> final(self)@ == old(self)@,
    {
        let ghost before = self@;
        match self.tokens.get(account) {
            Some(existing) => {
                let same = existing.owner.same_as(owner) && existing.mint.same_as(mint);
                proof {
                    if same {
                        assert(credited(before.tokens, *account, *owner, *mint, 0)
                            =~= before.tokens);
                    }
                }
                same
            },
            None => {
                proof {
                    self.lemma_supply_bounded(*mint);
                }
                self.credit(account, owner, mint, 0);
                proof {
                    lemma_tokens_changed(before, self@.tokens);
                }
                true
            },
        }
    }

    /// Opens the token account of `owner` in `mint` at the address derived
    /// for it, unless it is open, and gives that address. Nothing is opened
    /// where no address can be derived, or where the address derived holds
    /// the account of another owner or mint.
    pub fn create_token_account(&mut self, owner: &Address, mint: &Address) -> (opened: Option<
        Address,
    >)
        requires
            old(self).wf(),
        ensures
            final(self).wf(),
            forall|m: Address| #[trigger] final(self).supply(m) == old(self).supply(m),
            match opened {
                Some(account) => {
                    &&& old(self)@.is_slot(account, *owner, *mint)
                    &&& final(self)@ == old(self)@.with_tokens(
                        credited(old(self)@.tokens, account, *owner, *mint, 0),
                    )
                },
                None => {
                    &&& final(self)@ == old(self)@
                    &&& forall|account: Address| !#[trigger] old(self)@.is_slot(account, *owner, *mint)
                },
            },
    {
        let token_program = self.token_program;
        match associated_token_address(owner, mint, &token_program) {
            Some(account) => {
                if self.open_token_account(&account, owner, mint) {
                    Some(account)
                } else {
                    None
                }
            },
            None => None,
        }
    }

    /// Issues `amount` to the account at `account`. Nothing is issued where
    /// there is no such account, where a recorded offer owns it, or where the
    /// amount in circulation would exceed what an amount can express.
    pub fn mint_to(&mut self, account: &Address, amount: u64) -> (minted: bool)
        requires
            old(self).wf(),
        ensures
            final(self).wf(),
            minted == {
                &&& old(self)@.tokens.dom().contains(*account)
                &&& !old(self)@.offers.dom().contains(old(self)@.tokens[*account].owner)
                &&& old(self).supply(old(self)@.tokens[*account].mint) + amount <= u64::MAX
            },
            minted ==> final(self)@ == old(self)@.with_tokens(
                credited(
                    old(self)@.tokens,
                    *account,
                    old(self)@.tokens[*account].owner,
                    old(self)@.tokens[*account].mint,
                    amount,
                ),
            ),
            !minted ==> final(self)@ == old(self)@,
            forall|m: Address| #[trigger]
                final(self).supply(m) == old(self).supply(m) + (if minted && m == old(
                    self,
                )@.tokens[*account].mint {
                    amount as nat
                } else {
                    0
                }),
    {
        let ghost before = self@;
        match self.tokens.get(account) {
            None => false,
            Some(existing) => {
                if self.offers.find(&existing.owner).is_some() {
                    return false;
                }
                let total = self.total_supply(&existing.mint);
                if amount > u64::MAX - total {
                    return false;
                }
                self.credit(account, &existing.owner, &existing.mint, amount);
                proof {
                    lemma_tokens_changed(before, self@.tokens);
                }
                true
            },
        }
    }
    /// Whether `account` is the address `derived`, and what is filed there,
    /// if anything, is the account of `owner` in `mint`.
    pub fn fits(
        &self,
        account: &Address,
        derived: &Option<Address>,
        owner: &Address,
        mint: &Address,
    ) -> (fits: bool)
        requires
            self.wf(),
        ensures
            fits == self@.fits(*account, *derived, *owner, *mint),
    {
        if !is_named(derived, account) {
            return false;
        }
        match self.tokens.get(account) {
            Some(existing) => existing.owner.same_as(owner) && existing.mint.same_as(mint),
            None => true,
        }
    }
}

} // verus!
