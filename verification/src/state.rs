//! Accounts as a transaction sees them.
use crate::models::{code_view, AccountInfo, AccountInfoView, Bytecode, BytecodeView, KECCAK_EMPTY};
use crate::primitives::{H160, H256, U256};
use vstd::prelude::*;

verus! {

/// A slot of the storage of an account.
#[derive(Clone, Copy, Debug)]
pub struct StorageSlot {
    /// The value before the transaction.
    pub original_value: U256,
    pub present_value: U256,
}

/// The value of a [`StorageSlot`].
pub struct StorageSlotView {
    pub original_value: nat,
    pub present_value: nat,
}

impl View for StorageSlot {
    type V = StorageSlotView;

    open spec fn view(&self) -> StorageSlotView {
        StorageSlotView {
            original_value: self.original_value@,
            present_value: self.present_value@,
        }
    }
}

/// The value of an optional [`StorageSlot`].
pub open spec fn slot_view(slot: Option<StorageSlot>) -> Option<StorageSlotView> {
    match slot {
        Some(slot) => Some(slot@),
        None => None,
    }
}

/// The slots of an account that the transaction has seen, the latest last.
#[derive(Debug)]
pub struct Storage {
    slots: Vec<(U256, StorageSlot)>,
}

/// The map that a list of slots stands for: a later slot hides an earlier one with its index.
pub open spec fn slots_map(slots: Seq<(U256, StorageSlot)>) -> Map<nat, StorageSlotView>
    decreases slots.len(),
{
    if slots.len() == 0 {
        Map::empty()
    } else {
        slots_map(slots.drop_last()).insert(slots.last().0@, slots.last().1@)
    }
}

impl View for Storage {
    type V = Map<nat, StorageSlotView>;

    closed spec fn view(&self) -> Map<nat, StorageSlotView> {
        slots_map(self.slots@)
    }
}

/// What `m` holds for `k`.
pub open spec fn lookup<K, V>(m: Map<K, V>, k: K) -> Option<V> {
    if m.contains_key(k) {
        Some(m[k])
    } else {
        None
    }
}

/// `m` with `v` for `k`, or without `k`.
pub open spec fn with_entry<K, V>(m: Map<K, V>, k: K, v: Option<V>) -> Map<K, V> {
    match v {
        Some(v) => m.insert(k, v),
        None => m.remove(k),
    }
}

impl Storage {
    /// No slots.
    pub fn new() -> (r: Self)
        ensures
            r@ == Map::<nat, StorageSlotView>::empty(),
    {
        Storage { slots: Vec::new() }
    }

    /// The slot with the index, where it has been seen.
    pub fn get(&self, index: &U256) -> (r: Option<StorageSlot>)
        ensures
            slot_view(r) == lookup(self@, index@),
    {
        let mut i: usize = self.slots.len();
        assert(self.slots@.take(i as int) =~= self.slots@);
        while i > 0
            invariant
                0 <= i <= self.slots@.len(),
                lookup(slots_map(self.slots@.take(i as int)), index@) == lookup(self@, index@),
            decreases i,
        {
            let ghost prefix = self.slots@.take(i as int);
            assert(prefix.drop_last() =~= self.slots@.take(i - 1));
            i -= 1;
            if self.slots[i].0.equals(index) {
                return Some(self.slots[i].1);
            }
        }
        None
    }

    /// The slots, the latest last.
    pub fn entries(&self) -> (r: &Vec<(U256, StorageSlot)>)
        ensures
            slots_map(r@) == self@,
    {
        &self.slots
    }

    /// Forgets the slot with the index.
    pub fn remove(&mut self, index: &U256)
        ensures
            final(self)@ == old(self)@.remove(index@),
    {
        let mut kept: Vec<(U256, StorageSlot)> = Vec::new();
        let mut i: usize = 0;
        assert(slots_map(kept@) =~= slots_map(self.slots@.take(0)).remove(index@));
        while i < self.slots.len()
            invariant
                0 <= i <= self.slots@.len(),
                slots_map(kept@) == slots_map(self.slots@.take(i as int)).remove(index@),
            decreases self.slots@.len() - i,
        {
            let entry = self.slots[i];
            let ghost before = kept@;
            let ghost prefix = self.slots@.take(i + 1);
            assert(prefix.drop_last() =~= self.slots@.take(i as int));
            if !entry.0.equals(index) {
                kept.push(entry);
                assert(kept@.drop_last() =~= before);
            }
            assert(slots_map(kept@) =~= slots_map(prefix).remove(index@));
            i += 1;
        }
        assert(self.slots@.take(i as int) =~= self.slots@);
        self.slots = kept;
    }

    /// Sets the slot with the index.
    pub fn insert(&mut self, index: U256, slot: StorageSlot)
        ensures
            final(self)@ == old(self)@.insert(index@, slot@),
    {
        let ghost before = self@;
        self.remove(&index);
        let ghost slots = self.slots@;
        self.slots.push((index, slot));
        assert(self.slots@.drop_last() =~= slots);
        assert(self@ =~= before.insert(index@, slot@));
    }
}

/// An account.
#[derive(Debug)]
pub struct Account {
    pub info: AccountInfo,
    pub storage: Storage,
    /// The account is new: the database is not asked for its storage.
    pub storage_cleared: bool,
    /// The account is to be removed.
    pub is_destroyed: bool,
    /// The account is to be written back.
    pub is_touched: bool,
    /// The database knows no such account.
    pub is_not_existing: bool,
}

/// What an account has besides code and storage.
#[derive(Clone, Copy, Debug)]
pub struct AccountFields {
    pub balance: U256,
    pub nonce: u64,
    pub code_hash: H256,
    pub storage_cleared: bool,
    pub is_destroyed: bool,
    pub is_touched: bool,
    pub is_not_existing: bool,
}

/// The value of [`AccountFields`].
pub struct AccountFieldsView {
    pub balance: nat,
    pub nonce: u64,
    pub code_hash: Seq<u8>,
    pub storage_cleared: bool,
    pub is_destroyed: bool,
    pub is_touched: bool,
    pub is_not_existing: bool,
}

impl View for AccountFields {
    type V = AccountFieldsView;

    open spec fn view(&self) -> AccountFieldsView {
        AccountFieldsView {
            balance: self.balance@,
            nonce: self.nonce,
            code_hash: self.code_hash@,
            storage_cleared: self.storage_cleared,
            is_destroyed: self.is_destroyed,
            is_touched: self.is_touched,
            is_not_existing: self.is_not_existing,
        }
    }
}

/// The value of an [`Account`].
pub struct AccountView {
    pub fields: AccountFieldsView,
    pub code: Option<BytecodeView>,
    pub storage: Map<nat, StorageSlotView>,
}

impl View for Account {
    type V = AccountView;

    open spec fn view(&self) -> AccountView {
        AccountView {
            fields: AccountFieldsView {
                balance: self.info.balance@,
                nonce: self.info.nonce,
                code_hash: self.info.code_hash@,
                storage_cleared: self.storage_cleared,
                is_destroyed: self.is_destroyed,
                is_touched: self.is_touched,
                is_not_existing: self.is_not_existing,
            },
            code: code_view(self.info.code),
            storage: self.storage@,
        }
    }
}

impl AccountView {
    /// An account has no balance, no nonce and no code.
    pub open spec fn is_empty(self) -> bool {
        &&& self.fields.balance == 0
        &&& self.fields.nonce == 0
        &&& self.fields.code_hash == KECCAK_EMPTY@
    }

    /// The account that the database's answer stands for.
    pub open spec fn from_answer(answer: Option<AccountInfoView>) -> AccountView {
        match answer {
            Some(info) => AccountView {
                fields: AccountFieldsView {
                    balance: info.balance,
                    nonce: info.nonce,
                    code_hash: info.code_hash,
                    storage_cleared: false,
                    is_destroyed: false,
                    is_touched: false,
                    is_not_existing: false,
                },
                code: info.code,
                storage: Map::empty(),
            },
            None => AccountView {
                fields: AccountFieldsView {
                    balance: 0,
                    nonce: 0,
                    code_hash: KECCAK_EMPTY@,
                    storage_cleared: false,
                    is_destroyed: false,
                    is_touched: false,
                    is_not_existing: true,
                },
                code: None,
                storage: Map::empty(),
            },
        }
    }
}

impl Account {
    /// The account that the database's answer stands for.
    pub fn from_answer(answer: Option<AccountInfo>) -> (r: Self)
        ensures
            r@ == AccountView::from_answer(
                match answer {
                    Some(info) => Some(info@),
                    None => None,
                },
            ),
    {
        let is_not_existing = answer.is_none();
        let info = match answer {
            Some(info) => info,
            None => AccountInfo {
                balance: U256::zero(),
                nonce: 0,
                code_hash: KECCAK_EMPTY,
                code: None,
            },
        };
        Account {
            info,
            storage: Storage::new(),
            storage_cleared: false,
            is_destroyed: false,
            is_touched: false,
            is_not_existing,
        }
    }

    /// What the account has besides code and storage.
    pub fn fields(&self) -> (r: AccountFields)
        ensures
            r@ == self@.fields,
    {
        AccountFields {
            balance: self.info.balance,
            nonce: self.info.nonce,
            code_hash: self.info.code_hash,
            storage_cleared: self.storage_cleared,
            is_destroyed: self.is_destroyed,
            is_touched: self.is_touched,
            is_not_existing: self.is_not_existing,
        }
    }

    /// Sets what the account has besides code and storage.
    pub fn set_fields(&mut self, fields: AccountFields)
        ensures
            final(self)@ == (AccountView { fields: fields@, ..old(self)@ }),
    {
        self.info.balance = fields.balance;
        self.info.nonce = fields.nonce;
        self.info.code_hash = fields.code_hash;
        self.storage_cleared = fields.storage_cleared;
        self.is_destroyed = fields.is_destroyed;
        self.is_touched = fields.is_touched;
        self.is_not_existing = fields.is_not_existing;
    }

    /// Sets the code, and hands back the one that was there.
    pub fn replace_code(&mut self, code: Option<Bytecode>) -> (r: Option<Bytecode>)
        ensures
            code_view(r) == old(self)@.code,
            final(self)@ == (AccountView { code: code_view(code), ..old(self)@ }),
    {
        let mut code = code;
        std::mem::swap(&mut self.info.code, &mut code);
        code
    }

    /// Sets or forgets a slot.
    pub fn set_slot(&mut self, index: U256, slot: Option<StorageSlot>)
        ensures
            final(self)@ == (AccountView {
                storage: with_entry(old(self)@.storage, index@, slot_view(slot)),
                ..old(self)@
            }),
    {
        match slot {
            Some(slot) => self.storage.insert(index, slot),
            None => self.storage.remove(&index),
        }
    }

    /// Whether the account has no balance, no nonce and no code.
    pub fn is_empty(&self) -> (r: bool)
        ensures
            r == self@.is_empty(),
    {
        self.info.balance.is_zero() && self.info.nonce == 0 && crate::primitives::same_hash(
            &self.info.code_hash,
            &KECCAK_EMPTY,
        )
    }
}

/// The accounts that a transaction has seen, by address: a `hashbrown::HashMap`.
#[verifier::external_body]
#[derive(Debug)]
pub struct State {
    map: hashbrown::HashMap<H160, Account>,
}

/// The accounts in a [`State`], by address.
pub uninterp spec fn state_accounts(state: State) -> Map<Seq<u8>, AccountView>;

impl View for State {
    type V = Map<Seq<u8>, AccountView>;

    open spec fn view(&self) -> Map<Seq<u8>, AccountView> {
        state_accounts(*self)
    }
}

/// The addresses are those of `set`, each once.
pub open spec fn lists(addresses: Seq<H160>, set: Set<Seq<u8>>) -> bool {
    &&& forall|i: int, j: int| 0 <= i < j < addresses.len() ==> addresses[i]@ != addresses[j]@
    &&& forall|address: Seq<u8>|
        set.contains(address) <==> exists|i: int|
            0 <= i < addresses.len() && addresses[i]@ == address
}

/// `hashbrown::HashMap::new`: a map without entries.
#[verifier::external_body]
fn state_new() -> (r: State)
    ensures
        state_accounts(r) == (Map::<Seq<u8>, AccountView>::empty()),
{
    State { map: hashbrown::HashMap::new() }
}

/// `hashbrown::HashMap::get`: the value under the key, and `None` if and only if there is none.
#[verifier::external_body]
fn state_get<'a>(state: &'a State, address: &H160) -> (r: Option<&'a Account>)
    ensures
        match r {
            Some(account) => lookup(state_accounts(*state), address@) == Some(account@),
            None => !state_accounts(*state).contains_key(address@),
        },
{
    state.map.get(address)
}

/// `hashbrown::HashMap::get_mut`: the value under the key, and `None` if and only if there is none.
/// What is written through the reference is under the key afterwards; the other entries stay.
#[verifier::external_body]
fn state_get_mut<'a>(state: &'a mut State, address: &H160) -> (r: Option<&'a mut Account>)
    ensures
        match r {
            Some(account) => {
                &&& lookup(state_accounts(*old(state)), address@) == Some(account@)
                &&& state_accounts(*final(state)) == state_accounts(*old(state)).insert(
                    address@,
                    final(account)@,
                )
            },
            None => {
                &&& !state_accounts(*old(state)).contains_key(address@)
                &&& state_accounts(*final(state)) == state_accounts(*old(state))
            },
        },
{
    state.map.get_mut(address)
}

/// `hashbrown::HashMap::insert`: the value is under the key afterwards; the other entries stay.
#[verifier::external_body]
fn state_insert(state: &mut State, address: H160, account: Account)
    ensures
        state_accounts(*final(state)) == state_accounts(*old(state)).insert(address@, account@),
{
    state.map.insert(address, account);
}

/// `hashbrown::HashMap::remove`: there is no value under the key afterwards; the other entries
/// stay.
#[verifier::external_body]
fn state_remove(state: &mut State, address: &H160)
    ensures
        state_accounts(*final(state)) == state_accounts(*old(state)).remove(address@),
{
    state.map.remove(address);
}

/// The accounts that are touched.
pub open spec fn touched_accounts(accounts: Map<Seq<u8>, AccountView>) -> Map<
    Seq<u8>,
    AccountView,
> {
    Map::new(
        |address: Seq<u8>|
            accounts.contains_key(address) && accounts[address].fields.is_touched,
        |address: Seq<u8>| accounts[address],
    )
}

/// `hashbrown::HashMap::retain`, with the field `is_touched` for the test: the touched accounts
/// stay as they are, the others go.
#[verifier::external_body]
fn state_retain_touched(state: &mut State)
    ensures
        state_accounts(*final(state)) == touched_accounts(state_accounts(*old(state))),
{
    state.map.retain(|_address, account| account.is_touched);
}

/// `hashbrown::HashMap::keys`: the keys of the map, each once. The order is not the same in every
/// process, and nothing is said of it.
#[verifier::external_body]
fn state_addresses(state: &State) -> (r: Vec<H160>)
    ensures
        lists(r@, state_accounts(*state).dom()),
{
    state.map.keys().copied().collect()
}

impl State {
    /// No accounts.
    pub fn new() -> (r: Self)
        ensures
            r@ == Map::<Seq<u8>, AccountView>::empty(),
    {
        state_new()
    }

    /// The account with the address.
    pub fn get(&self, address: &H160) -> (r: Option<&Account>)
        ensures
            match r {
                Some(account) => lookup(self@, address@) == Some(account@),
                None => !self@.contains_key(address@),
            },
    {
        state_get(self, address)
    }

    /// The account with the address, to be changed.
    pub fn get_mut(&mut self, address: &H160) -> (r: Option<&mut Account>)
        ensures
            match r {
                Some(account) => {
                    &&& lookup(old(self)@, address@) == Some(account@)
                    &&& final(self)@ == old(self)@.insert(address@, final(account)@)
                },
                None => {
                    &&& !old(self)@.contains_key(address@)
                    &&& final(self)@ == old(self)@
                },
            },
    {
        state_get_mut(self, address)
    }

    /// Sets the account with the address.
    pub fn insert(&mut self, address: H160, account: Account)
        ensures
            final(self)@ == old(self)@.insert(address@, account@),
    {
        state_insert(self, address, account)
    }

    /// Forgets the account with the address.
    pub fn remove(&mut self, address: &H160)
        ensures
            final(self)@ == old(self)@.remove(address@),
    {
        state_remove(self, address)
    }

    /// The addresses of the accounts, in some order.
    pub fn addresses(&self) -> (r: Vec<H160>)
        ensures
            lists(r@, self@.dom()),
    {
        state_addresses(self)
    }

    /// Forgets the accounts that are not touched.
    pub fn retain_touched(&mut self)
        ensures
            final(self)@ == touched_accounts(old(self)@),
    {
        state_retain_touched(self)
    }
}

} // verus!
