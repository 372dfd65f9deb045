//! The part of the state that a witness proves, under the hashes of its addresses and slots, and the
//! unhashed keys that lead into it.

use vstd::prelude::*;
use crate::b256_map;
use crate::b256_map::B256Map;
use crate::bytes;
use crate::bytes::{copy_bytes, same_bytes, Address, Bytes, B256};
use crate::hash;
use crate::hash::keccak256;
use crate::u256::U256;

verus! {

/// An account as the executed state holds it.
#[derive(Clone, Copy, Debug, PartialEq, Eq)]
pub struct AccountInfo {
    /// The nonce.
    pub nonce: u64,
    /// The balance.
    pub balance: U256,
    /// The hash of the code.
    pub code_hash: B256,
}

/// An account as the trie holds it.
#[derive(Clone, Copy, Debug, PartialEq, Eq)]
pub struct Account {
    /// The nonce.
    pub nonce: u64,
    /// The balance.
    pub balance: U256,
    /// The hash of the code, where there is code.
    pub bytecode_hash: Option<B256>,
}

/// An account that exists, with the storage that was touched.
#[derive(Debug)]
pub struct PlainAccount {
    /// The account itself.
    pub info: AccountInfo,
    /// The touched slots and what they hold.
    pub storage: Vec<(U256, U256)>,
}

/// An account that the execution touched.
#[derive(Debug)]
pub struct CacheAccount {
    /// Its address.
    pub address: Address,
    /// Whether it was destroyed at any point.
    pub was_destroyed: bool,
    /// The account, where it exists.
    pub account: Option<PlainAccount>,
}

/// The part of an account's storage that is to be proven, by hashed slot.
#[derive(Clone, Debug)]
pub struct HashedStorage {
    /// Whether the storage was wiped.
    pub wiped: bool,
    /// What each hashed slot holds.
    pub storage: B256Map<U256>,
}

/// A [`HashedStorage`], as a map.
pub struct StorageView {
    /// Whether the storage was wiped.
    pub wiped: bool,
    /// What each hashed slot holds.
    pub slots: Map<Seq<u8>, U256>,
}

impl View for HashedStorage {
    type V = StorageView;

    open spec fn view(&self) -> StorageView {
        StorageView { wiped: self.wiped, slots: b256_map::contents(self.storage) }
    }
}

/// The part of the state that is to be proven, by hashed address.
#[derive(Clone, Debug)]
pub struct HashedPostState {
    /// Each account, `None` where it does not exist.
    pub accounts: B256Map<Option<Account>>,
    /// The storage of each account.
    pub storages: B256Map<HashedStorage>,
}

/// A [`HashedPostState`], as maps.
#[verifier::ext_equal]
pub struct HashedView {
    /// Each account, `None` where it does not exist.
    pub accounts: Map<Seq<u8>, Option<Account>>,
    /// The storage of each account.
    pub storages: Map<Seq<u8>, StorageView>,
}

impl View for HashedPostState {
    type V = HashedView;

    open spec fn view(&self) -> HashedView {
        HashedView {
            accounts: b256_map::contents(self.accounts),
            storages: b256_map::contents(self.storages).map_values(|s: HashedStorage| s@),
        }
    }
}

impl HashedPostState {
    /// Nothing to be proven.
    pub fn empty() -> (r: HashedPostState)
        ensures
            r@.accounts == Map::<Seq<u8>, Option<Account>>::empty(),
            r@.storages == Map::<Seq<u8>, StorageView>::empty(),
    {
        let r = HashedPostState { accounts: b256_map::empty(), storages: b256_map::empty() };
        assert(r@.storages =~= Map::<Seq<u8>, StorageView>::empty());
        r
    }
}

/// The bytes of a number, `len` of them, most significant first.
pub open spec fn big_endian(n: nat, len: nat) -> Seq<u8>
    decreases len,
{
    if len == 0 {
        Seq::empty()
    } else {
        big_endian(n / 256, (len - 1) as nat).push((n % 256) as u8)
    }
}

/// The key of a storage slot, before hashing: its 32 bytes.
pub open spec fn slot_key(slot: U256) -> Seq<u8> {
    big_endian(slot@, 32)
}

/// `alloy_primitives::B256::from` a `U256`: the 32 bytes of a number, most significant first.
#[verifier::external_body]
pub(crate) fn slot_bytes(slot: &U256) -> (r: B256)
    ensures
        r@ == slot_key(*slot),
{
    alloy_primitives::B256::from(alloy_primitives::U256::from_limbs(slot.limbs)).0
}

/// The account that the trie holds for one that exists: the same, with no code hash where the code
/// is empty.
pub open spec fn trie_account(info: AccountInfo) -> Account {
    Account {
        nonce: info.nonce,
        balance: info.balance,
        bytecode_hash: if info.code_hash@ == hash::keccak256_of(Seq::<u8>::empty()) {
            None
        } else {
            Some(info.code_hash)
        },
    }
}

impl Account {
    /// The account that the trie holds for one that exists.
    pub fn from_info(info: &AccountInfo) -> (r: Account)
        ensures
            r == trie_account(*info),
            r.nonce == info.nonce,
            r.balance == info.balance,
            r.bytecode_hash is None <==> info.code_hash@ == hash::keccak256_of(Seq::<u8>::empty()),
            r.bytecode_hash is Some ==> r.bytecode_hash->0 == info.code_hash,
    {
        let nothing: Vec<u8> = Vec::new();
        let empty_code = keccak256(nothing.as_slice());
        assert(nothing@ =~= Seq::<u8>::empty());
        Account {
            nonce: info.nonce,
            balance: info.balance,
            bytecode_hash: if same_bytes(info.code_hash.as_slice(), empty_code.as_slice()) {
                None
            } else {
                Some(info.code_hash)
            },
        }
    }
}

/// The storage that an account touched, none where it does not exist.
pub open spec fn touched_storage(account: CacheAccount) -> Seq<(U256, U256)> {
    match account.account {
        Some(account) => account.storage@,
        None => Seq::empty(),
    }
}

/// Hashed slots with those of a list entered over them.
pub open spec fn with_slots(slots: Map<Seq<u8>, U256>, storage: Seq<(U256, U256)>) -> Map<
    Seq<u8>,
    U256,
>
    decreases storage.len(),
{
    if storage.len() == 0 {
        slots
    } else {
        with_slots(slots, storage.drop_last()).insert(
            hash::keccak256_of(slot_key(storage.last().0)),
            storage.last().1,
        )
    }
}

/// The storage that a hashed state holds for a touched account before its slots are entered: what
/// is there already, or else an empty one, marked as wiped where the account was destroyed.
pub open spec fn storage_before(h: HashedView, account: CacheAccount) -> StorageView {
    let key = hash::keccak256_of(account.address@);
    if h.storages.contains_key(key) {
        h.storages[key]
    } else {
        StorageView { wiped: account.was_destroyed, slots: Map::empty() }
    }
}

/// A hashed state with a touched account entered.
pub open spec fn with_account(h: HashedView, account: CacheAccount) -> HashedView {
    let key = hash::keccak256_of(account.address@);
    let storage = storage_before(h, account);
    HashedView {
        accounts: h.accounts.insert(
            key,
            match account.account {
                Some(account) => Some(trie_account(account.info)),
                None => None,
            },
        ),
        storages: h.storages.insert(
            key,
            StorageView {
                wiped: storage.wiped,
                slots: with_slots(storage.slots, touched_storage(account)),
            },
        ),
    }
}

/// A hashed state with touched accounts entered, in order.
pub open spec fn with_accounts(h: HashedView, accounts: Seq<CacheAccount>) -> HashedView
    decreases accounts.len(),
{
    if accounts.len() == 0 {
        h
    } else {
        with_account(with_accounts(h, accounts.drop_last()), accounts.last())
    }
}

/// The keys of a touched account that exists: its address, then its slots.
pub open spec fn account_keys(account: CacheAccount) -> Seq<Seq<u8>> {
    match account.account {
        Some(plain) => seq![account.address@] + plain.storage@.map_values(
            |entry: (U256, U256)| slot_key(entry.0),
        ),
        None => Seq::empty(),
    }
}

/// The keys of touched accounts, in order.
pub open spec fn all_keys(accounts: Seq<CacheAccount>) -> Seq<Seq<u8>>
    decreases accounts.len(),
{
    if accounts.len() == 0 {
        Seq::empty()
    } else {
        all_keys(accounts.drop_last()) + account_keys(accounts.last())
    }
}

/// Enters touched slots into hashed ones, and appends their keys to a list.
fn record_slots(slots: &mut B256Map<U256>, keys: &mut Vec<Bytes>, storage: &Vec<(U256, U256)>)
    ensures
        b256_map::contents(*final(slots)) == with_slots(
            b256_map::contents(*old(slots)),
            storage@,
        ),
        bytes::contents(final(keys)@) == bytes::contents(old(keys)@) + storage@.map_values(
            |entry: (U256, U256)| slot_key(entry.0),
        ),
{
    let ghost key_of = |entry: (U256, U256)| slot_key(entry.0);
    let mut i: usize = 0;
    assert(storage@.take(0) =~= Seq::<(U256, U256)>::empty());
    assert(bytes::contents(keys@) =~= bytes::contents(old(keys)@) + storage@.take(0).map_values(
        key_of,
    ));
    while i < storage.len()
        invariant
            i <= storage.len(),
            key_of == (|entry: (U256, U256)| slot_key(entry.0)),
            b256_map::contents(*slots) == with_slots(
                b256_map::contents(*old(slots)),
                storage@.take(i as int),
            ),
            bytes::contents(keys@) == bytes::contents(old(keys)@) + storage@.take(
                i as int,
            ).map_values(key_of),
        decreases storage.len() - i,
    {
        let ghost before = keys@;
        let (slot, value) = storage[i];
        let key = slot_bytes(&slot);
        let hashed_slot = keccak256(key.as_slice());
        b256_map::insert(slots, &hashed_slot, value);
        keys.push(copy_bytes(key.as_slice()));
        i += 1;
        proof {
            assert(storage@.take(i as int).drop_last() =~= storage@.take(i - 1));
            assert(bytes::contents(keys@) =~= bytes::contents(before).push(slot_key(slot)));
            assert(storage@.take(i as int).map_values(key_of) =~= storage@.take(i - 1).map_values(
                key_of,
            ).push(slot_key(slot)));
            assert(bytes::contents(keys@) =~= bytes::contents(old(keys)@) + storage@.take(
                i as int,
            ).map_values(key_of));
        }
    }
    assert(storage@.take(storage@.len() as int) =~= storage@);
}

/// Enters a touched account into a hashed state, and appends its keys to a list.
pub fn record_account(hashed: &mut HashedPostState, keys: &mut Vec<Bytes>, account: &CacheAccount)
    ensures
        final(hashed)@ == with_account(old(hashed)@, *account),
        ({
            let entered = final(hashed)@.accounts[hash::keccak256_of(account.address@)];
            &&& entered is Some <==> account.account is Some
            &&& entered is Some ==> entered->0.nonce == account.account->0.info.nonce
            &&& entered is Some ==> entered->0.balance == account.account->0.info.balance
        }),
        bytes::contents(final(keys)@) == bytes::contents(old(keys)@) + account_keys(*account),
{
    let hashed_address = keccak256(account.address.as_slice());
    let ghost key = hashed_address@;
    let info = match &account.account {
        Some(plain) => Some(Account::from_info(&plain.info)),
        None => None,
    };
    b256_map::insert(&mut hashed.accounts, &hashed_address, info);
    let absent = HashedStorage { wiped: account.was_destroyed, storage: b256_map::empty() };
    let storage = b256_map::entry(&mut hashed.storages, &hashed_address, absent);
    assert(storage@ == storage_before(old(hashed)@, *account));
    match &account.account {
        Some(plain) => {
            let ghost before = keys@;
            keys.push(copy_bytes(account.address.as_slice()));
            assert(bytes::contents(keys@) =~= bytes::contents(before).push(account.address@));
            record_slots(&mut storage.storage, keys, &plain.storage);
            assert(bytes::contents(keys@) =~= bytes::contents(before) + account_keys(*account));
        },
        None => {
            assert(bytes::contents(keys@) =~= bytes::contents(old(keys)@) + account_keys(
                *account,
            ));
        },
    }
    let ghost after = storage@;
    proof {
        assert(hashed@.storages =~= old(hashed)@.storages.insert(key, after));
        assert(hashed@ =~= with_account(old(hashed)@, *account));
    }
}

/// The hashed state of nothing.
pub open spec fn nothing_hashed() -> HashedView {
    HashedView { accounts: Map::empty(), storages: Map::empty() }
}

/// How many keys touched accounts come to: one for each that exists, and one for each of its slots.
pub open spec fn key_count(accounts: Seq<CacheAccount>) -> nat
    decreases accounts.len(),
{
    if accounts.len() == 0 {
        0
    } else {
        key_count(accounts.drop_last()) + match accounts.last().account {
            Some(account) => 1 + account.storage@.len(),
            None => 0,
        }
    }
}

/// A record holds one key for each account that exists and one for each slot it touched.
pub proof fn keys_are_counted(accounts: Seq<CacheAccount>)
    ensures
        all_keys(accounts).len() == key_count(accounts),
    decreases accounts.len(),
{
    if accounts.len() > 0 {
        keys_are_counted(accounts.drop_last());
    }
}

/// Slots stay when others are entered, and those entered are there.
proof fn lemma_slots_stay(slots: Map<Seq<u8>, U256>, storage: Seq<(U256, U256)>)
    ensures
        forall|k: Seq<u8>| slots.contains_key(k) ==> #[trigger] with_slots(slots, storage).contains_key(k),
        forall|i: int|
            0 <= i < storage.len() ==> with_slots(slots, storage).contains_key(
                hash::keccak256_of(slot_key((#[trigger] storage[i]).0)),
            ),
    decreases storage.len(),
{
    if storage.len() > 0 {
        lemma_slots_stay(slots, storage.drop_last());
        assert forall|k: Seq<u8>| slots.contains_key(k) implies #[trigger] with_slots(
            slots,
            storage,
        ).contains_key(k) by {
            assert(with_slots(slots, storage.drop_last()).contains_key(k));
        }
        assert forall|i: int| 0 <= i < storage.len() implies with_slots(slots, storage).contains_key(
            hash::keccak256_of(slot_key((#[trigger] storage[i]).0)),
        ) by {
            if i < storage.len() - 1 {
                assert(storage.drop_last()[i] == storage[i]);
            }
        }
    }
}

/// Whether a hashed state holds a touched account and, where it exists, each of its slots.
pub open spec fn covers(h: HashedView, account: CacheAccount) -> bool {
    let key = hash::keccak256_of(account.address@);
    &&& h.accounts.contains_key(key)
    &&& h.storages.contains_key(key)
    &&& forall|i: int|
        0 <= i < touched_storage(account).len() ==> h.storages[key].slots.contains_key(
            hash::keccak256_of(slot_key((#[trigger] touched_storage(account)[i]).0)),
        )
}

/// Every key of a record can be found in its hashed state: each touched account stands under the
/// hash of its address, and each touched slot under its own hash within that account.
pub proof fn keys_lead_into_the_state(h: HashedView, accounts: Seq<CacheAccount>)
    ensures
        forall|i: int|
            0 <= i < accounts.len() ==> covers(with_accounts(h, accounts), #[trigger] accounts[i]),
    decreases accounts.len(),
{
    if accounts.len() > 0 {
        let before = with_accounts(h, accounts.drop_last());
        let last = accounts.last();
        keys_lead_into_the_state(h, accounts.drop_last());
        lemma_slots_stay(storage_before(before, last).slots, touched_storage(last));
        assert forall|i: int| 0 <= i < accounts.len() implies covers(
            with_accounts(h, accounts),
            #[trigger] accounts[i],
        ) by {
            if i < accounts.len() - 1 {
                assert(accounts.drop_last()[i] == accounts[i]);
                assert(covers(before, accounts[i]));
            }
        }
    }
}

/// What a hashed state holds under the hash of an address that no other touched account shares:
/// that account, and its own slots alone.
pub proof fn each_account_is_recorded(accounts: Seq<CacheAccount>, i: int)
    requires
        0 <= i < accounts.len(),
        forall|j: int|
            0 <= j < accounts.len() && j != i ==> hash::keccak256_of(
                (#[trigger] accounts[j]).address@,
            ) != hash::keccak256_of(accounts[i].address@),
    ensures
        ({
            let h = with_accounts(nothing_hashed(), accounts);
            let key = hash::keccak256_of(accounts[i].address@);
            &&& h.accounts[key] == (match accounts[i].account {
                Some(account) => Some(trie_account(account.info)),
                None => None,
            })
            &&& h.storages[key] == (StorageView {
                wiped: accounts[i].was_destroyed,
                slots: with_slots(Map::empty(), touched_storage(accounts[i])),
            })
        }),
    decreases accounts.len(),
{
    let shorter = accounts.drop_last();
    if i < accounts.len() - 1 {
        assert(shorter[i] == accounts[i]);
        assert forall|j: int| 0 <= j < shorter.len() && j != i implies hash::keccak256_of(
            (#[trigger] shorter[j]).address@,
        ) != hash::keccak256_of(shorter[i].address@) by {
            assert(shorter[j] == accounts[j]);
        }
        each_account_is_recorded(shorter, i);
    } else {
        only_touched_accounts_are_recorded(shorter);
        let key = hash::keccak256_of(accounts[i].address@);
        if with_accounts(nothing_hashed(), shorter).storages.contains_key(key) {
            let j = choose|j: int|
                0 <= j < shorter.len() && hash::keccak256_of((#[trigger] shorter[j]).address@)
                    == key;
            assert(shorter[j] == accounts[j]);
        }
    }
}

/// A hashed state holds nothing but the accounts that were touched.
pub proof fn only_touched_accounts_are_recorded(accounts: Seq<CacheAccount>)
    ensures
        ({
            let h = with_accounts(nothing_hashed(), accounts);
            forall|key: Seq<u8>|
                #![trigger h.accounts.contains_key(key)]
                #![trigger h.storages.contains_key(key)]
                h.accounts.contains_key(key) || h.storages.contains_key(key) ==> exists|j: int|
                    0 <= j < accounts.len() && hash::keccak256_of((#[trigger] accounts[j]).address@)
                        == key
        }),
    decreases accounts.len(),
{
    if accounts.len() > 0 {
        let shorter = accounts.drop_last();
        only_touched_accounts_are_recorded(shorter);
        let before = with_accounts(nothing_hashed(), shorter);
        let h = with_accounts(nothing_hashed(), accounts);
        assert forall|key: Seq<u8>|
            #![trigger h.accounts.contains_key(key)]
            #![trigger h.storages.contains_key(key)]
            h.accounts.contains_key(key) || h.storages.contains_key(key) implies exists|j: int|
            0 <= j < accounts.len() && hash::keccak256_of((#[trigger] accounts[j]).address@)
                == key by {
            if hash::keccak256_of(accounts.last().address@) == key {
                assert(accounts[accounts.len() - 1] == accounts.last());
            } else {
                assert(before.accounts.contains_key(key) || before.storages.contains_key(key));
                let j = choose|j: int|
                    0 <= j < shorter.len() && hash::keccak256_of((#[trigger] shorter[j]).address@)
                        == key;
                assert(shorter[j] == accounts[j]);
            }
        }
    }
}

/// Whatever its code hash, an account keeps its nonce and its balance; its code hash is left out
/// exactly where it is that of no code, and is kept as it is everywhere else.
pub proof fn accounts_keep_nonce_and_balance(info: AccountInfo)
    ensures
        trie_account(info).nonce == info.nonce,
        trie_account(info).balance == info.balance,
        trie_account(info).bytecode_hash is None <==> info.code_hash@ == hash::keccak256_of(
            Seq::<u8>::empty(),
        ),
        trie_account(info).bytecode_hash is Some ==> trie_account(info).bytecode_hash->0
            == info.code_hash,
{
}

/// Under the hash of an address stands what the last touched account of that hash holds: its nonce,
/// its balance, and its code hash where it has code; nothing where it does not exist.
pub proof fn the_last_of_an_account_is_recorded(
    h: HashedView,
    accounts: Seq<CacheAccount>,
    i: int,
)
    requires
        0 <= i < accounts.len(),
        forall|j: int|
            i < j < accounts.len() ==> hash::keccak256_of((#[trigger] accounts[j]).address@)
                != hash::keccak256_of(accounts[i].address@),
    ensures
        ({
            let key = hash::keccak256_of(accounts[i].address@);
            let recorded = with_accounts(h, accounts).accounts;
            &&& recorded.contains_key(key)
            &&& accounts[i].account is None ==> recorded[key] is None
            &&& accounts[i].account is Some ==> {
                let info = accounts[i].account->0.info;
                &&& recorded[key] is Some
                &&& recorded[key]->0.nonce == info.nonce
                &&& recorded[key]->0.balance == info.balance
                &&& recorded[key]->0.bytecode_hash is None <==> info.code_hash@
                    == hash::keccak256_of(Seq::<u8>::empty())
                &&& recorded[key]->0.bytecode_hash is Some
                    ==> recorded[key]->0.bytecode_hash->0 == info.code_hash
            }
        }),
    decreases accounts.len(),
{
    let shorter = accounts.drop_last();
    if i < accounts.len() - 1 {
        assert(shorter[i] == accounts[i]);
        assert forall|j: int| i < j < shorter.len() implies hash::keccak256_of(
            (#[trigger] shorter[j]).address@,
        ) != hash::keccak256_of(shorter[i].address@) by {
            assert(shorter[j] == accounts[j]);
        }
        the_last_of_an_account_is_recorded(h, shorter, i);
        assert(accounts[accounts.len() - 1] == accounts.last());
    }
}

/// Entering an account changes what stands under the hash of its address and nothing else. A storage
/// that is there already stays wiped or not as it was; a new one is wiped where the account was
/// destroyed. An account that does not exist adds no slots.
pub proof fn an_account_is_entered_under_its_hash(h: HashedView, account: CacheAccount)
    ensures
        ({
            let key = hash::keccak256_of(account.address@);
            let after = with_account(h, account);
            let known = h.storages.contains_key(key);
            let slots = if known {
                h.storages[key].slots
            } else {
                Map::<Seq<u8>, U256>::empty()
            };
            &&& after.accounts.dom() == h.accounts.dom().insert(key)
            &&& after.storages.dom() == h.storages.dom().insert(key)
            &&& forall|other: Seq<u8>|
                other != key ==> (#[trigger] after.accounts[other]) == h.accounts[other]
            &&& forall|other: Seq<u8>|
                other != key ==> (#[trigger] after.storages[other]) == h.storages[other]
            &&& known ==> after.storages[key].wiped == h.storages[key].wiped
            &&& !known ==> after.storages[key].wiped == account.was_destroyed
            &&& account.account is None ==> after.storages[key].slots == slots
            &&& account.account is Some ==> after.storages[key].slots == with_slots(
                slots,
                account.account->0.storage@,
            )
        }),
{
    let key = hash::keccak256_of(account.address@);
    let after = with_account(h, account);
    assert(after.accounts.dom() =~= h.accounts.dom().insert(key));
    assert(after.storages.dom() =~= h.storages.dom().insert(key));
}

/// Accounts are entered one after another, in their order.
pub proof fn accounts_are_entered_in_order(
    h: HashedView,
    accounts: Seq<CacheAccount>,
    account: CacheAccount,
)
    ensures
        with_accounts(h, Seq::empty()) == h,
        with_accounts(h, accounts.push(account)) == with_account(
            with_accounts(h, accounts),
            account,
        ),
{
    assert(accounts.push(account).drop_last() =~= accounts);
}

/// Under the hash of a slot stands the value of the last touched slot of that hash.
pub proof fn slots_hold_their_last_value(
    slots: Map<Seq<u8>, U256>,
    storage: Seq<(U256, U256)>,
    i: int,
)
    requires
        0 <= i < storage.len(),
        forall|j: int|
            i < j < storage.len() ==> hash::keccak256_of(slot_key((#[trigger] storage[j]).0))
                != hash::keccak256_of(slot_key(storage[i].0)),
    ensures
        with_slots(slots, storage).contains_key(hash::keccak256_of(slot_key(storage[i].0))),
        with_slots(slots, storage)[hash::keccak256_of(slot_key(storage[i].0))] == storage[i].1,
    decreases storage.len(),
{
    let shorter = storage.drop_last();
    if i < storage.len() - 1 {
        assert(shorter[i] == storage[i]);
        assert forall|j: int| i < j < shorter.len() implies hash::keccak256_of(
            slot_key((#[trigger] shorter[j]).0),
        ) != hash::keccak256_of(slot_key(shorter[i].0)) by {
            assert(shorter[j] == storage[j]);
        }
        slots_hold_their_last_value(slots, shorter, i);
        assert(storage[storage.len() - 1] == storage.last());
    }
}

/// What stands under any other hash stays: the slots of an account are its own.
pub proof fn untouched_slots_stay(
    slots: Map<Seq<u8>, U256>,
    storage: Seq<(U256, U256)>,
    key: Seq<u8>,
)
    requires
        forall|j: int|
            0 <= j < storage.len() ==> hash::keccak256_of(slot_key((#[trigger] storage[j]).0))
                != key,
    ensures
        with_slots(slots, storage).contains_key(key) <==> slots.contains_key(key),
        with_slots(slots, storage)[key] == slots[key],
    decreases storage.len(),
{
    if storage.len() > 0 {
        let shorter = storage.drop_last();
        assert forall|j: int| 0 <= j < shorter.len() implies hash::keccak256_of(
            slot_key((#[trigger] shorter[j]).0),
        ) != key by {
            assert(shorter[j] == storage[j]);
        }
        untouched_slots_stay(slots, shorter, key);
        assert(storage[storage.len() - 1] == storage.last());
    }
}

/// The keys of an account that exists are its address and then each of its slots, in order; one that
/// does not exist has none.
pub proof fn keys_are_the_address_and_the_slots(account: CacheAccount)
    ensures
        account.account is None ==> account_keys(account).len() == 0,
        account.account is Some ==> {
            let storage = account.account->0.storage@;
            &&& account_keys(account).len() == storage.len() + 1
            &&& account_keys(account)[0] == account.address@
            &&& forall|i: int|
                0 <= i < storage.len() ==> (#[trigger] account_keys(account)[i + 1]) == slot_key(
                    storage[i].0,
                )
        },
{
}

/// The keys of accounts come one account after another, in their order.
pub proof fn keys_come_in_the_order_of_the_accounts(
    accounts: Seq<CacheAccount>,
    account: CacheAccount,
)
    ensures
        all_keys(Seq::<CacheAccount>::empty()).len() == 0,
        all_keys(accounts.push(account)) == all_keys(accounts) + account_keys(account),
{
    assert(accounts.push(account).drop_last() =~= accounts);
}

/// The key of a slot is 32 bytes, the most significant first: each is the digit at its place of the
/// slot's number in base 256.
pub proof fn slot_keys_are_big_endian(slot: U256, i: int)
    requires
        0 <= i < 32,
    ensures
        slot_key(slot).len() == 32,
        slot_key(slot)[i] as int == (slot@ as int / vstd::arithmetic::power::pow(256, (31 - i) as nat)) % 256,
{
    lemma_big_endian_digit(slot@, 32, i);
}

/// Each byte of a number is the digit at its place in base 256.
proof fn lemma_big_endian_digit(n: nat, len: nat, i: int)
    requires
        0 <= i < len,
    ensures
        big_endian(n, len).len() == len,
        big_endian(n, len)[i] as int == (n as int / vstd::arithmetic::power::pow(256, (len - 1 - i) as nat)) % 256,
    decreases len,
{
    let upper = big_endian(n / 256, (len - 1) as nat);
    lemma_big_endian_len(n / 256, (len - 1) as nat);
    if i < len - 1 {
        lemma_big_endian_digit(n / 256, (len - 1) as nat, i);
        let e = (len - 2 - i) as nat;
        vstd::arithmetic::power::lemma_pow_positive(256, e);
        vstd::arithmetic::div_mod::lemma_div_denominator(n as int, 256, vstd::arithmetic::power::pow(256, e));
        assert(vstd::arithmetic::power::pow(256, e + 1) == 256 * vstd::arithmetic::power::pow(256, e)) by {
            reveal(vstd::arithmetic::power::pow);
        }
        assert(big_endian(n, len)[i] == upper[i]);
    } else {
        assert(vstd::arithmetic::power::pow(256, 0) == 1) by {
            reveal(vstd::arithmetic::power::pow);
        }
        assert(big_endian(n, len)[i] == (n % 256) as u8);
    }
}

/// A number takes as many bytes as are asked for.
proof fn lemma_big_endian_len(n: nat, len: nat)
    ensures
        big_endian(n, len).len() == len,
    decreases len,
{
    if len > 0 {
        lemma_big_endian_len(n / 256, (len - 1) as nat);
    }
}

/// What a hashed state is seen as is what its maps hold: each account as it is, and each storage with
/// its mark and its slots.
pub proof fn a_hashed_state_is_seen_as_it_is(state: HashedPostState, key: Seq<u8>)
    ensures
        state@.accounts.contains_key(key) <==> b256_map::contents(state.accounts).contains_key(key),
        state@.accounts.contains_key(key) ==> state@.accounts[key] == b256_map::contents(
            state.accounts,
        )[key],
        state@.storages.contains_key(key) <==> b256_map::contents(state.storages).contains_key(key),
        state@.storages.contains_key(key) ==> {
            let storage = b256_map::contents(state.storages)[key];
            &&& state@.storages[key].wiped == storage.wiped
            &&& state@.storages[key].slots == b256_map::contents(storage.storage)
        },
{
}

} // verus!
