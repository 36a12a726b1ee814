use vstd::prelude::*;

use crate::primitives::{Address, Word};

verus! {

/// Whether two addresses are the same.
pub fn same_address(a: &Address, b: &Address) -> (r: bool)
    ensures
        r == (*a == *b),
{
    let mut i: usize = 0;
    while i < 20
        invariant
            0 <= i <= 20,
            forall|j: int| 0 <= j < i ==> a@[j] == b@[j],
        decreases 20 - i,
    {
        if a[i] != b[i] {
            return false;
        }
        i = i + 1;
    }
    assert(*a =~= *b);
    true
}

/// Whether two words are the same.
pub fn same_word(a: &Word, b: &Word) -> (r: bool)
    ensures
        r == (*a == *b),
{
    let mut i: usize = 0;
    while i < 32
        invariant
            0 <= i <= 32,
            forall|j: int| 0 <= j < i ==> a@[j] == b@[j],
        decreases 32 - i,
    {
        if a[i] != b[i] {
            return false;
        }
        i = i + 1;
    }
    assert(*a =~= *b);
    true
}

/// One storage cell of one account.
#[derive(Clone, Copy, Debug)]
pub struct SlotEntry {
    pub address: Address,
    pub slot: Word,
    pub value: Word,
}

/// Storage words keyed by account and slot.
pub struct SlotTable {
    entries: Vec<SlotEntry>,
    model: Ghost<Map<(Address, Word), Word>>,
}

impl View for SlotTable {
    type V = Map<(Address, Word), Word>;

    closed spec fn view(&self) -> Map<(Address, Word), Word> {
        self.model@
    }
}

impl SlotTable {
    /// Each key stands once in the entries, and the entries hold the map.
    pub closed spec fn wf(&self) -> bool {
        &&& forall|i: int|
            0 <= i < self.entries@.len() ==> #[trigger] self.model@.contains_key(
                (self.entries@[i].address, self.entries@[i].slot),
            ) && self.model@[(self.entries@[i].address, self.entries@[i].slot)]
                == self.entries@[i].value
        &&& forall|k: (Address, Word)|
            #[trigger] self.model@.contains_key(k) ==> exists|i: int|
                0 <= i < self.entries@.len() && self.entries@[i].address == k.0
                    && self.entries@[i].slot == k.1
        &&& forall|i: int, j: int|
            0 <= i < j < self.entries@.len() ==> !(self.entries@[i].address
                == self.entries@[j].address && self.entries@[i].slot == self.entries@[j].slot)
    }

    pub fn new() -> (r: SlotTable)
        ensures
            r.wf(),
            r@ == Map::<(Address, Word), Word>::empty(),
    {
        SlotTable { entries: Vec::new(), model: Ghost(Map::empty()) }
    }

    fn find(&self, address: &Address, slot: &Word) -> (r: Option<usize>)
        requires
            self.wf(),
        ensures
            r is None <==> !self@.contains_key((*address, *slot)),
            r matches Some(i) ==> i < self.entries@.len() && self.entries@[i as int].address
                == *address && self.entries@[i as int].slot == *slot,
    {
        let mut i: usize = 0;
        while i < self.entries.len()
            invariant
                self.wf(),
                0 <= i <= self.entries@.len(),
                forall|j: int|
                    0 <= j < i ==> !(self.entries@[j].address == *address && self.entries@[j].slot
                        == *slot),
            decreases self.entries@.len() - i,
        {
            let e = &self.entries[i];
            if same_address(&e.address, address) && same_word(&e.slot, slot) {
                return Some(i);
            }
            i = i + 1;
        }
        None
    }

    /// The word stored under the key, if any.
    pub fn get(&self, address: &Address, slot: &Word) -> (r: Option<Word>)
        requires
            self.wf(),
        ensures
            r == (if self@.contains_key((*address, *slot)) {
                Some(self@[(*address, *slot)])
            } else {
                None
            }),
    {
        match self.find(address, slot) {
            Some(i) => Some(self.entries[i].value),
            None => None,
        }
    }

    /// Every stored cell, each key once.
    pub fn entries(&self) -> (r: Vec<SlotEntry>)
        requires
            self.wf(),
        ensures
            forall|i: int|
                0 <= i < r@.len() ==> #[trigger] self@.contains_key((r@[i].address, r@[i].slot))
                    && self@[(r@[i].address, r@[i].slot)] == r@[i].value,
            forall|k: (Address, Word)|
                #[trigger] self@.contains_key(k) ==> exists|i: int|
                    0 <= i < r@.len() && r@[i].address == k.0 && r@[i].slot == k.1,
    {
        let mut out: Vec<SlotEntry> = Vec::new();
        let mut i: usize = 0;
        while i < self.entries.len()
            invariant
                self.wf(),
                0 <= i <= self.entries@.len(),
                out@ == self.entries@.subrange(0, i as int),
            decreases self.entries@.len() - i,
        {
            let e = self.entries[i];
            out.push(SlotEntry { address: e.address, slot: e.slot, value: e.value });
            assert(out@ =~= self.entries@.subrange(0, i + 1));
            i = i + 1;
        }
        assert(out@ =~= self.entries@);
        out
    }

    /// Stores `value` under the key, replacing what was there.
    pub fn insert(&mut self, address: Address, slot: Word, value: Word)
        requires
            old(self).wf(),
        ensures
            final(self).wf(),
            final(self)@ == old(self)@.insert((address, slot), value),
    {
        let ghost k = (address, slot);
        match self.find(&address, &slot) {
            Some(i) => {
                let ghost old_entries = self.entries@;
                self.entries.set(i, SlotEntry { address, slot, value });
                self.model = Ghost(self.model@.insert(k, value));
                assert forall|j: int| 0 <= j < self.entries@.len() implies #[trigger]
                    self.model@.contains_key((self.entries@[j].address, self.entries@[j].slot))
                        && self.model@[(self.entries@[j].address, self.entries@[j].slot)]
                        == self.entries@[j].value by {
                    if j != i {
                        assert(old_entries[j] == self.entries@[j]);
                        assert(!(old_entries[j].address == old_entries[i as int].address
                            && old_entries[j].slot == old_entries[i as int].slot));
                        assert(old(self).model@.contains_key((old_entries[j].address, old_entries[j].slot)));
                    }
                }
                assert forall|a: int, b: int| 0 <= a < b < self.entries@.len() implies !(
                    self.entries@[a].address == self.entries@[b].address
                        && self.entries@[a].slot == self.entries@[b].slot) by {
                    assert(!(old_entries[a].address == old_entries[b].address
                        && old_entries[a].slot == old_entries[b].slot));
                }
                assert forall|k2: (Address, Word)| #[trigger]
                    self.model@.contains_key(k2) implies exists|j: int|
                    0 <= j < self.entries@.len() && self.entries@[j].address == k2.0
                        && self.entries@[j].slot == k2.1 by {
                    if k2 == k {
                        assert(self.entries@[i as int].address == k2.0);
                    } else {
                        let j = choose|j: int|
                            0 <= j < old_entries.len() && old_entries[j].address == k2.0
                                && old_entries[j].slot == k2.1;
                        assert(self.entries@[j].address == k2.0);
                    }
                }
            },
            None => {
                let ghost old_entries = self.entries@;
                self.entries.push(SlotEntry { address, slot, value });
                self.model = Ghost(self.model@.insert(k, value));
                assert forall|j: int| 0 <= j < self.entries@.len() implies #[trigger]
                    self.model@.contains_key((self.entries@[j].address, self.entries@[j].slot))
                        && self.model@[(self.entries@[j].address, self.entries@[j].slot)]
                        == self.entries@[j].value by {
                    if j < old_entries.len() {
                        assert(old_entries[j] == self.entries@[j]);
                        assert(old(self).model@.contains_key((old_entries[j].address, old_entries[j].slot)));
                    }
                }
                assert forall|a: int, b: int| 0 <= a < b < self.entries@.len() implies !(
                    self.entries@[a].address == self.entries@[b].address
                        && self.entries@[a].slot == self.entries@[b].slot) by {
                    if b < old_entries.len() {
                        assert(!(old_entries[a].address == old_entries[b].address
                            && old_entries[a].slot == old_entries[b].slot));
                    } else {
                        assert(old(self).model@.contains_key((old_entries[a].address, old_entries[a].slot)));
                    }
                }
                assert forall|k2: (Address, Word)| #[trigger]
                    self.model@.contains_key(k2) implies exists|j: int|
                    0 <= j < self.entries@.len() && self.entries@[j].address == k2.0
                        && self.entries@[j].slot == k2.1 by {
                    if k2 == k {
                        let last = self.entries@.len() - 1;
                        assert(self.entries@[last].address == k2.0);
                    } else {
                        let j = choose|j: int|
                            0 <= j < old_entries.len() && old_entries[j].address == k2.0
                                && old_entries[j].slot == k2.1;
                        assert(self.entries@[j].address == k2.0);
                    }
                }
            },
        }
    }
}

/// What the cache keeps of one account.
#[derive(Clone, Debug)]
pub struct AccountRecord {
    pub balance: Word,
    pub nonce: u64,
    pub code: Option<Vec<u8>>,
    pub code_hash: Word,
}

/// The value of an account record.
pub struct AccountView {
    pub balance: Word,
    pub nonce: u64,
    pub code: Option<Seq<u8>>,
    pub code_hash: Word,
}

impl View for AccountRecord {
    type V = AccountView;

    open spec fn view(&self) -> AccountView {
        AccountView {
            balance: self.balance,
            nonce: self.nonce,
            code: match self.code {
                Some(c) => Some(c@),
                None => None,
            },
            code_hash: self.code_hash,
        }
    }
}

impl AccountRecord {
    /// A record with the same contents.
    pub fn duplicate(&self) -> (r: AccountRecord)
        ensures
            r@ == self@,
    {
        let code = match &self.code {
            Some(c) => {
                let d = c.clone();
                assert(d@ =~= c@);
                Some(d)
            },
            None => None,
        };
        AccountRecord { balance: self.balance, nonce: self.nonce, code, code_hash: self.code_hash }
    }
}

struct AccountEntry {
    address: Address,
    record: AccountRecord,
}

/// Account records keyed by address.
pub struct AccountTable {
    entries: Vec<AccountEntry>,
    model: Ghost<Map<Address, AccountView>>,
}

impl View for AccountTable {
    type V = Map<Address, AccountView>;

    closed spec fn view(&self) -> Map<Address, AccountView> {
        self.model@
    }
}

impl AccountTable {
    /// Each address stands once in the entries, and the entries hold the map.
    pub closed spec fn wf(&self) -> bool {
        &&& forall|i: int|
            0 <= i < self.entries@.len() ==> #[trigger] self.model@.contains_key(
                self.entries@[i].address,
            ) && self.model@[self.entries@[i].address] == self.entries@[i].record@
        &&& forall|k: Address|
            #[trigger] self.model@.contains_key(k) ==> exists|i: int|
                0 <= i < self.entries@.len() && self.entries@[i].address == k
        &&& forall|i: int, j: int|
            0 <= i < j < self.entries@.len() ==> self.entries@[i].address
                != self.entries@[j].address
    }

    pub fn new() -> (r: AccountTable)
        ensures
            r.wf(),
            r@ == Map::<Address, AccountView>::empty(),
    {
        AccountTable { entries: Vec::new(), model: Ghost(Map::empty()) }
    }

    fn find(&self, address: &Address) -> (r: Option<usize>)
        requires
            self.wf(),
        ensures
            r is None <==> !self@.contains_key(*address),
            r matches Some(i) ==> i < self.entries@.len() && self.entries@[i as int].address
                == *address,
    {
        let mut i: usize = 0;
        while i < self.entries.len()
            invariant
                self.wf(),
                0 <= i <= self.entries@.len(),
                forall|j: int| 0 <= j < i ==> self.entries@[j].address != *address,
            decreases self.entries@.len() - i,
        {
            if same_address(&self.entries[i].address, address) {
                return Some(i);
            }
            i = i + 1;
        }
        None
    }

    /// A copy of the record stored under the address, if any.
    pub fn get(&self, address: &Address) -> (r: Option<AccountRecord>)
        requires
            self.wf(),
        ensures
            r is Some <==> self@.contains_key(*address),
            r matches Some(rec) ==> rec@ == self@[*address],
    {
        match self.find(address) {
            Some(i) => Some(self.entries[i].record.duplicate()),
            None => None,
        }
    }

    /// Every stored account with a copy of its record, each address once.
    pub fn entries(&self) -> (r: Vec<(Address, AccountRecord)>)
        requires
            self.wf(),
        ensures
            forall|i: int|
                0 <= i < r@.len() ==> #[trigger] self@.contains_key(r@[i].0) && self@[r@[i].0]
                    == r@[i].1@,
            forall|k: Address|
                #[trigger] self@.contains_key(k) ==> exists|i: int| 0 <= i < r@.len() && r@[i].0 == k,
    {
        let mut out: Vec<(Address, AccountRecord)> = Vec::new();
        let mut i: usize = 0;
        while i < self.entries.len()
            invariant
                self.wf(),
                0 <= i <= self.entries@.len(),
                out@.len() == i,
                forall|j: int|
                    0 <= j < i ==> out@[j].0 == self.entries@[j].address && out@[j].1@
                        == self.entries@[j].record@,
            decreases self.entries@.len() - i,
        {
            let e = &self.entries[i];
            out.push((e.address, e.record.duplicate()));
            i = i + 1;
        }
        assert forall|k: Address| #[trigger] self@.contains_key(k) implies exists|j: int|
            0 <= j < out@.len() && out@[j].0 == k by {
            let j = choose|j: int| 0 <= j < self.entries@.len() && self.entries@[j].address == k;
            assert(out@[j].0 == k);
        }
        out
    }

    /// Stores `record` under the address, replacing what was there.
    pub fn insert(&mut self, address: Address, record: AccountRecord)
        requires
            old(self).wf(),
        ensures
            final(self).wf(),
            final(self)@ == old(self)@.insert(address, record@),
    {
        let ghost rv = record@;
        match self.find(&address) {
            Some(i) => {
                let ghost old_entries = self.entries@;
                self.entries.set(i, AccountEntry { address, record });
                self.model = Ghost(self.model@.insert(address, rv));
                assert forall|j: int| 0 <= j < self.entries@.len() implies #[trigger]
                    self.model@.contains_key(self.entries@[j].address)
                        && self.model@[self.entries@[j].address] == self.entries@[j].record@ by {
                    if j != i {
                        assert(old_entries[j] == self.entries@[j]);
                        assert(old_entries[j].address != old_entries[i as int].address);
                        assert(old(self).model@.contains_key(old_entries[j].address));
                    } else {
                        assert(self.entries@[j].address == address);
                        assert(self.entries@[j].record@ == rv);
                    }
                }
                assert forall|a: int, b: int| 0 <= a < b < self.entries@.len() implies
                    self.entries@[a].address != self.entries@[b].address by {
                    assert(old_entries[a].address != old_entries[b].address);
                }
                assert forall|k2: Address| #[trigger]
                    self.model@.contains_key(k2) implies exists|j: int|
                    0 <= j < self.entries@.len() && self.entries@[j].address == k2 by {
                    if k2 == address {
                        assert(self.entries@[i as int].address == k2);
                    } else {
                        let j = choose|j: int|
                            0 <= j < old_entries.len() && old_entries[j].address == k2;
                        assert(self.entries@[j].address == k2);
                    }
                }
            },
            None => {
                let ghost old_entries = self.entries@;
                self.entries.push(AccountEntry { address, record });
                self.model = Ghost(self.model@.insert(address, rv));
                assert forall|j: int| 0 <= j < self.entries@.len() implies #[trigger]
                    self.model@.contains_key(self.entries@[j].address)
                        && self.model@[self.entries@[j].address] == self.entries@[j].record@ by {
                    if j < old_entries.len() {
                        assert(old_entries[j] == self.entries@[j]);
                        assert(old(self).model@.contains_key(old_entries[j].address));
                    }
                }
                assert forall|a: int, b: int| 0 <= a < b < self.entries@.len() implies
                    self.entries@[a].address != self.entries@[b].address by {
                    if b < old_entries.len() {
                        assert(old_entries[a].address != old_entries[b].address);
                    } else {
                        assert(old(self).model@.contains_key(old_entries[a].address));
                    }
                }
                assert forall|k2: Address| #[trigger]
                    self.model@.contains_key(k2) implies exists|j: int|
                    0 <= j < self.entries@.len() && self.entries@[j].address == k2 by {
                    if k2 == address {
                        let last = self.entries@.len() - 1;
                        assert(self.entries@[last].address == k2);
                    } else {
                        let j = choose|j: int|
                            0 <= j < old_entries.len() && old_entries[j].address == k2;
                        assert(self.entries@[j].address == k2);
                    }
                }
            },
        }
    }
}

/// A read from the remote chain view failed; the key stays absent.
#[derive(Clone, Copy, Debug, PartialEq, Eq, Structural)]
pub enum HydrationError {
    FetchFailed,
}

/// The contents of an overlay cache: the override layer and the hydrated
/// layer, for accounts and for storage.
pub struct CacheView {
    pub account_overrides: Map<Address, AccountView>,
    pub hydrated_accounts: Map<Address, AccountView>,
    pub slot_overrides: Map<(Address, Word), Word>,
    pub hydrated_slots: Map<(Address, Word), Word>,
}

impl CacheView {
    /// The storage word the cache answers with: the override first, the
    /// hydrated word second; `None` is a miss.
    pub open spec fn slot(self, address: Address, slot: Word) -> Option<Word> {
        if self.slot_overrides.contains_key((address, slot)) {
            Some(self.slot_overrides[(address, slot)])
        } else if self.hydrated_slots.contains_key((address, slot)) {
            Some(self.hydrated_slots[(address, slot)])
        } else {
            None
        }
    }

    /// The account the cache answers with, in the same order.
    pub open spec fn account(self, address: Address) -> Option<AccountView> {
        if self.account_overrides.contains_key(address) {
            Some(self.account_overrides[address])
        } else if self.hydrated_accounts.contains_key(address) {
            Some(self.hydrated_accounts[address])
        } else {
            None
        }
    }

    /// After a fetched word is recorded for a key that missed; a key that
    /// the cache already answers for is left alone.
    pub open spec fn with_slot_hydrated(self, address: Address, slot: Word, value: Word) -> CacheView {
        if self.slot(address, slot) is Some {
            self
        } else {
            CacheView { hydrated_slots: self.hydrated_slots.insert((address, slot), value), ..self }
        }
    }

    /// After a fetched account is recorded for an address that missed.
    pub open spec fn with_account_hydrated(self, address: Address, record: AccountView) -> CacheView {
        if self.account(address) is Some {
            self
        } else {
            CacheView { hydrated_accounts: self.hydrated_accounts.insert(address, record), ..self }
        }
    }

    /// After a re-read of a key: the hydrated word is replaced, the override
    /// layer is not touched.
    pub open spec fn with_slot_refreshed(self, address: Address, slot: Word, value: Word) -> CacheView {
        CacheView { hydrated_slots: self.hydrated_slots.insert((address, slot), value), ..self }
    }

    /// After a series of re-reads, in order.
    pub open spec fn with_slots_refreshed(self, reads: Seq<(Address, Word, Word)>) -> CacheView
        decreases reads.len(),
    {
        if reads.len() == 0 {
            self
        } else {
            let r = reads.last();
            self.with_slots_refreshed(reads.drop_last()).with_slot_refreshed(r.0, r.1, r.2)
        }
    }

    /// After a series of hydrations, in order.
    pub open spec fn with_slots_hydrated(self, reads: Seq<(Address, Word, Word)>) -> CacheView
        decreases reads.len(),
    {
        if reads.len() == 0 {
            self
        } else {
            let r = reads.last();
            self.with_slots_hydrated(reads.drop_last()).with_slot_hydrated(r.0, r.1, r.2)
        }
    }
}

/// Two-layer state cache: overrides written by setup code, which always win,
/// over values read lazily from a remote chain view and kept.
pub struct OverlayCache {
    account_overrides: AccountTable,
    hydrated_accounts: AccountTable,
    slot_overrides: SlotTable,
    hydrated_slots: SlotTable,
}

impl View for OverlayCache {
    type V = CacheView;

    closed spec fn view(&self) -> CacheView {
        CacheView {
            account_overrides: self.account_overrides@,
            hydrated_accounts: self.hydrated_accounts@,
            slot_overrides: self.slot_overrides@,
            hydrated_slots: self.hydrated_slots@,
        }
    }
}

impl OverlayCache {
    pub closed spec fn wf(&self) -> bool {
        &&& self.account_overrides.wf()
        &&& self.hydrated_accounts.wf()
        &&& self.slot_overrides.wf()
        &&& self.hydrated_slots.wf()
    }

    /// An empty cache.
    pub fn new() -> (r: OverlayCache)
        ensures
            r.wf(),
            r@.account_overrides == Map::<Address, AccountView>::empty(),
            r@.hydrated_accounts == Map::<Address, AccountView>::empty(),
            r@.slot_overrides == Map::<(Address, Word), Word>::empty(),
            r@.hydrated_slots == Map::<(Address, Word), Word>::empty(),
    {
        OverlayCache {
            account_overrides: AccountTable::new(),
            hydrated_accounts: AccountTable::new(),
            slot_overrides: SlotTable::new(),
            hydrated_slots: SlotTable::new(),
        }
    }

    /// Installs an account that hydration never displaces.
    pub fn set_account_override(&mut self, address: Address, record: AccountRecord)
        requires
            old(self).wf(),
        ensures
            final(self).wf(),
            final(self)@ == (CacheView {
                account_overrides: old(self)@.account_overrides.insert(address, record@),
                ..old(self)@
            }),
    {
        self.account_overrides.insert(address, record);
    }

    /// Installs a storage word that hydration and refreshes never displace.
    pub fn set_slot_override(&mut self, address: Address, slot: Word, value: Word)
        requires
            old(self).wf(),
        ensures
            final(self).wf(),
            final(self)@ == (CacheView {
                slot_overrides: old(self)@.slot_overrides.insert((address, slot), value),
                ..old(self)@
            }),
    {
        self.slot_overrides.insert(address, slot, value);
    }

    /// The account as the cache knows it; `None` is a miss, to be fetched
    /// remotely and handed to `hydrate_account`.
    pub fn get_account(&self, address: &Address) -> (r: Option<AccountRecord>)
        requires
            self.wf(),
        ensures
            r is Some <==> self@.account(*address) is Some,
            r matches Some(rec) ==> self@.account(*address) == Some(rec@),
    {
        match self.account_overrides.get(address) {
            Some(rec) => Some(rec),
            None => self.hydrated_accounts.get(address),
        }
    }

    /// The storage word as the cache knows it; `None` is a miss, to be
    /// fetched remotely and handed to `hydrate_slot`.
    pub fn get_slot(&self, address: &Address, slot: &Word) -> (r: Option<Word>)
        requires
            self.wf(),
        ensures
            r == self@.slot(*address, *slot),
    {
        match self.slot_overrides.get(address, slot) {
            Some(w) => Some(w),
            None => self.hydrated_slots.get(address, slot),
        }
    }

    /// Every storage override, each key once.
    pub fn slot_override_entries(&self) -> (r: Vec<SlotEntry>)
        requires
            self.wf(),
        ensures
            forall|i: int|
                0 <= i < r@.len() ==> #[trigger] self@.slot_overrides.contains_key(
                    (r@[i].address, r@[i].slot),
                ) && self@.slot_overrides[(r@[i].address, r@[i].slot)] == r@[i].value,
            forall|k: (Address, Word)|
                #[trigger] self@.slot_overrides.contains_key(k) ==> exists|i: int|
                    0 <= i < r@.len() && r@[i].address == k.0 && r@[i].slot == k.1,
    {
        let r = self.slot_overrides.entries();
        assert forall|i: int| 0 <= i < r@.len() implies #[trigger] self@.slot_overrides.contains_key(
            (r@[i].address, r@[i].slot),
        ) && self@.slot_overrides[(r@[i].address, r@[i].slot)] == r@[i].value by {
            assert(self.slot_overrides@.contains_key((r@[i].address, r@[i].slot)));
        }
        r
    }

    /// Every account override with a copy of its record, each address once.
    pub fn account_override_entries(&self) -> (r: Vec<(Address, AccountRecord)>)
        requires
            self.wf(),
        ensures
            forall|i: int|
                0 <= i < r@.len() ==> #[trigger] self@.account_overrides.contains_key(r@[i].0)
                    && self@.account_overrides[r@[i].0] == r@[i].1@,
            forall|k: Address|
                #[trigger] self@.account_overrides.contains_key(k) ==> exists|i: int|
                    0 <= i < r@.len() && r@[i].0 == k,
    {
        let r = self.account_overrides.entries();
        assert forall|i: int| 0 <= i < r@.len() implies #[trigger]
            self@.account_overrides.contains_key(r@[i].0) && self@.account_overrides[r@[i].0]
                == r@[i].1@ by {
            assert(self.account_overrides@.contains_key(r@[i].0));
        }
        r
    }

    /// Every hydrated storage word, each key once.
    pub fn hydrated_slot_entries(&self) -> (r: Vec<SlotEntry>)
        requires
            self.wf(),
        ensures
            forall|i: int|
                0 <= i < r@.len() ==> #[trigger] self@.hydrated_slots.contains_key(
                    (r@[i].address, r@[i].slot),
                ) && self@.hydrated_slots[(r@[i].address, r@[i].slot)] == r@[i].value,
            forall|k: (Address, Word)|
                #[trigger] self@.hydrated_slots.contains_key(k) ==> exists|i: int|
                    0 <= i < r@.len() && r@[i].address == k.0 && r@[i].slot == k.1,
    {
        let r = self.hydrated_slots.entries();
        assert forall|i: int| 0 <= i < r@.len() implies #[trigger] self@.hydrated_slots.contains_key(
            (r@[i].address, r@[i].slot),
        ) && self@.hydrated_slots[(r@[i].address, r@[i].slot)] == r@[i].value by {
            assert(self.hydrated_slots@.contains_key((r@[i].address, r@[i].slot)));
        }
        r
    }

    /// Records the outcome of a remote read of an account that missed, and
    /// answers with what the cache now holds for it. A failed read changes
    /// nothing.
    pub fn hydrate_account(&mut self, address: Address, fetched: Result<AccountRecord, HydrationError>) -> (r:
        Result<AccountRecord, HydrationError>)
        requires
            old(self).wf(),
        ensures
            final(self).wf(),
            fetched matches Err(e) ==> r == Err::<AccountRecord, HydrationError>(e) && final(self)@
                == old(self)@,
            fetched matches Ok(rec) ==> final(self)@ == old(self)@.with_account_hydrated(
                address,
                rec@,
            ) && (r matches Ok(got) && final(self)@.account(address) == Some(got@)),
    {
        match fetched {
            Err(e) => Err(e),
            Ok(rec) => {
                match self.get_account(&address) {
                    Some(known) => Ok(known),
                    None => {
                        let answer = rec.duplicate();
                        self.hydrated_accounts.insert(address, rec);
                        Ok(answer)
                    },
                }
            },
        }
    }

    /// Records the outcome of a remote read of a storage word that missed,
    /// and answers with what the cache now holds for it. A failed read
    /// changes nothing.
    pub fn hydrate_slot(&mut self, address: Address, slot: Word, fetched: Result<Word, HydrationError>) -> (r:
        Result<Word, HydrationError>)
        requires
            old(self).wf(),
        ensures
            final(self).wf(),
            fetched matches Err(e) ==> r == Err::<Word, HydrationError>(e) && final(self)@
                == old(self)@,
            fetched matches Ok(w) ==> final(self)@ == old(self)@.with_slot_hydrated(address, slot, w)
                && final(self)@.slot(address, slot) == Some(r->Ok_0) && r is Ok,
    {
        match fetched {
            Err(e) => Err(e),
            Ok(w) => {
                match self.get_slot(&address, &slot) {
                    Some(known) => Ok(known),
                    None => {
                        self.hydrated_slots.insert(address, slot, w);
                        Ok(w)
                    },
                }
            },
        }
    }

    /// Replaces the hydrated word of a key with a fresh remote read, without
    /// touching any override. A failed read changes nothing.
    pub fn refresh_slot(&mut self, address: Address, slot: Word, fetched: Result<Word, HydrationError>) -> (r:
        Result<(), HydrationError>)
        requires
            old(self).wf(),
        ensures
            final(self).wf(),
            fetched matches Err(e) ==> r == Err::<(), HydrationError>(e) && final(self)@ == old(self)@,
            fetched matches Ok(w) ==> r is Ok && final(self)@ == old(self)@.with_slot_refreshed(
                address,
                slot,
                w,
            ),
    {
        match fetched {
            Err(e) => Err(e),
            Ok(w) => {
                self.hydrated_slots.insert(address, slot, w);
                Ok(())
            },
        }
    }
}

/// An override is answered whatever re-reads of any keys follow it.
pub proof fn lemma_override_survives_refreshes(
    v: CacheView,
    reads: Seq<(Address, Word, Word)>,
    address: Address,
    slot: Word,
)
    requires
        v.slot_overrides.contains_key((address, slot)),
    ensures
        v.with_slots_refreshed(reads).slot(address, slot) == Some(v.slot_overrides[(address, slot)]),
        v.with_slots_refreshed(reads).slot_overrides == v.slot_overrides,
    decreases reads.len(),
{
    if reads.len() > 0 {
        lemma_override_survives_refreshes(v, reads.drop_last(), address, slot);
    }
}

/// The first hydration of a key that missed is what the cache answers.
pub proof fn lemma_hydration_answers(v: CacheView, address: Address, slot: Word, value: Word)
    requires
        v.slot(address, slot) is None,
    ensures
        v.with_slot_hydrated(address, slot, value).slot(address, slot) == Some(value),
{
}

/// Once the cache answers for a key, later hydrations of any keys, with any
/// fetched values, leave that answer as it is: only a refresh replaces it.
pub proof fn lemma_hydrations_keep_answers(
    v: CacheView,
    reads: Seq<(Address, Word, Word)>,
    address: Address,
    slot: Word,
)
    requires
        v.slot(address, slot) is Some,
    ensures
        v.with_slots_hydrated(reads).slot(address, slot) == v.slot(address, slot),
    decreases reads.len(),
{
    if reads.len() > 0 {
        lemma_hydrations_keep_answers(v, reads.drop_last(), address, slot);
    }
}

} // verus!
