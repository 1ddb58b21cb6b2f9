use vstd::prelude::*;
use crate::error::Error;
use crate::hash::{ShortAddress, H256};

verus! {

/// The account id of the native asset's token account.
pub const CKB_SUDT_ACCOUNT_ID: u32 = 1;

/// What the account view holds: account ids by script hash, script hashes and
/// nonces by id, token balances by token account id and owner, and the number
/// of accounts. A balance that was never written is zero.
pub struct StateModel {
    pub ids: Map<H256, u32>,
    pub script_hashes: Map<u32, H256>,
    pub nonces: Map<u32, u32>,
    pub balances: Map<(u32, ShortAddress), u128>,
    pub count: u32,
}

/// Whether `r` is the result, and `after` the state, that `outcome` describes.
pub open spec fn follows(r: Result<(), Error>, after: StateModel, outcome: Result<StateModel, Error>) -> bool {
    match outcome {
        Ok(m) => r is Ok && after == m,
        Err(e) => r == Err::<(), Error>(e),
    }
}

impl StateModel {
    /// Whether the view holds no key at all.
    pub open spec fn is_empty(self) -> bool {
        &&& self.ids.dom().is_empty()
        &&& self.script_hashes.dom().is_empty()
        &&& self.nonces.dom().is_empty()
        &&& self.balances.dom().is_empty()
    }

    pub open spec fn balance(self, sudt_id: u32, owner: ShortAddress) -> u128 {
        if self.balances.contains_key((sudt_id, owner)) {
            self.balances[(sudt_id, owner)]
        } else {
            0
        }
    }

    /// Creating an account gives it the next id and nonce zero.
    pub open spec fn create_account(self, h: H256) -> Result<StateModel, Error> {
        if self.count == u32::MAX {
            Err(Error::AccountCountOverflow)
        } else {
            Ok(
                StateModel {
                    ids: self.ids.insert(h, self.count),
                    script_hashes: self.script_hashes.insert(self.count, h),
                    nonces: self.nonces.insert(self.count, 0),
                    count: (self.count + 1) as u32,
                    ..self
                },
            )
        }
    }

    pub open spec fn mint(self, sudt_id: u32, owner: ShortAddress, amount: u128) -> Result<StateModel, Error> {
        if self.balance(sudt_id, owner) + amount > u128::MAX {
            Err(Error::AmountOverflow)
        } else {
            Ok(
                StateModel {
                    balances: self.balances.insert(
                        (sudt_id, owner),
                        (self.balance(sudt_id, owner) + amount) as u128,
                    ),
                    ..self
                },
            )
        }
    }

    pub open spec fn burn(self, sudt_id: u32, owner: ShortAddress, amount: u128) -> Result<StateModel, Error> {
        if self.balance(sudt_id, owner) < amount {
            Err(Error::InsufficientBalance)
        } else {
            Ok(
                StateModel {
                    balances: self.balances.insert(
                        (sudt_id, owner),
                        (self.balance(sudt_id, owner) - amount) as u128,
                    ),
                    ..self
                },
            )
        }
    }

    pub open spec fn set_nonce(self, id: u32, nonce: u32) -> Result<StateModel, Error> {
        if self.nonces.contains_key(id) {
            Ok(StateModel { nonces: self.nonces.insert(id, nonce), ..self })
        } else {
            Err(Error::MissingKey)
        }
    }
}

/// The map that a journal of writes leaves: the last write of each key wins.
pub open spec fn journal_map<K, V>(s: Seq<(K, V)>) -> Map<K, V>
    decreases s.len(),
{
    if s.len() == 0 {
        Map::empty()
    } else {
        journal_map(s.drop_last()).insert(s.last().0, s.last().1)
    }
}

proof fn lemma_journal_latest<K, V>(s: Seq<(K, V)>, i: int)
    requires
        0 <= i < s.len(),
        forall|j: int| i < j < s.len() ==> s[j].0 != s[i].0,
    ensures
        journal_map(s).contains_key(s[i].0),
        journal_map(s)[s[i].0] == s[i].1,
    decreases s.len(),
{
    if i < s.len() - 1 {
        lemma_journal_latest(s.drop_last(), i);
    }
}

proof fn lemma_journal_absent<K, V>(s: Seq<(K, V)>, k: K)
    requires
        forall|j: int| 0 <= j < s.len() ==> s[j].0 != k,
    ensures
        !journal_map(s).contains_key(k),
    decreases s.len(),
{
    if s.len() > 0 {
        lemma_journal_absent(s.drop_last(), k);
    }
}

proof fn lemma_journal_push<K, V>(s: Seq<(K, V)>, k: K, v: V)
    ensures
        journal_map(s.push((k, v))) == journal_map(s).insert(k, v),
{
    assert(s.push((k, v)).drop_last() =~= s);
}

/// The accounts that a block touches, as the block's proof gives them, with the
/// writes that validation makes to them. Writes are journaled: a later write to a
/// key shadows the earlier ones.
pub struct AccountState {
    id_journal: Vec<(H256, u32)>,
    hash_journal: Vec<(u32, H256)>,
    nonce_journal: Vec<(u32, u32)>,
    balance_journal: Vec<((u32, ShortAddress), u128)>,
    count: u32,
}

impl View for AccountState {
    type V = StateModel;

    closed spec fn view(&self) -> StateModel {
        StateModel {
            ids: journal_map(self.id_journal@),
            script_hashes: journal_map(self.hash_journal@),
            nonces: journal_map(self.nonce_journal@),
            balances: journal_map(self.balance_journal@),
            count: self.count,
        }
    }
}

impl AccountState {
    /// A view of a tree with `count` accounts of which none is loaded yet.
    pub fn new(count: u32) -> (r: AccountState)
        ensures
            r@.ids == Map::<H256, u32>::empty(),
            r@.script_hashes == Map::<u32, H256>::empty(),
            r@.nonces == Map::<u32, u32>::empty(),
            r@.balances == Map::<(u32, ShortAddress), u128>::empty(),
            r@.count == count,
    {
        AccountState {
            id_journal: Vec::new(),
            hash_journal: Vec::new(),
            nonce_journal: Vec::new(),
            balance_journal: Vec::new(),
            count,
        }
    }

    /// The number of accounts.
    pub fn count(&self) -> (r: u32)
        ensures
            r == self@.count,
    {
        self.count
    }

    /// The writes of account ids by script hash, oldest first.
    pub fn id_entries(&self) -> (r: &Vec<(H256, u32)>)
        ensures
            journal_map(r@) == self@.ids,
    {
        &self.id_journal
    }

    /// The writes of script hashes by account id, oldest first.
    pub fn script_hash_entries(&self) -> (r: &Vec<(u32, H256)>)
        ensures
            journal_map(r@) == self@.script_hashes,
    {
        &self.hash_journal
    }

    /// The writes of nonces by account id, oldest first.
    pub fn nonce_entries(&self) -> (r: &Vec<(u32, u32)>)
        ensures
            journal_map(r@) == self@.nonces,
    {
        &self.nonce_journal
    }

    /// The writes of balances by token account id and owner, oldest first.
    pub fn balance_entries(&self) -> (r: &Vec<((u32, ShortAddress), u128)>)
        ensures
            journal_map(r@) == self@.balances,
    {
        &self.balance_journal
    }

    /// Whether nothing was loaded or written.
    pub fn is_empty(&self) -> (r: bool)
        ensures
            r == self@.is_empty(),
    {
        proof {
            if self.id_journal@.len() == 0 {
                assert(self@.ids =~= Map::empty());
            }
            if self.hash_journal@.len() == 0 {
                assert(self@.script_hashes =~= Map::empty());
            }
            if self.nonce_journal@.len() == 0 {
                assert(self@.nonces =~= Map::empty());
            }
            if self.balance_journal@.len() == 0 {
                assert(self@.balances =~= Map::empty());
            }
            if self.id_journal@.len() > 0 {
                assert(self@.ids.dom().contains(self.id_journal@.last().0));
            }
            if self.hash_journal@.len() > 0 {
                assert(self@.script_hashes.dom().contains(self.hash_journal@.last().0));
            }
            if self.nonce_journal@.len() > 0 {
                assert(self@.nonces.dom().contains(self.nonce_journal@.last().0));
            }
            if self.balance_journal@.len() > 0 {
                assert(self@.balances.dom().contains(self.balance_journal@.last().0));
            }
        }
        self.id_journal.len() == 0 && self.hash_journal.len() == 0 && self.nonce_journal.len() == 0
            && self.balance_journal.len() == 0
    }

    /// Loads an account of the proof: its id, script hash and nonce.
    pub fn load_account(&mut self, id: u32, script_hash: H256, nonce: u32)
        ensures
            final(self)@ == (StateModel {
                ids: old(self)@.ids.insert(script_hash, id),
                script_hashes: old(self)@.script_hashes.insert(id, script_hash),
                nonces: old(self)@.nonces.insert(id, nonce),
                ..old(self)@
            }),
    {
        proof {
            lemma_journal_push(self.id_journal@, script_hash, id);
            lemma_journal_push(self.hash_journal@, id, script_hash);
            lemma_journal_push(self.nonce_journal@, id, nonce);
        }
        self.id_journal.push((script_hash, id));
        self.hash_journal.push((id, script_hash));
        self.nonce_journal.push((id, nonce));
    }

    /// Loads a balance of the proof.
    pub fn load_balance(&mut self, sudt_id: u32, owner: ShortAddress, amount: u128)
        ensures
            final(self)@ == (StateModel {
                balances: old(self)@.balances.insert((sudt_id, owner), amount),
                ..old(self)@
            }),
    {
        proof {
            lemma_journal_push(self.balance_journal@, (sudt_id, owner), amount);
        }
        self.balance_journal.push(((sudt_id, owner), amount));
    }

    pub fn get_account_id_by_script_hash(&self, h: &H256) -> (r: Option<u32>)
        ensures
            r == (if self@.ids.contains_key(*h) {
                Some(self@.ids[*h])
            } else {
                None::<u32>
            }),
    {
        let s = &self.id_journal;
        let mut i: usize = s.len();
        while i > 0
            invariant
                s@ == self.id_journal@,
                i <= s@.len(),
                forall|j: int| i <= j < s@.len() ==> s@[j].0 != *h,
            decreases i,
        {
            i = i - 1;
            if s[i].0 == *h {
                proof {
                    lemma_journal_latest(s@, i as int);
                }
                return Some(s[i].1);
            }
        }
        proof {
            lemma_journal_absent(s@, *h);
        }
        None
    }

    pub fn get_script_hash(&self, id: u32) -> (r: Result<H256, Error>)
        ensures
            r == (if self@.script_hashes.contains_key(id) {
                Ok(self@.script_hashes[id])
            } else {
                Err::<H256, Error>(Error::MissingKey)
            }),
    {
        let s = &self.hash_journal;
        let mut i: usize = s.len();
        while i > 0
            invariant
                s@ == self.hash_journal@,
                i <= s@.len(),
                forall|j: int| i <= j < s@.len() ==> s@[j].0 != id,
            decreases i,
        {
            i = i - 1;
            if s[i].0 == id {
                proof {
                    lemma_journal_latest(s@, i as int);
                }
                return Ok(s[i].1);
            }
        }
        proof {
            lemma_journal_absent(s@, id);
        }
        Err(Error::MissingKey)
    }

    pub fn get_nonce(&self, id: u32) -> (r: Result<u32, Error>)
        ensures
            r == (if self@.nonces.contains_key(id) {
                Ok(self@.nonces[id])
            } else {
                Err::<u32, Error>(Error::MissingKey)
            }),
    {
        let s = &self.nonce_journal;
        let mut i: usize = s.len();
        while i > 0
            invariant
                s@ == self.nonce_journal@,
                i <= s@.len(),
                forall|j: int| i <= j < s@.len() ==> s@[j].0 != id,
            decreases i,
        {
            i = i - 1;
            if s[i].0 == id {
                proof {
                    lemma_journal_latest(s@, i as int);
                }
                return Ok(s[i].1);
            }
        }
        proof {
            lemma_journal_absent(s@, id);
        }
        Err(Error::MissingKey)
    }

    pub fn get_sudt_balance(&self, sudt_id: u32, owner: &ShortAddress) -> (r: u128)
        ensures
            r == self@.balance(sudt_id, *owner),
    {
        let s = &self.balance_journal;
        let mut i: usize = s.len();
        while i > 0
            invariant
                s@ == self.balance_journal@,
                i <= s@.len(),
                forall|j: int| i <= j < s@.len() ==> s@[j].0 != (sudt_id, *owner),
            decreases i,
        {
            i = i - 1;
            if s[i].0.0 == sudt_id && s[i].0.1 == *owner {
                proof {
                    lemma_journal_latest(s@, i as int);
                }
                return s[i].1;
            }
        }
        proof {
            lemma_journal_absent(s@, (sudt_id, *owner));
        }
        0
    }

    /// Gives the script hash `h` a new account, with the next id.
    pub fn create_account(&mut self, h: H256) -> (r: Result<u32, Error>)
        ensures
            match old(self)@.create_account(h) {
                Ok(m) => r == Ok::<u32, Error>(old(self)@.count) && final(self)@ == m,
                Err(e) => r == Err::<u32, Error>(e) && final(self)@ == old(self)@,
            },
    {
        if self.count == u32::MAX {
            return Err(Error::AccountCountOverflow);
        }
        let id = self.count;
        self.load_account(id, h, 0);
        self.count = id + 1;
        Ok(id)
    }

    pub fn mint_sudt(&mut self, sudt_id: u32, owner: &ShortAddress, amount: u128) -> (r: Result<(), Error>)
        ensures
            follows(r, final(self)@, old(self)@.mint(sudt_id, *owner, amount)),
    {
        let cur = self.get_sudt_balance(sudt_id, owner);
        match cur.checked_add(amount) {
            Some(n) => {
                self.load_balance(sudt_id, *owner, n);
                Ok(())
            },
            None => Err(Error::AmountOverflow),
        }
    }

    pub fn burn_sudt(&mut self, sudt_id: u32, owner: &ShortAddress, amount: u128) -> (r: Result<(), Error>)
        ensures
            follows(r, final(self)@, old(self)@.burn(sudt_id, *owner, amount)),
    {
        let cur = self.get_sudt_balance(sudt_id, owner);
        match cur.checked_sub(amount) {
            Some(n) => {
                self.load_balance(sudt_id, *owner, n);
                Ok(())
            },
            None => Err(Error::InsufficientBalance),
        }
    }

    pub fn set_nonce(&mut self, id: u32, nonce: u32) -> (r: Result<(), Error>)
        ensures
            follows(r, final(self)@, old(self)@.set_nonce(id, nonce)),
    {
        match self.get_nonce(id) {
            Ok(_) => {
                proof {
                    lemma_journal_push(self.nonce_journal@, id, nonce);
                }
                self.nonce_journal.push((id, nonce));
                Ok(())
            },
            Err(e) => Err(e),
        }
    }
}

} // verus!
