use vstd::prelude::*;
use crate::cells::CellValue;
use crate::error::Error;
use crate::hash::{is_zero, lemma_hash_ext, H256};

verus! {

/// What `c` adds to the balance of token `t`: its fungible amount when `t` is its
/// token, and its capacity when `t` is the native-asset sentinel (all zero).
pub open spec fn contribution(c: CellValue, t: H256) -> int {
    (if c.sudt_script_hash == t {
        c.amount as int
    } else {
        0int
    }) + (if is_zero(t) {
        c.capacity as int
    } else {
        0int
    })
}

/// The total of token `t` over the cells `s`.
pub open spec fn total(s: Seq<CellValue>, t: H256) -> int
    decreases s.len(),
{
    if s.len() == 0 {
        0
    } else {
        total(s.drop_last(), t) + contribution(s.last(), t)
    }
}

/// Whether every token's total over `s` fits in 128 bits.
pub open spec fn totals_fit(s: Seq<CellValue>) -> bool {
    forall|t: H256| #[trigger] total(s, t) <= u128::MAX
}

/// A total over a prefix is at most the total over the whole.
pub proof fn lemma_total_prefix(s: Seq<CellValue>, n: int, t: H256)
    requires
        0 <= n <= s.len(),
    ensures
        0 <= total(s.take(n), t) <= total(s, t),
    decreases s.len() - n,
{
    if n == s.len() {
        assert(s.take(n) =~= s);
        lemma_total_nonneg(s, t);
    } else {
        lemma_total_prefix(s, n + 1, t);
        assert(s.take(n + 1).drop_last() =~= s.take(n));
        assert(total(s.take(n + 1), t) == total(s.take(n), t) + contribution(s.take(n + 1).last(), t));
        lemma_total_nonneg(s.take(n), t);
    }
}

proof fn lemma_total_nonneg(s: Seq<CellValue>, t: H256)
    ensures
        total(s, t) >= 0,
    decreases s.len(),
{
    if s.len() > 0 {
        lemma_total_nonneg(s.drop_last(), t);
    }
}

/// One entry of an asset map.
#[derive(Clone, Copy, Debug)]
pub struct AssetEntry {
    pub token: H256,
    pub amount: u128,
}

/// The amount that the entries `s` give token `t`: that of the last entry for
/// `t`, or zero when there is none.
pub open spec fn amount_in(s: Seq<AssetEntry>, t: H256) -> int
    decreases s.len(),
{
    if s.len() == 0 {
        0
    } else if s.last().token == t {
        s.last().amount as int
    } else {
        amount_in(s.drop_last(), t)
    }
}

/// A balance for each token; a token without an entry has balance zero.
pub struct AssetMap {
    entries: Vec<AssetEntry>,
}

proof fn lemma_amount_at(s: Seq<AssetEntry>, i: int)
    requires
        0 <= i < s.len(),
        forall|a: int, b: int| 0 <= a < b < s.len() ==> s[a].token != s[b].token,
    ensures
        amount_in(s, s[i].token) == s[i].amount,
    decreases s.len(),
{
    if i < s.len() - 1 {
        lemma_amount_at(s.drop_last(), i);
    }
}

proof fn lemma_amount_absent(s: Seq<AssetEntry>, t: H256)
    requires
        forall|a: int| 0 <= a < s.len() ==> s[a].token != t,
    ensures
        amount_in(s, t) == 0,
    decreases s.len(),
{
    if s.len() > 0 {
        lemma_amount_absent(s.drop_last(), t);
    }
}

proof fn lemma_amount_in_range(s: Seq<AssetEntry>, t: H256)
    ensures
        0 <= amount_in(s, t) <= u128::MAX,
    decreases s.len(),
{
    if s.len() > 0 {
        lemma_amount_in_range(s.drop_last(), t);
    }
}

proof fn lemma_amount_pushed(s: Seq<AssetEntry>, e: AssetEntry, t: H256)
    ensures
        amount_in(s.push(e), t) == if e.token == t {
            e.amount as int
        } else {
            amount_in(s, t)
        },
{
    assert(s.push(e).drop_last() =~= s);
}

impl AssetMap {
    /// Token keys are unique.
    pub closed spec fn wf(&self) -> bool {
        forall|a: int, b: int|
            0 <= a < b < self.entries@.len() ==> self.entries@[a].token
                != self.entries@[b].token
    }

    /// The balance of token `t`.
    pub closed spec fn amount(&self, t: H256) -> int {
        amount_in(self.entries@, t)
    }

    pub proof fn lemma_amount_range(&self, t: H256)
        ensures
            0 <= self.amount(t) <= u128::MAX,
    {
        lemma_amount_in_range(self.entries@, t);
    }

    /// The map in which every balance is zero.
    pub fn new() -> (r: AssetMap)
        ensures
            r.wf(),
            forall|t: H256| r.amount(t) == 0,
    {
        AssetMap { entries: Vec::new() }
    }

    fn find(&self, t: &H256) -> (r: Option<usize>)
        ensures
            r matches Some(i) ==> i < self.entries@.len() && self.entries@[i as int].token == *t,
            r is None ==> forall|a: int| 0 <= a < self.entries@.len() ==> self.entries@[a].token != *t,
    {
        let mut i: usize = 0;
        while i < self.entries.len()
            invariant
                i <= self.entries@.len(),
                forall|a: int| 0 <= a < i ==> self.entries@[a].token != *t,
            decreases self.entries@.len() - i,
        {
            if self.entries[i].token == *t {
                return Some(i);
            }
            i = i + 1;
        }
        None
    }

    /// The balance of token `t`.
    pub fn get(&self, t: &H256) -> (r: u128)
        requires
            self.wf(),
        ensures
            r == self.amount(*t),
    {
        match self.find(t) {
            Some(i) => {
                proof {
                    lemma_amount_at(self.entries@, i as int);
                }
                self.entries[i].amount
            },
            None => {
                proof {
                    lemma_amount_absent(self.entries@, *t);
                }
                0
            },
        }
    }

    /// Sets the balance of `t` to `v`, leaving every other balance as it was.
    fn set(&mut self, t: &H256, v: u128)
        requires
            old(self).wf(),
        ensures
            final(self).wf(),
            forall|u: H256|
                #[trigger] final(self).amount(u) == if u == *t {
                    v as int
                } else {
                    old(self).amount(u)
                },
    {
        match self.find(t) {
            Some(i) => {
                let ghost before = self.entries@;
                self.entries.set(i, AssetEntry { token: *t, amount: v });
                proof {
                    assert forall|u: H256| #[trigger] self.amount(u) == if u == *t {
                        v as int
                    } else {
                        old(self).amount(u)
                    } by {
                        if u == *t {
                            lemma_amount_at(self.entries@, i as int);
                        } else {
                            lemma_amount_unchanged_at(before, i as int, AssetEntry { token: *t, amount: v }, u);
                        }
                    }
                }
            },
            None => {
                self.entries.push(AssetEntry { token: *t, amount: v });
                proof {
                    assert forall|u: H256| #[trigger] self.amount(u) == if u == *t {
                        v as int
                    } else {
                        old(self).amount(u)
                    } by {
                        lemma_amount_pushed(old(self).entries@, AssetEntry { token: *t, amount: v }, u);
                    }
                }
            },
        }
    }

    /// Adds `v` to the balance of `t`; fails, and changes nothing, when the sum
    /// does not fit in 128 bits.
    pub fn checked_add(&mut self, t: &H256, v: u128) -> (r: bool)
        requires
            old(self).wf(),
        ensures
            final(self).wf(),
            r == (old(self).amount(*t) + v <= u128::MAX),
            r ==> forall|u: H256|
                #[trigger] final(self).amount(u) == if u == *t {
                    old(self).amount(u) + v
                } else {
                    old(self).amount(u)
                },
            !r ==> *final(self) == *old(self),
    {
        let cur = self.get(t);
        match cur.checked_add(v) {
            Some(n) => {
                self.set(t, n);
                true
            },
            None => false,
        }
    }

    /// Takes `v` from the balance of `t`; fails, and changes nothing, when the
    /// balance is smaller than `v`.
    pub fn checked_sub(&mut self, t: &H256, v: u128) -> (r: bool)
        requires
            old(self).wf(),
        ensures
            final(self).wf(),
            r == (v <= old(self).amount(*t)),
            r ==> forall|u: H256|
                #[trigger] final(self).amount(u) == if u == *t {
                    old(self).amount(u) - v
                } else {
                    old(self).amount(u)
                },
            !r ==> *final(self) == *old(self),
    {
        let cur = self.get(t);
        match cur.checked_sub(v) {
            Some(n) => {
                self.set(t, n);
                true
            },
            None => false,
        }
    }

    /// Whether every balance is zero.
    pub fn is_all_zero(&self) -> (r: bool)
        requires
            self.wf(),
        ensures
            r == forall|t: H256| #[trigger] self.amount(t) == 0,
    {
        let mut i: usize = 0;
        while i < self.entries.len()
            invariant
                self.wf(),
                i <= self.entries@.len(),
                forall|a: int| 0 <= a < i ==> self.entries@[a].amount == 0,
            decreases self.entries@.len() - i,
        {
            if self.entries[i].amount != 0 {
                proof {
                    lemma_amount_at(self.entries@, i as int);
                    assert(self.amount(self.entries@[i as int].token) != 0);
                }
                return false;
            }
            i = i + 1;
        }
        proof {
            assert forall|t: H256| #[trigger] self.amount(t) == 0 by {
                lemma_amount_all_zero(self.entries@, t);
            }
        }
        true
    }
}

proof fn lemma_amount_unchanged_at(s: Seq<AssetEntry>, i: int, e: AssetEntry, u: H256)
    requires
        0 <= i < s.len(),
        s[i].token == e.token,
        u != e.token,
    ensures
        amount_in(s.update(i, e), u) == amount_in(s, u),
    decreases s.len(),
{
    if i < s.len() - 1 {
        assert(s.update(i, e).drop_last() =~= s.drop_last().update(i, e));
        lemma_amount_unchanged_at(s.drop_last(), i, e, u);
    } else {
        assert(s.update(i, e).drop_last() =~= s.drop_last());
    }
}

proof fn lemma_amount_all_zero(s: Seq<AssetEntry>, t: H256)
    requires
        forall|a: int| 0 <= a < s.len() ==> s[a].amount == 0,
    ensures
        amount_in(s, t) == 0,
    decreases s.len(),
{
    if s.len() > 0 {
        lemma_amount_all_zero(s.drop_last(), t);
    }
}

impl AssetMap {
    /// Takes every balance of `other` from the matching balance of `self`.
    /// Succeeds when no balance of `other` exceeds the one it is taken from.
    pub fn checked_sub_all(&mut self, other: &AssetMap) -> (r: bool)
        requires
            old(self).wf(),
            other.wf(),
        ensures
            final(self).wf(),
            r == forall|t: H256| #[trigger] other.amount(t) <= old(self).amount(t),
            r ==> forall|t: H256|
                #[trigger] final(self).amount(t) == old(self).amount(t) - other.amount(t),
    {
        let ghost start = *self;
        let ghost es = other.entries@;
        let mut k: usize = 0;
        while k < other.entries.len()
            invariant
                self.wf(),
                other.wf(),
                start == *old(self),
                es == other.entries@,
                k <= es.len(),
                forall|t: H256|
                    #[trigger] self.amount(t) == if taken(es, k as int, t) {
                        start.amount(t) - other.amount(t)
                    } else {
                        start.amount(t)
                    },
                forall|t: H256| taken(es, k as int, t) ==> #[trigger] other.amount(t) <= start.amount(t),
            decreases es.len() - k,
        {
            let e = other.entries[k];
            proof {
                lemma_amount_at(es, k as int);
                if taken(es, k as int, e.token) {
                    let j = choose|j: int| 0 <= j < k && es[j].token == e.token;
                    assert(es[j].token != es[k as int].token);
                }
            }
            let ok = self.checked_sub(&e.token, e.amount);
            if !ok {
                assert(other.amount(e.token) > start.amount(e.token));
                assert(!(forall|t: H256| #[trigger] other.amount(t) <= old(self).amount(t)));
                return false;
            }
            proof {
                assert forall|t: H256| #[trigger] self.amount(t) == if taken(es, k + 1, t) {
                    start.amount(t) - other.amount(t)
                } else {
                    start.amount(t)
                } by {
                    if t == e.token {
                        assert(taken(es, k + 1, t)) by {
                            assert(es[k as int].token == t);
                        }
                    } else {
                        assert(taken(es, k + 1, t) == taken(es, k as int, t)) by {
                            if taken(es, k + 1, t) {
                                let j = choose|j: int| 0 <= j < k + 1 && es[j].token == t;
                                assert(j < k);
                            }
                        }
                    }
                }
                assert forall|t: H256| taken(es, k + 1, t) implies #[trigger] other.amount(t) <= start.amount(t) by {
                    if t != e.token {
                        let j = choose|j: int| 0 <= j < k + 1 && es[j].token == t;
                        assert(j < k);
                        assert(taken(es, k as int, t));
                    }
                }
            }
            k = k + 1;
        }
        proof {
            assert forall|t: H256| !taken(es, es.len() as int, t) implies #[trigger] other.amount(t) == 0 by {
                lemma_amount_absent(es, t);
            }
            assert forall|t: H256| #[trigger] other.amount(t) <= start.amount(t) by {
                if !taken(es, es.len() as int, t) {
                    lemma_amount_absent(es, t);
                    start.lemma_amount_range(t);
                }
            }
        }
        true
    }
}

/// Whether one of the first `k` entries of `s` is for token `t`.
pub open spec fn taken(s: Seq<AssetEntry>, k: int, t: H256) -> bool {
    exists|j: int| 0 <= j < k && s[j].token == t
}

/// Sums the assets of `cells` by token: each fungible amount under its token,
/// each capacity under the native-asset sentinel. Fails when a sum does not fit.
pub fn aggregate(cells: &Vec<CellValue>) -> (r: Result<AssetMap, Error>)
    ensures
        r is Ok <==> totals_fit(cells@),
        r matches Ok(m) ==> m.wf() && forall|t: H256| #[trigger] m.amount(t) == total(cells@, t),
        r matches Err(e) ==> e == Error::AmountOverflow,
{
    let mut assets = AssetMap::new();
    let ckb = H256::zero();
    let mut i: usize = 0;
    while i < cells.len()
        invariant
            i <= cells@.len(),
            is_zero(ckb),
            assets.wf(),
            forall|t: H256| #[trigger] assets.amount(t) == total(cells@.take(i as int), t),
        decreases cells@.len() - i,
    {
        let c = cells[i];
        proof {
            assert(cells@.take(i + 1).drop_last() =~= cells@.take(i as int));
            assert(cells@.take(i + 1).last() == c);
        }
        if !assets.checked_add(&c.sudt_script_hash, c.amount) {
            proof {
                let t = c.sudt_script_hash;
                lemma_total_nonneg(cells@.take(i as int), t);
                lemma_total_prefix(cells@, i + 1, t);
                assert(total(cells@, t) > u128::MAX);
            }
            return Err(Error::AmountOverflow);
        }
        if !assets.checked_add(&ckb, c.capacity as u128) {
            proof {
                lemma_total_prefix(cells@, i + 1, ckb);
                assert(total(cells@, ckb) > u128::MAX);
            }
            return Err(Error::AmountOverflow);
        }
        proof {
            assert forall|t: H256| #[trigger] assets.amount(t) == total(cells@.take(i + 1), t) by {
                assert(total(cells@.take(i + 1), t) == total(cells@.take(i as int), t) + contribution(c, t));
                if is_zero(t) {
                    lemma_hash_ext(t, ckb);
                }
            }
        }
        i = i + 1;
    }
    proof {
        assert(cells@.take(cells@.len() as int) =~= cells@);
        assert forall|t: H256| #[trigger] total(cells@, t) <= u128::MAX by {
            assets.lemma_amount_range(t);
        }
    }
    Ok(assets)
}

} // verus!
