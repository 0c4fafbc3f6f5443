use vstd::prelude::*;

use crate::error::DaoError;

verus! {

/// What a balance table holds: each account key with its balance.
pub open spec fn table_map(t: Seq<(Vec<u8>, i32)>) -> Map<Seq<u8>, int>
    decreases t.len(),
{
    if t.len() == 0 {
        Map::empty()
    } else {
        table_map(t.drop_last()).insert(t.last().0@, t.last().1 as int)
    }
}

/// The sum of all balances of a table.
pub open spec fn table_sum(t: Seq<(Vec<u8>, i32)>) -> int
    decreases t.len(),
{
    if t.len() == 0 {
        0
    } else {
        table_sum(t.drop_last()) + t.last().1
    }
}

pub open spec fn keys_unique(t: Seq<(Vec<u8>, i32)>) -> bool {
    forall|i: int, j: int| 0 <= i < j < t.len() ==> t[i].0@ != t[j].0@
}

/// The balance of `a` in a balance map: zero where the account is absent.
pub open spec fn balance_in(m: Map<Seq<u8>, int>, a: Seq<u8>) -> int {
    if m.contains_key(a) {
        m[a]
    } else {
        0
    }
}

pub open spec fn fits_i32(x: int) -> bool {
    i32::MIN <= x <= i32::MAX
}

/// One mint on a ledger given by its balances and its total: `None` where a
/// new value leaves the range of `i32`.
pub open spec fn mint_step(m: Map<Seq<u8>, int>, total: int, amount: int, to: Seq<u8>) -> Option<
    (Map<Seq<u8>, int>, int),
> {
    if fits_i32(balance_in(m, to) + amount) && fits_i32(total + amount) {
        Some((m.insert(to, balance_in(m, to) + amount), total + amount))
    } else {
        None
    }
}

proof fn lemma_table_lookup(t: Seq<(Vec<u8>, i32)>, i: int)
    requires
        keys_unique(t),
        0 <= i < t.len(),
    ensures
        table_map(t).contains_key(t[i].0@),
        table_map(t)[t[i].0@] == t[i].1 as int,
    decreases t.len(),
{
    if i < t.len() - 1 {
        lemma_table_lookup(t.drop_last(), i);
    }
}

proof fn lemma_table_absent(t: Seq<(Vec<u8>, i32)>, k: Seq<u8>)
    requires
        forall|i: int| 0 <= i < t.len() ==> t[i].0@ != k,
    ensures
        !table_map(t).contains_key(k),
    decreases t.len(),
{
    if t.len() > 0 {
        lemma_table_absent(t.drop_last(), k);
    }
}

proof fn lemma_table_update(t: Seq<(Vec<u8>, i32)>, i: int, k: Vec<u8>, v: i32)
    requires
        keys_unique(t),
        0 <= i < t.len(),
        k@ == t[i].0@,
    ensures
        keys_unique(t.update(i, (k, v))),
        table_map(t.update(i, (k, v))) == table_map(t).insert(k@, v as int),
        table_sum(t.update(i, (k, v))) == table_sum(t) - t[i].1 + v,
    decreases t.len(),
{
    let u = t.update(i, (k, v));
    if i == t.len() - 1 {
        assert(u.drop_last() =~= t.drop_last());
        assert(table_map(u) =~= table_map(t).insert(k@, v as int));
    } else {
        assert(u.drop_last() =~= t.drop_last().update(i, (k, v)));
        lemma_table_update(t.drop_last(), i, k, v);
        assert(table_map(u) =~= table_map(t).insert(k@, v as int));
    }
}

proof fn lemma_table_same_views(t1: Seq<(Vec<u8>, i32)>, t2: Seq<(Vec<u8>, i32)>)
    requires
        t1.len() == t2.len(),
        forall|i: int| 0 <= i < t1.len() ==> t1[i].0@ == t2[i].0@ && t1[i].1 == t2[i].1,
    ensures
        table_map(t1) == table_map(t2),
        table_sum(t1) == table_sum(t2),
        keys_unique(t1) == keys_unique(t2),
    decreases t1.len(),
{
    if t1.len() > 0 {
        lemma_table_same_views(t1.drop_last(), t2.drop_last());
    }
}

/// Per-account balances with their running total.
pub struct AssetLedger {
    entries: Vec<(Vec<u8>, i32)>,
    total: i32,
}

impl AssetLedger {
    /// Keys are unique and the total is the sum of all balances.
    pub closed spec fn wf(&self) -> bool {
        &&& keys_unique(self.entries@)
        &&& self.total as int == table_sum(self.entries@)
    }

    pub closed spec fn balances(&self) -> Map<Seq<u8>, int> {
        table_map(self.entries@)
    }

    pub closed spec fn supply(&self) -> int {
        self.total as int
    }

    pub fn new() -> (r: AssetLedger)
        ensures
            r.wf(),
            r.balances() == Map::<Seq<u8>, int>::empty(),
            r.supply() == 0,
    {
        AssetLedger { entries: Vec::new(), total: 0 }
    }

    /// A copy of the ledger with its own storage.
    pub fn duplicate(&self) -> (r: AssetLedger)
        requires
            self.wf(),
        ensures
            r.wf(),
            r.balances() == self.balances(),
            r.supply() == self.supply(),
    {
        let mut entries: Vec<(Vec<u8>, i32)> = Vec::new();
        let mut i: usize = 0;
        while i < self.entries.len()
            invariant
                i <= self.entries@.len(),
                entries@.len() == i,
                forall|j: int|
                    0 <= j < i ==> entries@[j].0@ == self.entries@[j].0@ && entries@[j].1
                        == self.entries@[j].1,
            decreases self.entries@.len() - i,
        {
            let key = self.entries[i].0.clone();
            assert(key@ =~= self.entries@[i as int].0@);
            entries.push((key, self.entries[i].1));
            i = i + 1;
        }
        proof {
            lemma_table_same_views(entries@, self.entries@);
        }
        AssetLedger { entries, total: self.total }
    }

    fn find(&self, k: &Vec<u8>) -> (r: Option<usize>)
        ensures
            match r {
                Some(i) => i < self.entries@.len() && self.entries@[i as int].0@ == k@,
                None => forall|i: int|
                    0 <= i < self.entries@.len() ==> self.entries@[i].0@ != k@,
            },
    {
        let mut i: usize = 0;
        while i < self.entries.len()
            invariant
                i <= self.entries@.len(),
                forall|j: int| 0 <= j < i ==> self.entries@[j].0@ != k@,
            decreases self.entries@.len() - i,
        {
            if self.entries[i].0 == *k {
                assert(self.entries@[i as int].0@ =~= k@);
                return Some(i);
            }
            i = i + 1;
        }
        None
    }

    /// The balance of `owner`, zero where it has none.
    pub fn balance_of(&self, owner: &Vec<u8>) -> (r: i32)
        requires
            self.wf(),
        ensures
            r as int == balance_in(self.balances(), owner@),
    {
        match self.find(owner) {
            Some(i) => {
                proof {
                    lemma_table_lookup(self.entries@, i as int);
                }
                self.entries[i].1
            },
            None => {
                proof {
                    lemma_table_absent(self.entries@, owner@);
                }
                0
            },
        }
    }

    pub fn total_supply(&self) -> (r: i32)
        ensures
            r as int == self.supply(),
    {
        self.total
    }

    /// Credits `amount` to `to` and to the total. Fails `Overflow`, with
    /// nothing changed, where a new value leaves the range of `i32`.
    pub fn mint(&mut self, amount: i32, to: &Vec<u8>) -> (r: Result<(), DaoError>)
        requires
            old(self).wf(),
        ensures
            final(self).wf(),
            match mint_step(old(self).balances(), old(self).supply(), amount as int, to@) {
                Some((m, t)) => r == Ok::<(), DaoError>(()) && final(self).balances() == m
                    && final(self).supply() == t,
                None => r == Err::<(), DaoError>(DaoError::Overflow) && *final(self) == *old(
                    self,
                ),
            },
    {
        let current = self.balance_of(to);
        let new_balance = current.checked_add(amount);
        let new_total = self.total.checked_add(amount);
        match (new_balance, new_total) {
            (Some(b), Some(t)) => {
                match self.find(to) {
                    Some(i) => {
                        let key = to.clone();
                        assert(key@ =~= to@);
                        proof {
                            lemma_table_lookup(self.entries@, i as int);
                            lemma_table_update(self.entries@, i as int, key, b);
                        }
                        self.entries.set(i, (key, b));
                    },
                    None => {
                        proof {
                            lemma_table_absent(self.entries@, to@);
                        }
                        let key = to.clone();
                        assert(key@ =~= to@);
                        self.entries.push((key, b));
                        assert(self.entries@.drop_last() =~= old(self).entries@);
                        assert(keys_unique(self.entries@)) by {
                            assert forall|x: int, y: int|
                                0 <= x < y < self.entries@.len() implies self.entries@[x].0@
                                != self.entries@[y].0@ by {
                                if y < self.entries@.len() - 1 {
                                    assert(self.entries@[x] == old(self).entries@[x]);
                                    assert(self.entries@[y] == old(self).entries@[y]);
                                }
                            }
                        }
                    },
                }
                self.total = t;
                Ok(())
            },
            _ => Err(DaoError::Overflow),
        }
    }
}

} // verus!
