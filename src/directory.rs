use crate::model::{Bang, BangView};
use vstd::prelude::*;

verus! {

/// The in-memory directory: a mapping from trigger to record, each trigger
/// at most once.
pub struct BangDirectory {
    keys: Vec<String>,
    bangs: Vec<Bang>,
    contents: Ghost<Map<Seq<char>, BangView>>,
}

impl View for BangDirectory {
    type V = Map<Seq<char>, BangView>;

    closed spec fn view(&self) -> Map<Seq<char>, BangView> {
        self.contents@
    }
}

/// `r` lists every entry of `m` once, as a (trigger, record) pair.
pub open spec fn lists_entries(r: Seq<(String, Bang)>, m: Map<Seq<char>, BangView>) -> bool {
    &&& r.len() == m.len()
    &&& forall|i: int, j: int| 0 <= i < r.len() && 0 <= j < r.len() && i != j ==> r[i].0@ != r[j].0@
    &&& forall|i: int|
        0 <= i < r.len() ==> #[trigger] m.contains_key(r[i].0@) && r[i].1@ == m[r[i].0@]
    &&& forall|k: Seq<char>| #[trigger]
        m.contains_key(k) ==> exists|i: int| 0 <= i < r.len() && r[i].0@ == k
}

/// The directory that inserting the pairs in order gives: a later pair
/// overwrites an earlier one with the same trigger.
pub open spec fn entries_map(s: Seq<(String, Bang)>) -> Map<Seq<char>, BangView>
    decreases s.len(),
{
    if s.len() == 0 {
        Map::empty()
    } else {
        entries_map(s.drop_last()).insert(s.last().0@, s.last().1@)
    }
}

proof fn lemma_entries_map_distinct(s: Seq<(String, Bang)>)
    requires
        forall|i: int, j: int| 0 <= i < s.len() && 0 <= j < s.len() && i != j ==> s[i].0@ != s[j].0@,
    ensures
        forall|k: Seq<char>| #[trigger]
            entries_map(s).contains_key(k) <==> exists|i: int| 0 <= i < s.len() && s[i].0@ == k,
        forall|i: int| 0 <= i < s.len() ==> #[trigger] entries_map(s)[s[i].0@] == s[i].1@,
    decreases s.len(),
{
    if s.len() > 0 {
        let p = s.drop_last();
        let n = p.len() as int;
        assert forall|i: int, j: int| 0 <= i < p.len() && 0 <= j < p.len() && i != j implies p[i].0@
            != p[j].0@ by {
            assert(p[i] == s[i] && p[j] == s[j]);
        }
        lemma_entries_map_distinct(p);
        assert forall|k: Seq<char>| #[trigger]
            entries_map(s).contains_key(k) <==> exists|i: int| 0 <= i < s.len() && s[i].0@ == k by {
            if entries_map(p).contains_key(k) {
                let i = choose|i: int| 0 <= i < p.len() && p[i].0@ == k;
                assert(s[i] == p[i]);
            }
            if exists|i: int| 0 <= i < s.len() && s[i].0@ == k {
                let i = choose|i: int| 0 <= i < s.len() && s[i].0@ == k;
                if i < n {
                    assert(p[i] == s[i]);
                }
            }
        }
        assert forall|i: int| 0 <= i < s.len() implies #[trigger] entries_map(s)[s[i].0@] == s[i].1@ by {
            if i < n {
                assert(p[i] == s[i]);
                assert(s[i].0@ != s[n].0@);
                assert(entries_map(p)[p[i].0@] == p[i].1@);
            }
        }
    }
}

/// Rebuilding a directory from the pairs that `entries` lists gives the
/// same directory back.
pub proof fn lemma_entries_round_trip(r: Seq<(String, Bang)>, m: Map<Seq<char>, BangView>)
    requires
        lists_entries(r, m),
    ensures
        entries_map(r) == m,
{
    lemma_entries_map_distinct(r);
    assert forall|k: Seq<char>| entries_map(r).contains_key(k) <==> m.contains_key(k) by {
        if entries_map(r).contains_key(k) {
            let i = choose|i: int| 0 <= i < r.len() && r[i].0@ == k;
            assert(m.contains_key(r[i].0@));
        }
    }
    assert forall|k: Seq<char>| #[trigger] entries_map(r).contains_key(k) implies entries_map(r)[k]
        == m[k] by {
        let i = choose|i: int| 0 <= i < r.len() && r[i].0@ == k;
        assert(m.contains_key(r[i].0@));
        assert(entries_map(r)[r[i].0@] == r[i].1@);
    }
    assert(entries_map(r) =~= m);
}

impl BangDirectory {
    spec fn key(&self, i: int) -> Seq<char> {
        self.keys@[i]@
    }

    /// The keys are distinct and the two vectors together hold exactly the
    /// mapping.
    pub closed spec fn wf(&self) -> bool {
        &&& self.keys@.len() == self.bangs@.len()
        &&& self.contents@.dom().finite()
        &&& self.contents@.len() == self.keys@.len()
        &&& forall|i: int, j: int|
            0 <= i < self.keys@.len() && 0 <= j < self.keys@.len() && i != j ==> self.key(i)
                != self.key(j)
        &&& forall|i: int|
            0 <= i < self.keys@.len() ==> #[trigger] self.contents@.contains_key(self.key(i))
                && self.contents@[self.key(i)] == self.bangs@[i]@
        &&& forall|k: Seq<char>| #[trigger]
            self.contents@.contains_key(k) ==> exists|i: int|
                0 <= i < self.keys@.len() && self.key(i) == k
    }

    /// A well-formed directory holds finitely many entries.
    pub proof fn lemma_view_finite(&self)
        requires
            self.wf(),
        ensures
            self@.dom().finite(),
    {
    }

    pub fn new() -> (r: BangDirectory)
        ensures
            r.wf(),
            r@ == Map::<Seq<char>, BangView>::empty(),
    {
        BangDirectory { keys: Vec::new(), bangs: Vec::new(), contents: Ghost(Map::empty()) }
    }

    pub fn len(&self) -> (r: usize)
        requires
            self.wf(),
        ensures
            r == self@.len(),
    {
        self.keys.len()
    }

    pub fn is_empty(&self) -> (r: bool)
        requires
            self.wf(),
        ensures
            r == (self@.len() == 0),
    {
        self.keys.len() == 0
    }

    fn index_of(&self, key: &str) -> (r: Option<usize>)
        requires
            self.wf(),
        ensures
            match r {
                Some(i) => i < self.keys@.len() && self.key(i as int) == key@,
                None => !self@.contains_key(key@),
            },
    {
        let wanted = String::from_str(key);
        let mut i: usize = 0;
        while i < self.keys.len()
            invariant
                self.wf(),
                wanted@ == key@,
                i <= self.keys@.len(),
                forall|j: int| 0 <= j < i ==> self.key(j) != key@,
            decreases self.keys@.len() - i,
        {
            if self.keys[i] == wanted {
                return Some(i);
            }
            i = i + 1;
        }
        None
    }

    pub fn contains_key(&self, key: &str) -> (r: bool)
        requires
            self.wf(),
        ensures
            r == self@.contains_key(key@),
    {
        self.index_of(key).is_some()
    }

    pub fn get(&self, key: &str) -> (r: Option<&Bang>)
        requires
            self.wf(),
        ensures
            match r {
                Some(b) => self@.contains_key(key@) && b@ == self@[key@],
                None => !self@.contains_key(key@),
            },
    {
        match self.index_of(key) {
            Some(i) => {
                proof {
                    assert(self.contents@.contains_key(self.key(i as int)));
                }
                Some(&self.bangs[i])
            },
            None => None,
        }
    }

    /// Inserts, overwriting whatever the trigger held before.
    pub fn insert(&mut self, key: String, bang: Bang)
        requires
            old(self).wf(),
        ensures
            final(self).wf(),
            final(self)@ == old(self)@.insert(key@, bang@),
    {
        let ghost k = key@;
        let ghost v = bang@;
        match self.index_of(key.as_str()) {
            Some(i) => {
                self.bangs.set(i, bang);
                proof {
                    self.contents@ = self.contents@.insert(k, v);
                    assert(old(self).contents@.contains_key(old(self).key(i as int)));
                    assert(self.contents@.dom() =~= old(self).contents@.dom());
                    assert forall|a: int| 0 <= a < self.keys@.len() implies
                        #[trigger] self.contents@.contains_key(self.key(a))
                        && self.contents@[self.key(a)] == self.bangs@[a]@ by {
                        assert(old(self).contents@.contains_key(old(self).key(a)));
                    }
                    assert forall|kk: Seq<char>| #[trigger]
                        self.contents@.contains_key(kk) implies exists|a: int|
                            0 <= a < self.keys@.len() && self.key(a) == kk by {
                        let a = choose|a: int|
                            0 <= a < old(self).keys@.len() && old(self).key(a) == kk;
                        assert(self.key(a) == kk);
                    }
                    assert forall|a: int, c: int|
                        0 <= a < self.keys@.len() && 0 <= c < self.keys@.len() && a != c
                        implies self.key(a) != self.key(c) by {
                        assert(old(self).key(a) != old(self).key(c));
                    }
                }
            },
            None => {
                self.push_new(key, bang);
            },
        }
    }

    /// Inserts a trigger the directory lacks; a trigger it has is left as it
    /// is. Tells whether it inserted.
    pub fn insert_new(&mut self, key: String, bang: Bang) -> (r: bool)
        requires
            old(self).wf(),
        ensures
            final(self).wf(),
            r == !old(self)@.contains_key(key@),
            final(self)@ == if r {
                old(self)@.insert(key@, bang@)
            } else {
                old(self)@
            },
    {
        match self.index_of(key.as_str()) {
            Some(i) => {
                proof {
                    assert(self.contents@.contains_key(self.key(i as int)));
                }
                false
            },
            None => {
                self.push_new(key, bang);
                true
            },
        }
    }

    fn push_new(&mut self, key: String, bang: Bang)
        requires
            old(self).wf(),
            !old(self)@.contains_key(key@),
        ensures
            final(self).wf(),
            final(self)@ == old(self)@.insert(key@, bang@),
    {
        let ghost k = key@;
        let ghost v = bang@;
        self.keys.push(key);
        self.bangs.push(bang);
        proof {
            self.contents@ = self.contents@.insert(k, v);
            let n = self.keys@.len() - 1;
            assert(self.key(n) == k);
            assert(self.contents@.dom() =~= old(self).contents@.dom().insert(k));
            assert(self.contents@.len() == old(self).contents@.len() + 1);
            assert forall|a: int| 0 <= a < self.keys@.len() implies
                #[trigger] self.contents@.contains_key(self.key(a))
                && self.contents@[self.key(a)] == self.bangs@[a]@ by {
                if a < n {
                    assert(self.key(a) == old(self).key(a));
                    assert(old(self).contents@.contains_key(old(self).key(a)));
                }
            }
            assert forall|a: int, c: int|
                0 <= a < self.keys@.len() && 0 <= c < self.keys@.len() && a != c
                implies self.key(a) != self.key(c) by {
                if a < n {
                    assert(old(self).contents@.contains_key(old(self).key(a)));
                }
                if c < n {
                    assert(old(self).contents@.contains_key(old(self).key(c)));
                }
            }
            assert forall|kk: Seq<char>| #[trigger]
                self.contents@.contains_key(kk) implies exists|i: int|
                    0 <= i < self.keys@.len() && self.key(i) == kk by {
                if kk != k {
                    let i = choose|i: int|
                        0 <= i < old(self).keys@.len() && old(self).key(i) == kk;
                    assert(self.key(i) == kk);
                }
            }
        }
    }

    /// Removes the trigger, handing back what it held.
    pub fn remove(&mut self, key: &str) -> (r: Option<Bang>)
        requires
            old(self).wf(),
        ensures
            final(self).wf(),
            final(self)@ == old(self)@.remove(key@),
            match r {
                Some(b) => old(self)@.contains_key(key@) && b@ == old(self)@[key@],
                None => !old(self)@.contains_key(key@),
            },
    {
        match self.index_of(key) {
            Some(i) => {
                let ghost k = key@;
                self.keys.remove(i);
                let b = self.bangs.remove(i);
                proof {
                    self.contents@ = self.contents@.remove(k);
                    assert(old(self).contents@.contains_key(old(self).key(i as int)));
                    assert(self.contents@.len() == old(self).contents@.len() - 1);
                    assert forall|a: int| 0 <= a < self.keys@.len() implies
                        #[trigger] self.contents@.contains_key(self.key(a))
                        && self.contents@[self.key(a)] == self.bangs@[a]@ by {
                        let oa = if a < i { a } else { a + 1 };
                        assert(self.key(a) == old(self).key(oa));
                        assert(old(self).key(oa) != old(self).key(i as int));
                        assert(old(self).contents@.contains_key(old(self).key(oa)));
                    }
                    assert forall|kk: Seq<char>| #[trigger]
                        self.contents@.contains_key(kk) implies exists|a: int|
                            0 <= a < self.keys@.len() && self.key(a) == kk by {
                        let a = choose|a: int|
                            0 <= a < old(self).keys@.len() && old(self).key(a) == kk;
                        assert(a != i);
                        if a < i {
                            assert(self.key(a) == kk);
                        } else {
                            assert(self.key(a - 1) == kk);
                        }
                    }
                    assert forall|a: int, c: int|
                        0 <= a < self.keys@.len() && 0 <= c < self.keys@.len() && a != c
                        implies self.key(a) != self.key(c) by {
                        let oa = if a < i { a } else { a + 1 };
                        let oc = if c < i { c } else { c + 1 };
                        assert(self.key(a) == old(self).key(oa));
                        assert(self.key(c) == old(self).key(oc));
                    }
                }
                Some(b)
            },
            None => {
                proof {
                    assert(old(self)@.remove(key@) =~= old(self)@);
                }
                None
            },
        }
    }

    /// Inserts every entry of `other`, overwriting on a shared trigger.
    pub fn merge_from(&mut self, other: &BangDirectory)
        requires
            old(self).wf(),
            other.wf(),
        ensures
            final(self).wf(),
            final(self)@ == old(self)@.union_prefer_right(other@),
    {
        let ghost start = self@;
        let mut i: usize = 0;
        while i < other.keys.len()
            invariant
                self.wf(),
                other.wf(),
                i <= other.keys@.len(),
                forall|k: Seq<char>| #[trigger]
                    self@.contains_key(k) <==> (start.contains_key(k) || exists|j: int|
                        0 <= j < i && other.key(j) == k),
                forall|j: int| 0 <= j < i ==> #[trigger] self@[other.key(j)] == other@[other.key(j)],
                forall|k: Seq<char>|
                    start.contains_key(k) && !(exists|j: int| 0 <= j < i && other.key(j) == k)
                        ==> #[trigger] self@[k] == start[k],
            decreases other.keys@.len() - i,
        {
            let key = other.keys[i].clone();
            let bang = other.bangs[i].clone();
            self.insert(key, bang);
            proof {
                assert(other@.contains_key(other.key(i as int)));
                assert forall|k: Seq<char>| #[trigger]
                    self@.contains_key(k) <==> (start.contains_key(k) || exists|j: int|
                        0 <= j < i + 1 && other.key(j) == k) by {
                    if k == other.key(i as int) {
                        assert(0 <= i < i + 1 && other.key(i as int) == k);
                    }
                    if exists|j: int| 0 <= j < i + 1 && other.key(j) == k {
                        let j = choose|j: int| 0 <= j < i + 1 && other.key(j) == k;
                        if j < i {
                            assert(exists|j: int| 0 <= j < i && other.key(j) == k);
                        }
                    }
                }
                assert forall|k: Seq<char>|
                    start.contains_key(k) && !(exists|j: int| 0 <= j < i + 1 && other.key(j) == k)
                        implies #[trigger] self@[k] == start[k] by {
                    assert(other.key(i as int) != k);
                }
                assert forall|j: int| 0 <= j < i + 1 implies #[trigger] self@[other.key(j)]
                    == other@[other.key(j)] by {
                    if j < i {
                        assert(other.key(j) != other.key(i as int));
                    }
                }
            }
            i = i + 1;
        }
        proof {
            assert forall|k: Seq<char>| #[trigger]
                self@.contains_key(k) <==> start.union_prefer_right(other@).contains_key(k) by {
                if other@.contains_key(k) {
                    let j = choose|j: int| 0 <= j < other.keys@.len() && other.key(j) == k;
                }
            }
            assert forall|k: Seq<char>| #[trigger] self@.contains_key(k) implies self@[k]
                == start.union_prefer_right(other@)[k] by {
                if other@.contains_key(k) {
                    let j = choose|j: int| 0 <= j < other.keys@.len() && other.key(j) == k;
                    assert(self@[other.key(j)] == other@[other.key(j)]);
                }
            }
            assert(self@ =~= start.union_prefer_right(other@));
        }
    }

    /// A directory of the given pairs, inserted in order.
    pub fn from_entries(entries: Vec<(String, Bang)>) -> (r: BangDirectory)
        ensures
            r.wf(),
            r@ == entries_map(entries@),
    {
        let mut d = BangDirectory::new();
        let mut i: usize = 0;
        while i < entries.len()
            invariant
                i <= entries@.len(),
                d.wf(),
                d@ == entries_map(entries@.take(i as int)),
            decreases entries@.len() - i,
        {
            let key = entries[i].0.clone();
            let bang = entries[i].1.clone();
            d.insert(key, bang);
            assert(entries@.take(i + 1).drop_last() =~= entries@.take(i as int));
            i = i + 1;
        }
        assert(entries@.take(entries@.len() as int) =~= entries@);
        d
    }

    /// Every entry once, as (trigger, record) pairs, in no promised order.
    pub fn entries(&self) -> (r: Vec<(String, Bang)>)
        requires
            self.wf(),
        ensures
            lists_entries(r@, self@),
    {
        let mut r: Vec<(String, Bang)> = Vec::new();
        let mut i: usize = 0;
        while i < self.keys.len()
            invariant
                self.wf(),
                i <= self.keys@.len(),
                r@.len() == i,
                forall|j: int| 0 <= j < i ==> #[trigger] r@[j].0@ == self.key(j) && r@[j].1@
                    == self.bangs@[j]@,
            decreases self.keys@.len() - i,
        {
            r.push((self.keys[i].clone(), self.bangs[i].clone()));
            i = i + 1;
        }
        proof {
            assert forall|k: Seq<char>| #[trigger] self@.contains_key(k) implies exists|a: int|
                0 <= a < r@.len() && r@[a].0@ == k by {
                let a = choose|a: int| 0 <= a < self.keys@.len() && self.key(a) == k;
                assert(r@[a].0@ == k);
            }
            assert forall|a: int, c: int|
                0 <= a < r@.len() && 0 <= c < r@.len() && a != c implies r@[a].0@ != r@[c].0@ by {
                assert(r@[a].0@ == self.key(a));
                assert(r@[c].0@ == self.key(c));
            }
            assert forall|a: int| 0 <= a < r@.len() implies #[trigger] self@.contains_key(r@[a].0@)
                && r@[a].1@ == self@[r@[a].0@] by {
                assert(r@[a].0@ == self.key(a));
            }
        }
        r
    }
}

} // verus!

verus! {

/// `r` lists every trigger of `m` once, each with its display name.
pub open spec fn lists_names(r: Seq<(String, String)>, m: Map<Seq<char>, BangView>) -> bool {
    &&& r.len() == m.len()
    &&& forall|i: int, j: int| 0 <= i < r.len() && 0 <= j < r.len() && i != j ==> r[i].0@ != r[j].0@
    &&& forall|i: int|
        0 <= i < r.len() ==> #[trigger] m.contains_key(r[i].0@) && r[i].1@ == m[r[i].0@].name
    &&& forall|k: Seq<char>| #[trigger]
        m.contains_key(k) ==> exists|i: int| 0 <= i < r.len() && r[i].0@ == k
}

/// Every bang once, as (trigger, display name) pairs, in no promised order.
pub fn get_all_bangs(bangs: &BangDirectory) -> (r: Vec<(String, String)>)
    requires
        bangs.wf(),
    ensures
        lists_names(r@, bangs@),
{
    let entries = bangs.entries();
    let mut r: Vec<(String, String)> = Vec::new();
    let mut i: usize = 0;
    while i < entries.len()
        invariant
            i <= entries@.len(),
            r@.len() == i,
            forall|j: int| 0 <= j < i ==> #[trigger] r@[j].0@ == entries@[j].0@ && r@[j].1@
                == entries@[j].1@.name,
        decreases entries@.len() - i,
    {
        let ghost before = r@;
        let pair = (entries[i].0.clone(), entries[i].1.name.clone());
        r.push(pair);
        proof {
            assert forall|j: int| 0 <= j < i + 1 implies #[trigger] r@[j].0@ == entries@[j].0@
                && r@[j].1@ == entries@[j].1@.name by {
                if j < i {
                    assert(r@[j] == before[j]);
                }
            }
        }
        i = i + 1;
    }
    proof {
        assert forall|k: Seq<char>| #[trigger] bangs@.contains_key(k) implies exists|a: int|
            0 <= a < r@.len() && r@[a].0@ == k by {
            let a = choose|a: int| 0 <= a < entries@.len() && entries@[a].0@ == k;
            assert(r@[a].0@ == k);
        }
        assert forall|a: int, c: int|
            0 <= a < r@.len() && 0 <= c < r@.len() && a != c implies r@[a].0@ != r@[c].0@ by {
            assert(r@[a].0@ == entries@[a].0@);
            assert(r@[c].0@ == entries@[c].0@);
        }
        assert forall|a: int| 0 <= a < r@.len() implies #[trigger] bangs@.contains_key(r@[a].0@)
            && r@[a].1@ == bangs@[r@[a].0@].name by {
            assert(r@[a].0@ == entries@[a].0@);
            assert(bangs@.contains_key(entries@[a].0@));
        }
    }
    r
}

} // verus!
