use vstd::prelude::*;

verus! {

/// The map that a list of (name, value) pairs gives when each pair is entered
/// in turn: a later pair overwrites an earlier one with the same name.
pub open spec fn pairs_to_map(p: Seq<(Seq<char>, Seq<char>)>) -> Map<Seq<char>, Seq<char>>
    decreases p.len(),
{
    if p.len() == 0 {
        Map::empty()
    } else {
        pairs_to_map(p.drop_last()).insert(p.last().0, p.last().1)
    }
}

/// No two pairs share a name.
pub open spec fn names_unique(p: Seq<(Seq<char>, Seq<char>)>) -> bool {
    forall|i: int, j: int| 0 <= i < j < p.len() ==> p[i].0 != p[j].0
}

/// With distinct names, every pair's name maps to that pair's value.
pub proof fn lemma_present(p: Seq<(Seq<char>, Seq<char>)>, i: int)
    requires
        names_unique(p),
        0 <= i < p.len(),
    ensures
        pairs_to_map(p).contains_key(p[i].0),
        pairs_to_map(p)[p[i].0] == p[i].1,
    decreases p.len(),
{
    if i < p.len() - 1 {
        lemma_present(p.drop_last(), i);
    }
}

proof fn lemma_absent(p: Seq<(Seq<char>, Seq<char>)>, k: Seq<char>)
    requires
        forall|i: int| 0 <= i < p.len() ==> p[i].0 != k,
    ensures
        !pairs_to_map(p).contains_key(k),
    decreases p.len(),
{
    if p.len() > 0 {
        lemma_absent(p.drop_last(), k);
    }
}

/// Every name in the map is the name of some pair.
pub proof fn lemma_key_has_pair(p: Seq<(Seq<char>, Seq<char>)>, k: Seq<char>)
    requires
        pairs_to_map(p).contains_key(k),
    ensures
        exists|i: int| 0 <= i < p.len() && p[i].0 == k,
{
    if forall|i: int| 0 <= i < p.len() ==> p[i].0 != k {
        lemma_absent(p, k);
    }
}

proof fn lemma_overwrite(p: Seq<(Seq<char>, Seq<char>)>, i: int, v: Seq<char>)
    requires
        names_unique(p),
        0 <= i < p.len(),
    ensures
        pairs_to_map(p.update(i, (p[i].0, v))) == pairs_to_map(p).insert(p[i].0, v),
    decreases p.len(),
{
    let q = p.update(i, (p[i].0, v));
    if i == p.len() - 1 {
        assert(q.drop_last() =~= p.drop_last());
        assert(pairs_to_map(q) =~= pairs_to_map(p).insert(p[i].0, v));
    } else {
        lemma_overwrite(p.drop_last(), i, v);
        assert(q.drop_last() =~= p.drop_last().update(i, (p[i].0, v)));
        assert(pairs_to_map(q) =~= pairs_to_map(p).insert(p[i].0, v));
    }
}

/// A map from field names to values (request headers, query parameters,
/// response headers), kept as a list of pairs with distinct names.
pub struct FieldMap {
    entries: Vec<(String, String)>,
}

impl FieldMap {
    /// The pairs, in the order in which their names were first entered.
    pub closed spec fn pairs(&self) -> Seq<(Seq<char>, Seq<char>)> {
        self.entries@.map_values(|e: (String, String)| (e.0@, e.1@))
    }

    /// Well-formed: no two pairs share a name.
    pub open spec fn wf(&self) -> bool {
        names_unique(self.pairs())
    }
}

impl View for FieldMap {
    type V = Map<Seq<char>, Seq<char>>;

    open spec fn view(&self) -> Map<Seq<char>, Seq<char>> {
        pairs_to_map(self.pairs())
    }
}

impl FieldMap {
    /// An empty map.
    pub fn new() -> (r: FieldMap)
        ensures
            r.wf(),
            r.pairs() == Seq::<(Seq<char>, Seq<char>)>::empty(),
            r@ == Map::<Seq<char>, Seq<char>>::empty(),
    {
        let r = FieldMap { entries: Vec::new() };
        assert(r.pairs() =~= Seq::<(Seq<char>, Seq<char>)>::empty());
        r
    }

    /// The number of names in the map.
    pub fn len(&self) -> (r: usize)
        ensures
            r == self.pairs().len(),
    {
        self.entries.len()
    }

    /// The position of `key` among the pairs, if it is there.
    fn position(&self, key: &String) -> (r: Option<usize>)
        ensures
            r matches Some(i) ==> i < self.pairs().len() && self.pairs()[i as int].0 == key@,
            r is None ==> forall|i: int| 0 <= i < self.pairs().len() ==> self.pairs()[i].0 != key@,
    {
        let mut i: usize = 0;
        while i < self.entries.len()
            invariant
                i <= self.entries@.len(),
                forall|j: int| 0 <= j < i ==> self.pairs()[j].0 != key@,
            decreases self.entries@.len() - i,
        {
            if self.entries[i].0 == *key {
                return Some(i);
            }
            i = i + 1;
        }
        None
    }

    /// Sets `key` to `value`, replacing the value it had.
    pub fn insert(&mut self, key: String, value: String)
        requires
            old(self).wf(),
        ensures
            final(self).wf(),
            final(self)@ == old(self)@.insert(key@, value@),
            old(self)@.contains_key(key@) ==> exists|i: int|
                0 <= i < old(self).pairs().len() && old(self).pairs()[i].0 == key@ && final(self).pairs() == #[trigger] old(self).pairs().update(i, (key@, value@)),
            !old(self)@.contains_key(key@) ==> final(self).pairs() == old(self).pairs().push(
                (key@, value@),
            ),
    {
        match self.position(&key) {
            Some(i) => {
                proof {
                    lemma_overwrite(self.pairs(), i as int, value@);
                    lemma_present(self.pairs(), i as int);
                }
                let ghost before = self.pairs();
                self.entries.set(i, (key, value));
                assert(self.pairs() =~= before.update(i as int, (before[i as int].0, value@)));
                assert(self.pairs() == before.update(i as int, (key@, value@)));
                assert(names_unique(self.pairs()));
            },
            None => {
                proof {
                    lemma_absent(self.pairs(), key@);
                }
                let ghost before = self.pairs();
                self.entries.push((key, value));
                assert(self.pairs() =~= before.push((key@, value@)));
                assert(self.pairs().drop_last() =~= before);
                assert(names_unique(self.pairs()));
            },
        }
    }

    /// The value of `key`, if it is in the map.
    pub fn get(&self, key: &str) -> (r: Option<&str>)
        requires
            self.wf(),
        ensures
            r matches Some(v) ==> self@.contains_key(key@) && self@[key@] == v@,
            r is None ==> !self@.contains_key(key@),
    {
        let k = key.to_owned();
        match self.position(&k) {
            Some(i) => {
                proof {
                    lemma_present(self.pairs(), i as int);
                }
                Some(self.entries[i].1.as_str())
            },
            None => {
                proof {
                    lemma_absent(self.pairs(), key@);
                }
                None
            },
        }
    }

    /// The name and value of the `i`-th pair.
    pub fn pair_at(&self, i: usize) -> (r: (&str, &str))
        requires
            i < self.pairs().len(),
        ensures
            r.0@ == self.pairs()[i as int].0,
            r.1@ == self.pairs()[i as int].1,
    {
        (self.entries[i].0.as_str(), self.entries[i].1.as_str())
    }
}

} // verus!
