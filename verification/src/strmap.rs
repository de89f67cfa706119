use vstd::prelude::*;
use vstd::string::*;

verus! {

/// Compares two string slices by their character sequences.
pub fn str_eq(a: &str, b: &str) -> (r: bool)
    ensures
        r == (a@ == b@),
{
    let la = a.unicode_len();
    let lb = b.unicode_len();
    if la != lb {
        return false;
    }
    let mut i: usize = 0;
    while i < la
        invariant
            la == a@.len(),
            la == b@.len(),
            i <= la,
            forall|j: int| 0 <= j < i ==> a@[j] == b@[j],
        decreases la - i,
    {
        if a.get_char(i) != b.get_char(i) {
            return false;
        }
        i = i + 1;
    }
    proof {
        assert(a@ =~= b@);
    }
    true
}

/// The mapping described by an association list: later entries win.
pub open spec fn map_of<T>(es: Seq<(Seq<char>, T)>) -> Map<Seq<char>, T>
    decreases es.len(),
{
    if es.len() == 0 {
        Map::empty()
    } else {
        map_of(es.drop_last()).insert(es.last().0, es.last().1)
    }
}

pub proof fn lemma_map_of_dom<T>(es: Seq<(Seq<char>, T)>)
    ensures
        map_of(es).dom().finite(),
        forall|k: Seq<char>|
            map_of(es).contains_key(k) <==> (exists|i: int| 0 <= i < es.len() && es[i].0 == k),
    decreases es.len(),
{
    if es.len() == 0 {
    } else {
        lemma_map_of_dom(es.drop_last());
        assert forall|k: Seq<char>| map_of(es).contains_key(k) implies (exists|i: int|
            0 <= i < es.len() && es[i].0 == k) by {
            if k == es.last().0 {
                assert(es[es.len() - 1].0 == k);
            } else {
                let i = choose|i: int| 0 <= i < es.drop_last().len() && es.drop_last()[i].0 == k;
                assert(es[i].0 == k);
            }
        }
        assert forall|k: Seq<char>| (exists|i: int| 0 <= i < es.len() && es[i].0 == k) implies
            map_of(es).contains_key(k) by {
            let i = choose|i: int| 0 <= i < es.len() && es[i].0 == k;
            if i < es.len() - 1 {
                assert(es.drop_last()[i].0 == k);
            }
        }
    }
}

pub proof fn lemma_map_of_get<T>(es: Seq<(Seq<char>, T)>, i: int)
    requires
        0 <= i < es.len(),
        forall|i2: int, j: int| 0 <= i2 < j < es.len() ==> es[i2].0 != es[j].0,
    ensures
        map_of(es).contains_key(es[i].0),
        map_of(es)[es[i].0] == es[i].1,
    decreases es.len(),
{
    if i == es.len() - 1 {
    } else {
        assert(es.drop_last()[i] == es[i]);
        lemma_map_of_get(es.drop_last(), i);
        assert(es.last().0 != es[i].0);
    }
}

pub proof fn lemma_map_of_update<T>(es: Seq<(Seq<char>, T)>, i: int, p: (Seq<char>, T))
    requires
        0 <= i < es.len(),
        forall|i2: int, j: int| 0 <= i2 < j < es.len() ==> es[i2].0 != es[j].0,
        es[i].0 == p.0,
    ensures
        map_of(es.update(i, p)) == map_of(es).insert(p.0, p.1),
    decreases es.len(),
{
    let upd = es.update(i, p);
    if i == es.len() - 1 {
        assert(upd.drop_last() =~= es.drop_last());
        assert(map_of(upd) == map_of(es.drop_last()).insert(p.0, p.1));
        assert(map_of(es).insert(p.0, p.1) == map_of(es.drop_last()).insert(es.last().0,
            es.last().1).insert(p.0, p.1));
        assert(map_of(es.drop_last()).insert(p.0, p.1) =~= map_of(es.drop_last()).insert(
            es.last().0,
            es.last().1,
        ).insert(p.0, p.1));
    } else {
        assert(upd.drop_last() =~= es.drop_last().update(i, p));
        assert(es.drop_last()[i] == es[i]);
        lemma_map_of_update(es.drop_last(), i, p);
        assert(upd.last() == es.last());
        assert(es.last().0 != p.0);
        assert(map_of(upd) == map_of(es.drop_last()).insert(p.0, p.1).insert(es.last().0,
            es.last().1));
        assert(map_of(es.drop_last()).insert(p.0, p.1).insert(es.last().0, es.last().1)
            =~= map_of(es.drop_last()).insert(es.last().0, es.last().1).insert(p.0, p.1));
    }
}

/// An association list from string keys to values, keeping insertion order,
/// with unique keys once well-formed.
pub struct StrMap<V> {
    pub pairs: Vec<(String, V)>,
}

impl<V: DeepView> StrMap<V> {
    /// The entries in order, as mathematical values.
    pub open spec fn entries(&self) -> Seq<(Seq<char>, V::V)> {
        Seq::new(self.pairs@.len(), |i: int| (self.pairs@[i].0@, self.pairs@[i].1.deep_view()))
    }

    pub open spec fn spec_len(&self) -> nat {
        self.pairs@.len()
    }

    pub open spec fn key_at(&self, i: int) -> Seq<char> {
        self.pairs@[i].0@
    }

    pub open spec fn value_at(&self, i: int) -> V {
        self.pairs@[i].1
    }

    /// Well-formed: no key occurs twice.
    pub open spec fn wf(&self) -> bool {
        forall|i: int, j: int| 0 <= i < j < self.spec_len() ==> self.key_at(i) != self.key_at(j)
    }
}

impl<V: DeepView> View for StrMap<V> {
    type V = Map<Seq<char>, <V as DeepView>::V>;

    open spec fn view(&self) -> Map<Seq<char>, <V as DeepView>::V> {
        map_of(self.entries())
    }
}

impl<V: DeepView> StrMap<V> {
    pub fn new() -> (r: Self)
        ensures
            r@ == Map::<Seq<char>, <V as DeepView>::V>::empty(),
            r.spec_len() == 0,
            r.entries() == Seq::<(Seq<char>, <V as DeepView>::V)>::empty(),
            r.wf(),
    {
        let r = StrMap { pairs: Vec::new() };
        proof {
            assert(r.entries() =~= Seq::<(Seq<char>, <V as DeepView>::V)>::empty());
        }
        r
    }

    pub fn len(&self) -> (n: usize)
        ensures
            n == self.spec_len(),
    {
        self.pairs.len()
    }

    /// The entry at a position, for walking the map in order.
    pub fn pair_at(&self, i: usize) -> (r: (&String, &V))
        requires
            i < self.spec_len(),
        ensures
            r.0@ == self.key_at(i as int),
            *r.1 == self.value_at(i as int),
    {
        let p = &self.pairs[i];
        (&p.0, &p.1)
    }

    fn index_of(&self, k: &str) -> (r: Option<usize>)
        ensures
            match r {
                Some(i) => i < self.spec_len() && self.key_at(i as int) == k@,
                None => forall|i: int| 0 <= i < self.spec_len() ==> self.key_at(i) != k@,
            },
    {
        let n = self.pairs.len();
        let mut i: usize = 0;
        while i < n
            invariant
                n == self.spec_len(),
                i <= n,
                forall|j: int| 0 <= j < i ==> self.key_at(j) != k@,
            decreases n - i,
        {
            if str_eq(self.pairs[i].0.as_str(), k) {
                return Some(i);
            }
            i = i + 1;
        }
        None
    }

    pub fn contains_key(&self, k: &str) -> (r: bool)
        ensures
            r == self@.contains_key(k@),
    {
        proof {
            lemma_map_of_dom(self.entries());
        }
        match self.index_of(k) {
            Some(i) => {
                proof {
                    assert(self.entries()[i as int].0 == k@);
                }
                true
            },
            None => {
                proof {
                    assert forall|i: int|
                        0 <= i < self.entries().len() implies self.entries()[i].0 != k@ by {
                        assert(self.entries()[i].0 == self.key_at(i));
                    }
                }
                false
            },
        }
    }

    pub fn get(&self, k: &str) -> (r: Option<&V>)
        requires
            self.wf(),
        ensures
            match r {
                Some(v) => self@.contains_key(k@) && v.deep_view() == self@[k@] && (exists|i: int|
                    0 <= i < self.spec_len() && self.key_at(i) == k@ && *v == self.value_at(i)),
                None => !self@.contains_key(k@),
            },
    {
        proof {
            lemma_map_of_dom(self.entries());
        }
        match self.index_of(k) {
            Some(i) => {
                proof {
                    assert forall|i2: int, j: int|
                        0 <= i2 < j < self.entries().len() implies self.entries()[i2].0
                        != self.entries()[j].0 by {
                        assert(self.entries()[i2].0 == self.key_at(i2));
                        assert(self.entries()[j].0 == self.key_at(j));
                    }
                    lemma_map_of_get(self.entries(), i as int);
                    assert(self.entries()[i as int].0 == k@);
                }
                let r = &self.pairs[i].1;
                proof {
                    assert(self.key_at(i as int) == k@);
                    assert(*r == self.value_at(i as int));
                }
                Some(r)
            },
            None => {
                proof {
                    assert forall|i: int|
                        0 <= i < self.entries().len() implies self.entries()[i].0 != k@ by {
                        assert(self.entries()[i].0 == self.key_at(i));
                    }
                }
                None
            },
        }
    }

    /// Writes a value, replacing any existing entry for the key.
    pub fn insert(&mut self, k: String, v: V)
        requires
            old(self).wf(),
        ensures
            final(self).wf(),
            final(self)@ == old(self)@.insert(k@, v.deep_view()),
            !old(self)@.contains_key(k@) ==> final(self).entries() == old(self).entries().push(
                (k@, v.deep_view()),
            ),
    {
        let ghost old_entries = old(self).entries();
        let ghost kv = (k@, v.deep_view());
        proof {
            lemma_map_of_dom(old_entries);
        }
        match self.index_of(k.as_str()) {
            Some(i) => {
                proof {
                    assert forall|i2: int, j: int|
                        0 <= i2 < j < old_entries.len() implies old_entries[i2].0
                        != old_entries[j].0 by {
                        assert(old_entries[i2].0 == old(self).key_at(i2));
                        assert(old_entries[j].0 == old(self).key_at(j));
                    }
                    lemma_map_of_update(old_entries, i as int, kv);
                    assert(old_entries[i as int].0 == kv.0);
                    assert(old(self)@.contains_key(kv.0));
                }
                self.pairs.remove(i);
                self.pairs.insert(i, (k, v));
                proof {
                    assert(self.entries() =~= old_entries.update(i as int, kv)) by {
                        assert(self.pairs@.len() == old(self).pairs@.len());
                    }
                    assert forall|i2: int, j: int|
                        0 <= i2 < j < self.spec_len() implies self.key_at(i2) != self.key_at(
                        j,
                    ) by {
                        assert(old(self).key_at(i as int) == kv.0);
                        assert(self.key_at(i2) == old_entries.update(i as int, kv)[i2].0);
                        assert(self.key_at(j) == old_entries.update(i as int, kv)[j].0);
                        assert(old(self).key_at(i2) == old_entries[i2].0);
                        assert(old(self).key_at(j) == old_entries[j].0);
                    }
                }
            },
            None => {
                proof {
                    assert forall|i: int|
                        0 <= i < old_entries.len() implies old_entries[i].0 != kv.0 by {
                        assert(old_entries[i].0 == old(self).key_at(i));
                    }
                    assert(!old(self)@.contains_key(kv.0));
                }
                self.pairs.push((k, v));
                proof {
                    assert(self.entries() =~= old_entries.push(kv));
                    assert(old_entries.push(kv).drop_last() =~= old_entries);
                    assert(old_entries.push(kv).last() == kv);
                    assert forall|i2: int, j: int|
                        0 <= i2 < j < self.spec_len() implies self.key_at(i2) != self.key_at(
                        j,
                    ) by {
                        assert(self.key_at(i2) == self.entries()[i2].0);
                        assert(self.key_at(j) == self.entries()[j].0);
                        if j < old_entries.len() {
                            assert(self.entries()[i2].0 == old_entries[i2].0);
                            assert(self.entries()[j].0 == old_entries[j].0);
                            assert(old_entries[i2].0 == old(self).key_at(i2));
                            assert(old_entries[j].0 == old(self).key_at(j));
                        } else {
                            assert(self.entries()[j].0 == kv.0);
                            assert(self.entries()[i2].0 == old_entries[i2].0);
                        }
                    }
                }
            },
        }
    }


    /// Decides well-formedness: true exactly when no key occurs twice.
    pub fn keys_unique(&self) -> (r: bool)
        ensures
            r == self.wf(),
    {
        let n = self.pairs.len();
        let mut i: usize = 0;
        while i < n
            invariant
                n == self.spec_len(),
                i <= n,
                forall|a: int, b: int| 0 <= a < i && a < b < n ==> self.key_at(a) != self.key_at(b),
            decreases n - i,
        {
            let mut j: usize = i + 1;
            while j < n
                invariant
                    n == self.spec_len(),
                    i < n,
                    i + 1 <= j <= n,
                    forall|a: int, b: int|
                        0 <= a < i && a < b < n ==> self.key_at(a) != self.key_at(b),
                    forall|b: int| i < b < j ==> self.key_at(i as int) != self.key_at(b),
                decreases n - j,
            {
                if str_eq(self.pairs[i].0.as_str(), self.pairs[j].0.as_str()) {
                    proof {
                        assert(self.key_at(i as int) == self.key_at(j as int));
                        assert(!self.wf());
                    }
                    return false;
                }
                j = j + 1;
            }
            i = i + 1;
        }
        proof {
            assert forall|a: int, b: int|
                0 <= a < b < self.spec_len() implies self.key_at(a) != self.key_at(b) by {}
            assert(self.wf());
        }
        true
    }

    /// The keys in entry order.
    pub fn keys(&self) -> (r: Vec<String>)
        ensures
            r@.len() == self.spec_len(),
            forall|i: int| 0 <= i < self.spec_len() ==> #[trigger] r@[i]@ == self.key_at(i),
    {
        let n = self.pairs.len();
        let mut r: Vec<String> = Vec::new();
        let mut i: usize = 0;
        while i < n
            invariant
                n == self.spec_len(),
                i <= n,
                r@.len() == i,
                forall|j: int| 0 <= j < i ==> #[trigger] r@[j]@ == self.key_at(j),
            decreases n - i,
        {
            r.push(self.pairs[i].0.clone());
            i = i + 1;
        }
        r
    }
}

impl StrMap<String> {
    /// A copy with the same entries.
    pub fn duplicate(&self) -> (r: Self)
        ensures
            r.spec_len() == self.spec_len(),
            forall|i: int|
                0 <= i < self.spec_len() ==> r.key_at(i) == self.key_at(i) && r.value_at(i)
                    == self.value_at(i),
            r.entries() == self.entries(),
            r@ == self@,
            r.wf() <==> self.wf(),
    {
        let n = self.pairs.len();
        let mut pairs: Vec<(String, String)> = Vec::new();
        let mut i: usize = 0;
        while i < n
            invariant
                n == self.spec_len(),
                i <= n,
                pairs@.len() == i,
                forall|j: int| 0 <= j < i ==> pairs@[j] == self.pairs@[j],
            decreases n - i,
        {
            let p = &self.pairs[i];
            pairs.push((p.0.clone(), p.1.clone()));
            i = i + 1;
        }
        let r = StrMap { pairs };
        proof {
            assert(r.pairs@ =~= self.pairs@);
            assert(r.entries() =~= self.entries());
            assert forall|i: int|
                0 <= i < self.spec_len() implies r.key_at(i) == self.key_at(i) && r.value_at(i)
                == self.value_at(i) by {}
            if self.wf() {
                assert forall|i: int, j: int|
                    0 <= i < j < r.spec_len() implies r.key_at(i) != r.key_at(j) by {
                    assert(r.key_at(i) == self.key_at(i));
                    assert(r.key_at(j) == self.key_at(j));
                }
            }
            if r.wf() {
                assert forall|i: int, j: int|
                    0 <= i < j < self.spec_len() implies self.key_at(i) != self.key_at(j) by {
                    assert(r.key_at(i) == self.key_at(i));
                    assert(r.key_at(j) == self.key_at(j));
                }
            }
        }
        r
    }
}

} // verus!
