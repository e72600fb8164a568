//! An ordered map from text to values.
//!
//! The daemons list things by name, always in the same order: paths of the state
//! mirror, addresses on a network. The entries are kept sorted by key, character
//! by character.
use crate::text::{same, to_chars};
use vstd::prelude::*;

verus! {

/// Lexicographic order, character by character; a prefix comes first.
pub open spec fn text_lt(a: Seq<char>, b: Seq<char>) -> bool
    decreases a.len(),
{
    if b.len() == 0 {
        false
    } else if a.len() == 0 {
        true
    } else if a[0] != b[0] {
        a[0] < b[0]
    } else {
        text_lt(a.skip(1), b.skip(1))
    }
}

pub proof fn lemma_lt_irreflexive(a: Seq<char>)
    ensures
        !text_lt(a, a),
    decreases a.len(),
{
    if a.len() > 0 {
        lemma_lt_irreflexive(a.skip(1));
    }
}

pub proof fn lemma_lt_transitive(a: Seq<char>, b: Seq<char>, c: Seq<char>)
    requires
        text_lt(a, b),
        text_lt(b, c),
    ensures
        text_lt(a, c),
    decreases a.len(),
{
    if a.len() > 0 && a[0] == b[0] && b[0] == c[0] {
        lemma_lt_transitive(a.skip(1), b.skip(1), c.skip(1));
    }
}

pub proof fn lemma_lt_total(a: Seq<char>, b: Seq<char>)
    ensures
        text_lt(a, b) || text_lt(b, a) || a == b,
    decreases a.len(),
{
    if a.len() == 0 {
        if b.len() == 0 {
            assert(a =~= b);
        }
    } else if b.len() > 0 && a[0] == b[0] {
        lemma_lt_total(a.skip(1), b.skip(1));
        if a.skip(1) == b.skip(1) {
            assert(seq![a[0]] + a.skip(1) =~= a);
            assert(seq![b[0]] + b.skip(1) =~= b);
        }
    }
}

/// Does one text come before the other?
pub fn before(a: &str, b: &str) -> (r: bool)
    ensures
        r == text_lt(a@, b@),
{
    let x = to_chars(a);
    let y = to_chars(b);
    let mut i: usize = 0;
    assert(x@.skip(0) =~= x@);
    assert(y@.skip(0) =~= y@);
    loop
        invariant
            i <= x@.len(),
            i <= y@.len(),
            x@ == a@,
            y@ == b@,
            text_lt(a@, b@) == text_lt(x@.skip(i as int), y@.skip(i as int)),
        decreases x@.len() - i,
    {
        if i >= y.len() {
            return false;
        }
        if i >= x.len() {
            return true;
        }
        assert(x@.skip(i as int)[0] == x@[i as int]);
        assert(y@.skip(i as int)[0] == y@[i as int]);
        if x[i] != y[i] {
            return x[i] < y[i];
        }
        assert(x@.skip(i as int).skip(1) =~= x@.skip(i + 1));
        assert(y@.skip(i as int).skip(1) =~= y@.skip(i + 1));
        i += 1;
    }
}

/// A map from text to values, kept in key order.
#[derive(Debug)]
pub struct TextMap<V> {
    items: Vec<(String, V)>,
}

impl<V> TextMap<V> {
    /// The keys, in order.
    pub closed spec fn keys(&self) -> Seq<Seq<char>> {
        self.items@.map_values(|p: (String, V)| p.0@)
    }

    /// The value at each place of the order.
    pub closed spec fn values(&self) -> Seq<V> {
        self.items@.map_values(|p: (String, V)| p.1)
    }

    /// The keys are strictly increasing.
    pub open spec fn wf(&self) -> bool {
        &&& self.keys().len() == self.values().len()
        &&& forall|i: int, j: int|
            0 <= i < j < self.keys().len() ==> text_lt(#[trigger] self.keys()[i], #[trigger] self.keys()[j])
    }
}

impl<V> View for TextMap<V> {
    type V = Map<Seq<char>, V>;

    open spec fn view(&self) -> Map<Seq<char>, V> {
        Map::new(
            |k: Seq<char>| self.keys().contains(k),
            |k: Seq<char>| self.values()[self.keys().index_of(k)],
        )
    }
}

proof fn lemma_keys_distinct<V>(m: &TextMap<V>, i: int, j: int)
    requires
        m.wf(),
        0 <= i < m.keys().len(),
        0 <= j < m.keys().len(),
        m.keys()[i] == m.keys()[j],
    ensures
        i == j,
{
    if i < j {
        lemma_lt_irreflexive(m.keys()[i]);
    } else if j < i {
        lemma_lt_irreflexive(m.keys()[i]);
    }
}

/// The value at the place of a key is the map's value for it.
pub proof fn lemma_at<V>(m: &TextMap<V>, i: int)
    requires
        m.wf(),
        0 <= i < m.keys().len(),
    ensures
        m@.dom().contains(m.keys()[i]),
        m@[m.keys()[i]] == m.values()[i],
{
    let k = m.keys()[i];
    assert(m.keys().contains(k));
    let j = m.keys().index_of(k);
    assert(m.keys()[j] == k);
    lemma_keys_distinct(m, i, j);
}

impl<V> TextMap<V> {
    pub fn new() -> (r: TextMap<V>)
        ensures
            r.wf(),
            r@ == Map::<Seq<char>, V>::empty(),
            r.keys().len() == 0,
    {
        let r = TextMap { items: Vec::new() };
        assert(r@ =~= Map::empty());
        r
    }

    pub fn len(&self) -> (r: usize)
        requires
            self.wf(),
        ensures
            r == self.keys().len(),
    {
        self.items.len()
    }

    /// The key at a place of the order.
    pub fn key_at(&self, i: usize) -> (r: &str)
        requires
            self.wf(),
            i < self.keys().len(),
        ensures
            r@ == self.keys()[i as int],
            self@.dom().contains(r@),
    {
        proof {
            lemma_at(self, i as int);
        }
        self.items[i].0.as_str()
    }

    /// The value at a place of the order.
    pub fn value_at(&self, i: usize) -> (r: &V)
        requires
            self.wf(),
            i < self.keys().len(),
        ensures
            *r == self.values()[i as int],
            *r == self@[self.keys()[i as int]],
    {
        proof {
            lemma_at(self, i as int);
        }
        &self.items[i].1
    }

    /// Where a key is, or where it would go.
    fn place(&self, key: &str) -> (r: (usize, bool))
        requires
            self.wf(),
        ensures
            r.0 <= self.keys().len(),
            forall|k: int| 0 <= k < r.0 ==> text_lt(#[trigger] self.keys()[k], key@),
            r.1 ==> r.0 < self.keys().len() && self.keys()[r.0 as int] == key@,
            !r.1 ==> forall|k: int| r.0 <= k < self.keys().len() ==> text_lt(key@, #[trigger] self.keys()[k]),
    {
        let mut i: usize = 0;
        while i < self.items.len()
            invariant
                i <= self.items@.len(),
                self.items@.len() == self.keys().len(),
                self.wf(),
                forall|k: int| 0 <= k < i ==> text_lt(#[trigger] self.keys()[k], key@),
            decreases self.items@.len() - i,
        {
            assert(self.keys()[i as int] == self.items@[i as int].0@);
            if !before(self.items[i].0.as_str(), key) {
                if same(self.items[i].0.as_str(), key) {
                    return (i, true);
                }
                proof {
                    lemma_lt_total(self.keys()[i as int], key@);
                    assert forall|k: int| i <= k < self.keys().len() implies text_lt(
                        key@,
                        #[trigger] self.keys()[k],
                    ) by {
                        if k > i {
                            lemma_lt_transitive(key@, self.keys()[i as int], self.keys()[k]);
                        }
                    }
                }
                return (i, false);
            }
            i += 1;
        }
        (i, false)
    }

    pub fn get(&self, key: &str) -> (r: Option<&V>)
        requires
            self.wf(),
        ensures
            match r {
                Some(v) => self@.dom().contains(key@) && *v == self@[key@],
                None => !self@.dom().contains(key@),
            },
    {
        let (i, found) = self.place(key);
        if found {
            proof {
                lemma_at(self, i as int);
            }
            Some(&self.items[i].1)
        } else {
            proof {
                if self.keys().contains(key@) {
                    let k = choose|k: int| 0 <= k < self.keys().len() && self.keys()[k] == key@;
                    lemma_lt_irreflexive(key@);
                }
            }
            None
        }
    }

    pub fn contains_key(&self, key: &str) -> (r: bool)
        requires
            self.wf(),
        ensures
            r == self@.dom().contains(key@),
    {
        self.get(key).is_some()
    }

    /// Give a key a value, in place of the one it had.
    pub fn insert(&mut self, key: String, value: V)
        requires
            old(self).wf(),
        ensures
            final(self).wf(),
            final(self)@ == old(self)@.insert(key@, value),
    {
        let (i, found) = self.place(key.as_str());
        let ghost k = key@;
        let ghost was = *self;
        if found {
            self.items.set(i, (key, value));
            assert(self.keys() =~= was.keys());
            assert(self.values() =~= was.values().update(i as int, value));
        } else {
            self.items.insert(i, (key, value));
            assert(self.keys() =~= was.keys().insert(i as int, k));
            assert(self.values() =~= was.values().insert(i as int, value));
        }
        proof {
            lemma_inserted(&was, &*self, i as int, k, value, found);
        }
    }
}

proof fn lemma_inserted<V>(was: &TextMap<V>, now: &TextMap<V>, i: int, k: Seq<char>, value: V, found: bool)
    requires
        was.wf(),
        0 <= i <= was.keys().len(),
        forall|j: int| 0 <= j < i ==> text_lt(#[trigger] was.keys()[j], k),
        found ==> i < was.keys().len() && was.keys()[i] == k && now.keys() == was.keys() && now.values()
            == was.values().update(i, value),
        !found ==> now.keys() == was.keys().insert(i, k) && now.values() == was.values().insert(i, value)
            && forall|j: int| i <= j < was.keys().len() ==> text_lt(k, #[trigger] was.keys()[j]),
    ensures
        now.wf(),
        now@ == was@.insert(k, value),
{
    if !found {
        assert forall|a: int, b: int| 0 <= a < b < now.keys().len() implies text_lt(
            #[trigger] now.keys()[a],
            #[trigger] now.keys()[b],
        ) by {
            let x = if a < i { a } else { a - 1 };
            let y = if b < i { b } else { b - 1 };
            if a != i {
                assert(now.keys()[a] == was.keys()[x]);
            }
            if b != i {
                assert(now.keys()[b] == was.keys()[y]);
            }
        }
    }
    assert(now.wf());
    assert(now.keys()[i] == k);
    lemma_at(now, i);
    assert forall|q: Seq<char>| now@.dom().contains(q) == was@.insert(k, value).dom().contains(q) by {
        if was.keys().contains(q) {
            let j = choose|j: int| 0 <= j < was.keys().len() && was.keys()[j] == q;
            let n = if found || j < i { j } else { j + 1 };
            assert(now.keys()[n] == q);
        }
        if now.keys().contains(q) {
            let n = choose|n: int| 0 <= n < now.keys().len() && now.keys()[n] == q;
            if n != i {
                let j = if found || n < i { n } else { n - 1 };
                assert(was.keys()[j] == q);
            }
        }
    }
    assert forall|q: Seq<char>| now@.dom().contains(q) implies now@[q] == was@.insert(k, value)[q] by {
        let n = choose|n: int| 0 <= n < now.keys().len() && now.keys()[n] == q;
        lemma_at(now, n);
        if q != k {
            let j = if found || n < i { n } else { n - 1 };
            assert(was.keys()[j] == q);
            lemma_at(was, j);
            assert(now.values()[n] == was.values()[j]);
        }
    }
    assert(now@ =~= was@.insert(k, value));
}

} // verus!
