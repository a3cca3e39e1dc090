//! Maps keyed by names, in insertion order; a later entry for a name hides an
//! earlier one.
use vstd::prelude::*;

verus! {

/// The map that a list of entries denotes: the last entry for a name wins.
pub open spec fn assoc_view<V>(s: Seq<(String, V)>) -> Map<Seq<char>, V>
    decreases s.len(),
{
    if s.len() == 0 {
        Map::empty()
    } else {
        assoc_view(s.drop_last()).insert(s.last().0@, s.last().1)
    }
}

/// A map from names to values.
#[derive(Debug, PartialEq, Clone)]
pub struct NameMap<V> {
    entries: Vec<(String, V)>,
}

impl<V> NameMap<V> {
    /// The entries, in the order they were inserted.
    pub closed spec fn entries(&self) -> Seq<(String, V)> {
        self.entries@
    }
}

impl<V> View for NameMap<V> {
    type V = Map<Seq<char>, V>;

    open spec fn view(&self) -> Map<Seq<char>, V> {
        assoc_view(self.entries())
    }
}

/// Entering the entries of `s` one by one into a map gives the map updated by
/// all of `s`, later entries winning.
pub proof fn lemma_assoc_append<V>(s: Seq<(String, V)>, t: Seq<(String, V)>)
    ensures
        assoc_view(s + t) == assoc_view(s).union_prefer_right(assoc_view(t)),
    decreases t.len(),
{
    if t.len() == 0 {
        assert(s + t =~= s);
        assert(assoc_view(s).union_prefer_right(assoc_view(t)) =~= assoc_view(s));
    } else {
        lemma_assoc_append(s, t.drop_last());
        assert((s + t).drop_last() =~= s + t.drop_last());
        assert(assoc_view(s + t) =~= assoc_view(s).union_prefer_right(assoc_view(t)));
    }
}

impl<V> NameMap<V> {
    /// An empty map.
    pub fn new() -> (r: Self)
        ensures
            r@ == Map::<Seq<char>, V>::empty(),
            r.entries().len() == 0,
    {
        NameMap { entries: Vec::new() }
    }

    /// Binds `k` to `v`, hiding any earlier binding of `k`.
    pub fn insert(&mut self, k: String, v: V)
        ensures
            final(self)@ == old(self)@.insert(k@, v),
            final(self).entries() == old(self).entries().push((k, v)),
    {
        let ghost prev = self.entries@;
        self.entries.push((k, v));
        assert(self.entries@.drop_last() =~= prev);
    }

    /// The number of entries.
    pub fn len(&self) -> (r: usize)
        ensures
            r == self.entries().len(),
    {
        self.entries.len()
    }

    /// The entry at position `i`, in insertion order.
    pub fn entry(&self, i: usize) -> (r: &(String, V))
        requires
            i < self.entries().len(),
        ensures
            *r == self.entries()[i as int],
    {
        &self.entries[i]
    }

    /// The value bound to `k`, if any.
    pub fn get(&self, k: &String) -> (r: Option<&V>)
        ensures
            match r {
                Some(v) => self@.contains_key(k@) && *v == self@[k@],
                None => !self@.contains_key(k@),
            },
    {
        let mut i = self.entries.len();
        proof {
            let s = self.entries@;
            assert(s.take(s.len() as int) =~= s);
            assert(s.skip(s.len() as int) =~= Seq::<(String, V)>::empty());
            assert(assoc_view(s).union_prefer_right(Map::<Seq<char>, V>::empty()) =~= assoc_view(s));
        }
        while i > 0
            invariant
                i <= self.entries@.len(),
                assoc_view(self.entries@) == assoc_view(self.entries@.take(i as int)).union_prefer_right(
                    assoc_view(self.entries@.skip(i as int)),
                ),
                !assoc_view(self.entries@.skip(i as int)).contains_key(k@),
            decreases i,
        {
            let ghost s = self.entries@;
            proof {
                lemma_assoc_append(s.take(i - 1), s.skip(i - 1));
                assert(s.take(i - 1) + s.skip(i - 1) =~= s);
            }
            if self.entries[i - 1].0 == *k {
                proof {
                    assert(s.take(i as int).drop_last() =~= s.take(i - 1));
                    lemma_assoc_append(s.take(i as int), s.skip(i as int));
                    assert(s.take(i as int) + s.skip(i as int) =~= s);
                }
                return Some(&self.entries[i - 1].1);
            }
            proof {
                assert(s.skip(i - 1).drop_first() =~= s.skip(i as int));
                lemma_assoc_first(s.skip(i - 1));
            }
            i = i - 1;
        }
        assert(self.entries@.skip(0) =~= self.entries@);
        None
    }
}

/// A map built from its first entry and the rest: the rest wins over the first.
proof fn lemma_assoc_first<V>(s: Seq<(String, V)>)
    requires
        s.len() > 0,
    ensures
        assoc_view(s) == Map::<Seq<char>, V>::empty().insert(s[0].0@, s[0].1).union_prefer_right(
            assoc_view(s.drop_first()),
        ),
{
    let one = seq![s[0]];
    lemma_assoc_append(one, s.drop_first());
    assert(one + s.drop_first() =~= s);
    assert(one.drop_last() =~= Seq::<(String, V)>::empty());
    assert(assoc_view(Seq::<(String, V)>::empty()) == Map::<Seq<char>, V>::empty());
    assert(assoc_view(one) == Map::<Seq<char>, V>::empty().insert(s[0].0@, s[0].1));
}

impl NameMap<crate::type_check::ExprType> {
    /// A copy of the map, entry for entry.
    pub fn duplicate(&self) -> (r: Self)
        ensures
            r.entries() == self.entries(),
            r@ == self@,
    {
        let mut entries: Vec<(String, crate::type_check::ExprType)> = Vec::new();
        for i in 0..self.entries.len()
            invariant
                entries@ == self.entries@.take(i as int),
        {
            let (k, v) = &self.entries[i];
            entries.push((k.clone(), *v));
            assert(entries@ =~= self.entries@.take(i + 1));
        }
        assert(self.entries@.take(self.entries@.len() as int) =~= self.entries@);
        NameMap { entries }
    }
}

} // verus!
