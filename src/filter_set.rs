use vstd::prelude::*;

verus! {

/// A filter factory under the name it is registered by.
pub struct NamedFactory<F> {
    pub name: String,
    pub factory: F,
}

/// The factories of `s` keyed by name: where two share a name, the later one
/// wins.
pub open spec fn by_name<F>(s: Seq<NamedFactory<F>>) -> Map<Seq<char>, NamedFactory<F>>
    decreases s.len(),
{
    if s.len() == 0 {
        Map::empty()
    } else {
        by_name(s.drop_last()).insert(s.last().name@, s.last())
    }
}

/// No two factories of `s` share a name.
pub open spec fn names_unique<F>(s: Seq<NamedFactory<F>>) -> bool {
    forall|i: int, j: int|
        0 <= i < j < s.len() ==> (#[trigger] s[i]).name@ != (#[trigger] s[j]).name@
}

proof fn lemma_by_name_update<F>(s: Seq<NamedFactory<F>>, k: int, f: NamedFactory<F>)
    requires
        names_unique(s),
        0 <= k < s.len(),
        s[k].name@ == f.name@,
    ensures
        by_name(s.update(k, f)) == by_name(s).insert(f.name@, f),
    decreases s.len(),
{
    let t = s.update(k, f);
    if k == s.len() - 1 {
        assert(t.drop_last() =~= s.drop_last());
        assert(by_name(t) =~= by_name(s).insert(f.name@, f));
    } else {
        let d = s.drop_last();
        assert(t.drop_last() =~= d.update(k, f));
        assert(names_unique(d)) by {
            assert forall|i: int, j: int| 0 <= i < j < d.len() implies (#[trigger] d[i]).name@
                != (#[trigger] d[j]).name@ by {
                assert(s[i] == d[i] && s[j] == d[j]);
            }
        }
        lemma_by_name_update(d, k, f);
        assert(s[k].name@ != s[s.len() - 1].name@);
        assert(by_name(t) =~= by_name(s).insert(f.name@, f));
    }
}

proof fn lemma_by_name_concat<F>(a: Seq<NamedFactory<F>>, b: Seq<NamedFactory<F>>, n: Seq<char>)
    ensures
        by_name(b).contains_key(n) ==> by_name(a + b).contains_key(n) && by_name(a + b)[n]
            == by_name(b)[n],
        !by_name(b).contains_key(n) ==> (by_name(a + b).contains_key(n) == by_name(a).contains_key(
            n)) && (by_name(a).contains_key(n) ==> by_name(a + b)[n] == by_name(a)[n]),
    decreases b.len(),
{
    if b.len() == 0 {
        assert(a + b =~= a);
    } else {
        let d = b.drop_last();
        assert((a + b).drop_last() =~= a + d);
        assert((a + b).last() == b.last());
        lemma_by_name_concat(a, d, n);
    }
}

/// Override by name: in a set of defaults and then `filters`, the factory
/// registered under a name is the last of `filters` with that name where there
/// is one, and otherwise the last default with that name.
pub proof fn filters_override_defaults<F>(
    defaults: Seq<NamedFactory<F>>,
    filters: Seq<NamedFactory<F>>,
    name: Seq<char>,
)
    ensures
        by_name(filters).contains_key(name) ==> by_name(defaults + filters)[name] == by_name(
            filters,
        )[name],
        !by_name(filters).contains_key(name) ==> by_name(defaults + filters).contains_key(name)
            == by_name(defaults).contains_key(name),
        !by_name(filters).contains_key(name) && by_name(defaults).contains_key(name) ==> by_name(
            defaults + filters,
        )[name] == by_name(defaults)[name],
{
    lemma_by_name_concat(defaults, filters, name);
}

/// A set of filter factories, at most one per name.
pub struct FilterSet<F> {
    factories: Vec<NamedFactory<F>>,
}

impl<F> FilterSet<F> {
    /// The factories held, in the order they were first named.
    pub closed spec fn entries(self) -> Seq<NamedFactory<F>> {
        self.factories@
    }

    /// The factories held, keyed by name.
    pub open spec fn spec_map(self) -> Map<Seq<char>, NamedFactory<F>> {
        by_name(self.entries())
    }

    /// Whether no two factories held share a name.
    pub open spec fn well_formed(self) -> bool {
        names_unique(self.entries())
    }

    /// A set of exactly `filters`, with no defaults: where two share a name,
    /// the later one is kept.
    pub fn with(filters: Vec<NamedFactory<F>>) -> (r: FilterSet<F>)
        ensures
            r.well_formed(),
            r.spec_map() == by_name(filters@),
    {
        let ghost all = filters@;
        let mut rest = filters;
        let n = rest.len();
        let mut set: Vec<NamedFactory<F>> = Vec::new();
        let mut i: usize = 0;
        while rest.len() > 0
            invariant
                i <= all.len(),
                all.len() == n,
                rest@ == all.subrange(i as int, all.len() as int),
                names_unique(set@),
                by_name(set@) == by_name(all.subrange(0, i as int)),
            decreases rest@.len(),
        {
            let f = rest.remove(0);
            proof {
                assert(f == all[i as int]);
                assert(all.subrange(0, i + 1).drop_last() =~= all.subrange(0, i as int));
                assert(rest@ =~= all.subrange(i + 1, all.len() as int));
            }
            let mut k: usize = 0;
            let mut found = false;
            while k < set.len() && !found
                invariant
                    k <= set@.len(),
                    found ==> k < set@.len() && set@[k as int].name@ == f.name@,
                    !found ==> forall|j: int| 0 <= j < k ==> (#[trigger] set@[j]).name@ != f.name@,
                decreases set@.len() - k, if found { 0int } else { 1int },
            {
                if set[k].name == f.name {
                    found = true;
                } else {
                    k = k + 1;
                }
            }
            if found {
                proof {
                    lemma_by_name_update(set@, k as int, f);
                }
                let ghost before = set@;
                set.set(k, f);
                proof {
                    assert forall|a: int, b: int| 0 <= a < b < set@.len() implies (
                    #[trigger] set@[a]).name@ != (#[trigger] set@[b]).name@ by {
                        assert(before[a].name@ != before[b].name@);
                    }
                }
            } else {
                let ghost before = set@;
                set.push(f);
                proof {
                    assert(set@.drop_last() =~= before);
                    assert forall|a: int, b: int| 0 <= a < b < set@.len() implies (
                    #[trigger] set@[a]).name@ != (#[trigger] set@[b]).name@ by {
                        if b < before.len() {
                            assert(before[a].name@ != before[b].name@);
                        }
                    }
                }
            }
            i = i + 1;
        }
        proof {
            assert(all.subrange(0, i as int) =~= all);
        }
        FilterSet { factories: set }
    }

    /// A set of `defaults` and then `filters`: a factory of `filters` replaces
    /// any default of the same name.
    pub fn default_with(defaults: Vec<NamedFactory<F>>, filters: Vec<NamedFactory<F>>) -> (r:
        FilterSet<F>)
        ensures
            r.well_formed(),
            r.spec_map() == by_name(defaults@ + filters@),
    {
        let mut all = defaults;
        let mut rest = filters;
        all.append(&mut rest);
        FilterSet::with(all)
    }

    /// The number of factories held.
    pub fn len(&self) -> (r: usize)
        ensures
            r == self.entries().len(),
    {
        self.factories.len()
    }

    /// Hands out the factories, in the order they were first named.
    pub fn into_iter(self) -> (r: IntoIter<F>)
        ensures
            r@ == self.entries(),
    {
        IntoIter { inner: self.factories }
    }
}

/// Hands out the factories of a [`FilterSet`] one at a time.
pub struct IntoIter<F> {
    inner: Vec<NamedFactory<F>>,
}

impl<F> View for IntoIter<F> {
    type V = Seq<NamedFactory<F>>;

    closed spec fn view(&self) -> Seq<NamedFactory<F>> {
        self.inner@
    }
}

impl<F> IntoIter<F> {
    /// The next factory, or `None` when all have been handed out.
    pub fn next(&mut self) -> (r: Option<NamedFactory<F>>)
        ensures
            old(self)@.len() == 0 ==> r is None && final(self)@ == old(self)@,
            old(self)@.len() > 0 ==> r == Some(old(self)@[0]) && final(self)@ == old(self)@.drop_first(),
    {
        if self.inner.len() == 0 {
            None
        } else {
            let f = self.inner.remove(0);
            proof {
                assert(self.inner@ =~= old(self)@.drop_first());
            }
            Some(f)
        }
    }
}

} // verus!
