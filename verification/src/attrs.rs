//! Attribute and style collections for markup elements: small maps from
//! property names to values, written once per element.  The text they are
//! eventually printed as belongs to the surrounding program's templating.
use vstd::prelude::*;
use vstd::string::StringExecFns;

verus! {

/// The map a list of name / value entries stands for; a later entry for the
/// same name wins.
pub open spec fn entries_map(entries: Seq<(&'static str, String)>) -> Map<Seq<char>, Seq<char>>
    decreases entries.len(),
{
    if entries.len() == 0 {
        Map::empty()
    } else {
        entries_map(entries.drop_last()).insert(entries.last().0@, entries.last().1@)
    }
}

/// Whether the entries carry pairwise distinct names.
pub open spec fn entries_unique(entries: Seq<(&'static str, String)>) -> bool {
    forall|i: int, j: int|
        0 <= i < j < entries.len() ==> #[trigger] entries[i].0@ != #[trigger] entries[j].0@
}

/// The names of the entries, as a set.
pub open spec fn entries_keys(entries: Seq<(&'static str, String)>) -> Set<Seq<char>> {
    Set::new(|k: Seq<char>| exists|i: int| 0 <= i < entries.len() && entries[i].0@ == k)
}

/// The map's domain is exactly the set of entry names.
proof fn lemma_entries_map_dom(entries: Seq<(&'static str, String)>)
    ensures
        entries_map(entries).dom() =~= entries_keys(entries),
    decreases entries.len(),
{
    if entries.len() > 0 {
        lemma_entries_map_dom(entries.drop_last());
        assert forall|k: Seq<char>| entries_keys(entries).contains(k) implies entries_map(
            entries,
        ).dom().contains(k) by {
            let i = choose|i: int| 0 <= i < entries.len() && entries[i].0@ == k;
            if i < entries.len() - 1 {
                assert(entries.drop_last()[i].0@ == k);
                assert(entries_keys(entries.drop_last()).contains(k));
            }
        }
        assert forall|k: Seq<char>| entries_map(entries).dom().contains(k) implies entries_keys(
            entries,
        ).contains(k) by {
            if k != entries.last().0@ {
                assert(entries_keys(entries.drop_last()).contains(k));
                let i = choose|i: int|
                    0 <= i < entries.drop_last().len() && entries.drop_last()[i].0@ == k;
                assert(entries[i].0@ == k);
            } else {
                assert(entries[entries.len() - 1].0@ == k);
            }
        }
    }
}

/// With pairwise distinct names, the map holds exactly as many entries as
/// the list.
proof fn lemma_entries_map_len(entries: Seq<(&'static str, String)>)
    requires
        entries_unique(entries),
    ensures
        entries_map(entries).dom().finite(),
        entries_map(entries).dom().len() == entries.len(),
    decreases entries.len(),
{
    if entries.len() > 0 {
        let rest = entries.drop_last();
        assert(entries_unique(rest)) by {
            assert(forall|i: int, j: int|
                0 <= i < j < rest.len() ==> #[trigger] rest[i].0@ != #[trigger] rest[j].0@) by {
                assert(forall|i: int| 0 <= i < rest.len() ==> rest[i] == entries[i]);
            }
        }
        lemma_entries_map_len(rest);
        lemma_entries_map_dom(rest);
        let k = entries.last().0@;
        assert(!entries_map(rest).dom().contains(k)) by {
            if entries_keys(rest).contains(k) {
                let i = choose|i: int| 0 <= i < rest.len() && rest[i].0@ == k;
                assert(entries[i].0@ == entries[entries.len() - 1].0@);
            }
        }
        assert(entries_map(entries).dom() =~= entries_map(rest).dom().insert(k));
    }
}

/// A set of attributes for one markup element.
pub struct AttributeSet {
    entries: Vec<(&'static str, String)>,
}

/// A set of style properties for one markup element.
pub struct StyleSet {
    entries: Vec<(&'static str, String)>,
}

/// Replaces the entry carrying the given name, or appends one.
fn set_entry(entries: &mut Vec<(&'static str, String)>, name: &'static str, value: String)
    requires
        entries_unique(old(entries)@),
    ensures
        entries_unique(final(entries)@),
        entries_map(final(entries)@) == entries_map(old(entries)@).insert(name@, value@),
        final(entries)@.len() == entries_map(final(entries)@).dom().len(),
{
    let n = entries.len();
    let mut k: usize = 0;
    loop
        invariant
            0 <= k <= n,
            n == entries@.len(),
            entries@ == old(entries)@,
            entries_unique(entries@),
            forall|m: int| 0 <= m < k ==> #[trigger] entries@[m].0@ != name@,
        ensures
            n == entries@.len(),
            entries@ == old(entries)@,
            entries_unique(entries@),
            forall|m: int| 0 <= m < n ==> #[trigger] entries@[m].0@ != name@,
        decreases n - k,
    {
        if k == n {
            break ;
        }
        let found = String::from_str(entries[k].0).eq(&String::from_str(name));
        if found {
            entries.set(k, (name, value));
            proof {
                lemma_set_entry_replace(old(entries)@, entries@, k as int, name, value);
                lemma_entries_map_len(entries@);
            }
            return ;
        }
        k = k + 1;
    }
    entries.push((name, value));
    proof {
        assert(entries@.drop_last() =~= old(entries)@);
        assert(entries_unique(entries@));
        lemma_entries_map_len(entries@);
    }
}

/// Replacing the value at the position that carries a name maps to inserting
/// that name.
proof fn lemma_set_entry_replace(
    before: Seq<(&'static str, String)>,
    after: Seq<(&'static str, String)>,
    at: int,
    name: &'static str,
    value: String,
)
    requires
        entries_unique(before),
        0 <= at < before.len(),
        before[at].0@ == name@,
        after == before.update(at, (name, value)),
    ensures
        entries_unique(after),
        entries_map(after) == entries_map(before).insert(name@, value@),
    decreases before.len(),
{
    assert(entries_unique(after)) by {
        assert(forall|i: int|
            0 <= i < after.len() && i != at ==> #[trigger] after[i].0@ == before[i].0@);
        assert(after[at].0@ == before[at].0@);
    }
    if at == before.len() - 1 {
        assert(after.drop_last() =~= before.drop_last());
        assert(entries_map(after) =~= entries_map(before).insert(name@, value@));
    } else {
        assert(after.drop_last() =~= before.drop_last().update(at, (name, value)));
        assert(entries_unique(before.drop_last())) by {
            assert(forall|i: int|
                0 <= i < before.drop_last().len() ==> before.drop_last()[i] == before[i]);
        }
        lemma_set_entry_replace(
            before.drop_last(),
            after.drop_last(),
            at,
            name,
            value,
        );
        assert(after.last() == before.last());
        assert(before.last().0@ != name@);
        assert(entries_map(after) =~= entries_map(before).insert(name@, value@));
    }
}

impl AttributeSet {
    /// The attributes as a map from names to values.
    pub closed spec fn view(&self) -> Map<Seq<char>, Seq<char>> {
        entries_map(self.entries@)
    }

    /// An empty attribute set.
    pub fn new() -> (r: AttributeSet)
        ensures
            r.wf(),
            r@ == Map::<Seq<char>, Seq<char>>::empty(),
    {
        AttributeSet { entries: Vec::new() }
    }

    /// Sets one attribute, replacing any earlier value for its name.
    pub fn set(&mut self, attribute: &'static str, value: String)
        requires
            old(self).wf(),
        ensures
            final(self).wf(),
            final(self)@ == old(self)@.insert(attribute@, value@),
    {
        set_entry(&mut self.entries, attribute, value);
    }

    /// The attribute names are pairwise distinct; every attribute set built
    /// by its own operations is well-formed.
    pub closed spec fn wf(&self) -> bool {
        entries_unique(self.entries@)
    }
}

impl StyleSet {
    /// The style properties as a map from names to values.
    pub closed spec fn view(&self) -> Map<Seq<char>, Seq<char>> {
        entries_map(self.entries@)
    }

    /// An empty style set.
    pub fn new() -> (r: StyleSet)
        ensures
            r.wf(),
            r@ == Map::<Seq<char>, Seq<char>>::empty(),
    {
        StyleSet { entries: Vec::new() }
    }

    /// Sets one style property, replacing any earlier value for its name.
    pub fn set(&mut self, prop: &'static str, value: String)
        requires
            old(self).wf(),
        ensures
            final(self).wf(),
            final(self)@ == old(self)@.insert(prop@, value@),
    {
        set_entry(&mut self.entries, prop, value);
    }

    /// Adds every property of the other set, the other set's values winning
    /// on shared names.
    pub fn extend(&mut self, other: StyleSet)
        requires
            old(self).wf(),
        ensures
            final(self).wf(),
            final(self)@ == old(self)@.union_prefer_right(other@),
    {
        let mut k: usize = 0;
        let n = other.entries.len();
        proof {
            assert(other.entries@.subrange(0, 0) =~= Seq::<(&'static str, String)>::empty());
            assert(self@ =~= old(self)@.union_prefer_right(
                entries_map(other.entries@.subrange(0, 0)),
            ));
        }
        while k < n
            invariant
                0 <= k <= n,
                n == other.entries@.len(),
                entries_unique(self.entries@),
                self@ == old(self)@.union_prefer_right(
                    entries_map(other.entries@.subrange(0, k as int)),
                ),
            decreases n - k,
        {
            let name = other.entries[k].0;
            let value = other.entries[k].1.clone();
            set_entry(&mut self.entries, name, value);
            proof {
                let taken = other.entries@.subrange(0, k + 1);
                assert(taken.drop_last() =~= other.entries@.subrange(0, k as int));
                assert(taken.last() == other.entries@[k as int]);
                assert(self@ =~= old(self)@.union_prefer_right(entries_map(taken)));
            }
            k = k + 1;
        }
        proof {
            assert(other.entries@.subrange(0, n as int) =~= other.entries@);
        }
    }

    /// The number of style properties set.
    pub fn len(&self) -> (r: usize)
        requires
            self.wf(),
        ensures
            r == self@.dom().len(),
    {
        proof {
            lemma_entries_map_len(self.entries@);
        }
        self.entries.len()
    }

    /// The property names are pairwise distinct; every style set built by
    /// its own operations is well-formed.
    pub closed spec fn wf(&self) -> bool {
        entries_unique(self.entries@)
    }
}

} // verus!
