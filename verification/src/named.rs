//! Values kept under names.

use vstd::prelude::*;
use crate::text::same_text;

verus! {

/// The index of the entry with a name.
pub open spec fn index_of<V>(entries: Seq<(Seq<char>, V)>, name: Seq<char>) -> Option<int>
    decreases entries.len(),
{
    if entries.len() == 0 {
        None
    } else {
        match index_of(entries.drop_last(), name) {
            Some(i) => Some(i),
            None => if entries.last().0 == name {
                Some(entries.len() - 1)
            } else {
                None
            },
        }
    }
}

/// The value kept under a name.
pub open spec fn lookup<V>(entries: Seq<(Seq<char>, V)>, name: Seq<char>) -> Option<V> {
    match index_of(entries, name) {
        Some(i) => Some(entries[i].1),
        None => None,
    }
}

/// The entries after a value was put under a name: it takes the place of the
/// value that was there, or comes last.
pub open spec fn stored<V>(entries: Seq<(Seq<char>, V)>, name: Seq<char>, value: V) -> Seq<
    (Seq<char>, V),
> {
    match index_of(entries, name) {
        Some(i) => entries.update(i, (name, value)),
        None => entries.push((name, value)),
    }
}

/// Whether no name occurs twice.
pub open spec fn distinct<V>(entries: Seq<(Seq<char>, V)>) -> bool {
    forall|i: int, j: int|
        0 <= i < j < entries.len() ==> #[trigger] entries[i].0 != #[trigger] entries[j].0
}

/// An index is right, and where there is none no entry has the name.
pub proof fn lemma_index_of<V>(entries: Seq<(Seq<char>, V)>, name: Seq<char>)
    ensures
        match index_of(entries, name) {
            Some(i) => 0 <= i < entries.len() && entries[i].0 == name && forall|j: int|
                0 <= j < i ==> #[trigger] entries[j].0 != name,
            None => forall|j: int| 0 <= j < entries.len() ==> #[trigger] entries[j].0 != name,
        },
    decreases entries.len(),
{
    if entries.len() > 0 {
        lemma_index_of(entries.drop_last(), name);
        assert forall|j: int| 0 <= j < entries.len() - 1 implies #[trigger] entries[j]
            == entries.drop_last()[j] by {}
    }
}

/// An index is the first one with the name.
pub proof fn lemma_first_index<V>(entries: Seq<(Seq<char>, V)>, name: Seq<char>, at: int)
    requires
        0 <= at < entries.len(),
        entries[at].0 == name,
        forall|j: int| 0 <= j < at ==> #[trigger] entries[j].0 != name,
    ensures
        index_of(entries, name) == Some(at),
{
    lemma_index_of(entries, name);
}

/// Storing keeps names distinct, is what a lookup of the name finds, and
/// changes no other name.
pub proof fn law_store_then_lookup<V>(
    entries: Seq<(Seq<char>, V)>,
    name: Seq<char>,
    value: V,
    other: Seq<char>,
)
    requires
        distinct(entries),
    ensures
        distinct(stored(entries, name, value)),
        lookup(stored(entries, name, value), name) == Some(value),
        other != name ==> lookup(stored(entries, name, value), other) == lookup(entries, other),
{
    let after = stored(entries, name, value);
    lemma_index_of(entries, name);
    lemma_index_of(entries, other);
    lemma_index_of(after, name);
    lemma_index_of(after, other);
    match index_of(entries, name) {
        Some(i) => {
            assert(after[i].0 == name);
        },
        None => {
            assert(after[entries.len() as int].0 == name);
        },
    }
    if other != name {
        match index_of(entries, other) {
            Some(k) => {
                assert(after[k].0 == other);
                assert(after[k] == entries[k]);
            },
            None => {},
        }
    }
}

/// Values kept under distinct names.
#[derive(Debug)]
pub struct Named<T> {
    entries: Vec<(String, T)>,
}

impl<T: View> View for Named<T> {
    type V = Seq<(Seq<char>, T::V)>;

    closed spec fn view(&self) -> Seq<(Seq<char>, T::V)> {
        self.entries@.map_values(|entry: (String, T)| (entry.0@, entry.1@))
    }
}

impl<T: View> Named<T> {
    /// No name occurs twice.
    pub open spec fn wf(&self) -> bool {
        distinct(self@)
    }

    /// Nothing under any name.
    pub fn new() -> (named: Named<T>)
        ensures
            named.wf(),
            named@ == Seq::<(Seq<char>, T::V)>::empty(),
    {
        let named = Named { entries: Vec::new() };
        assert(named@ =~= Seq::empty());
        named
    }

    /// How many names there are.
    pub fn len(&self) -> (len: usize)
        ensures
            len == self@.len(),
    {
        self.entries.len()
    }

    fn find(&self, name: &str) -> (found: Option<usize>)
        ensures
            match found {
                Some(i) => index_of(self@, name@) == Some(i as int) && i < self@.len(),
                None => index_of(self@, name@) is None,
            },
    {
        proof {
            lemma_index_of(self@, name@);
        }
        let mut i: usize = 0;
        while i < self.entries.len()
            invariant
                i <= self.entries.len(),
                self.entries.len() == self@.len(),
                forall|j: int| 0 <= j < i ==> #[trigger] self@[j].0 != name@,
                match index_of(self@, name@) {
                    Some(k) => 0 <= k < self@.len() && self@[k].0 == name@ && forall|j: int|
                        0 <= j < k ==> #[trigger] self@[j].0 != name@,
                    None => forall|j: int| 0 <= j < self@.len() ==> #[trigger] self@[j].0 != name@,
                },
            decreases self.entries.len() - i,
        {
            assert(self@[i as int].0 == self.entries@[i as int].0@);
            if same_text(&self.entries[i].0, name) {
                return Some(i);
            }
            i += 1;
        }
        None
    }

    /// The value under a name.
    pub fn get(&self, name: &str) -> (found: Option<&T>)
        ensures
            match found {
                Some(value) => lookup(self@, name@) == Some(value@),
                None => lookup(self@, name@) is None,
            },
    {
        match self.find(name) {
            Some(i) => Some(&self.entries[i].1),
            None => None,
        }
    }

    /// Whether there is a value under a name.
    pub fn contains(&self, name: &str) -> (found: bool)
        ensures
            found == (index_of(self@, name@) is Some),
    {
        self.find(name).is_some()
    }

    /// The entry at an index.
    pub fn entry(&self, index: usize) -> (entry: (&String, &T))
        requires
            index < self@.len(),
        ensures
            (entry.0@, entry.1@) == self@[index as int],
    {
        (&self.entries[index].0, &self.entries[index].1)
    }

    /// Puts a value under a name.
    pub fn store(&mut self, name: String, value: T)
        requires
            old(self).wf(),
        ensures
            final(self).wf(),
            final(self)@ == stored(old(self)@, name@, value@),
    {
        proof {
            lemma_index_of(self@, name@);
            law_store_then_lookup(self@, name@, value@, name@);
        }
        match self.find(&name) {
            Some(i) => {
                self.entries.set(i, (name, value));
                assert(self@ =~= old(self)@.update(i as int, (name@, value@)));
            },
            None => {
                self.entries.push((name, value));
                assert(self@ =~= old(self)@.push((name@, value@)));
            },
        }
    }

    /// Drops everything.
    pub fn clear(&mut self)
        ensures
            final(self).wf(),
            final(self)@ == Seq::<(Seq<char>, T::V)>::empty(),
    {
        self.entries.clear();
        assert(self@ =~= Seq::empty());
    }
}

} // verus!
