//! A small table from names to values.
use vstd::prelude::*;
use crate::text;

verus! {

/// A table from names to values. No name occurs twice.
#[derive(Debug)]
pub struct Table<V> {
    pub entries: Vec<(String, V)>,
}

/// Whether no name occurs twice.
pub open spec fn distinct<V>(entries: Seq<(String, V)>) -> bool {
    forall|i: int, j: int|
        0 <= i < j < entries.len() ==> (#[trigger] entries[i]).0@ != (#[trigger] entries[j]).0@
}

/// What a list of entries says of each name.
pub open spec fn content<V>(entries: Seq<(String, V)>) -> Map<Seq<char>, V>
    decreases entries.len(),
{
    if entries.len() == 0 {
        Map::empty()
    } else {
        content(entries.drop_last()).insert(entries.last().0@, entries.last().1)
    }
}

/// An entry is what the table says of its name.
proof fn lemma_entry<V>(entries: Seq<(String, V)>, i: int)
    requires
        distinct(entries),
        0 <= i < entries.len(),
    ensures
        content(entries).contains_key(entries[i].0@),
        content(entries)[entries[i].0@] == entries[i].1,
    decreases entries.len(),
{
    if i < entries.len() - 1 {
        let front = entries.drop_last();
        assert(front[i] == entries[i]);
        lemma_entry(front, i);
        assert(entries[i].0@ != entries[entries.len() - 1].0@);
    }
}

/// What has no entry is not in the table.
proof fn lemma_absent<V>(entries: Seq<(String, V)>, name: Seq<char>)
    requires
        forall|i: int| 0 <= i < entries.len() ==> (#[trigger] entries[i]).0@ != name,
    ensures
        !content(entries).contains_key(name),
    decreases entries.len(),
{
    if entries.len() > 0 {
        let front = entries.drop_last();
        assert forall|i: int| 0 <= i < front.len() implies (#[trigger] front[i]).0@ != name by {
            assert(front[i] == entries[i]);
        }
        lemma_absent(front, name);
        assert(entries[entries.len() - 1].0@ != name);
    }
}

/// A table has as many names as entries.
proof fn lemma_size<V>(entries: Seq<(String, V)>)
    requires
        distinct(entries),
    ensures
        content(entries).dom().finite(),
        content(entries).dom().len() == entries.len(),
    decreases entries.len(),
{
    if entries.len() > 0 {
        let front = entries.drop_last();
        lemma_size(front);
        let name = entries.last().0@;
        assert forall|i: int| 0 <= i < front.len() implies (#[trigger] front[i]).0@ != name by {
            assert(front[i] == entries[i]);
            assert(entries[i].0@ != entries[entries.len() - 1].0@);
        }
        lemma_absent(front, name);
        assert(content(entries).dom() =~= content(front).dom().insert(name));
    }
}

/// To change the value of an entry is to change what the table says of its name.
proof fn lemma_changed<V>(entries: Seq<(String, V)>, i: int, entry: (String, V))
    requires
        distinct(entries),
        0 <= i < entries.len(),
        entry.0@ == entries[i].0@,
    ensures
        distinct(entries.update(i, entry)),
        content(entries.update(i, entry)) == content(entries).insert(entry.0@, entry.1),
{
    let after = entries.update(i, entry);
    let expected = content(entries).insert(entry.0@, entry.1);
    assert(distinct(after));
    lemma_entry(after, i);
    assert forall|name: Seq<char>|
        #![trigger content(after).contains_key(name)]
        #![trigger expected.contains_key(name)]
        content(after).contains_key(name) == expected.contains_key(name) && (
        content(after).contains_key(name) ==> content(after)[name] == expected[name]) by {
        if name != entry.0@ {
            if exists|j: int| 0 <= j < entries.len() && (#[trigger] entries[j]).0@ == name {
                let j = choose|j: int| 0 <= j < entries.len() && (#[trigger] entries[j]).0@ == name;
                assert(after[j] == entries[j]);
                lemma_entry(entries, j);
                lemma_entry(after, j);
            } else {
                assert forall|j: int| 0 <= j < after.len() implies (#[trigger] after[j]).0@
                    != name by {
                    if j != i {
                        assert(after[j] == entries[j]);
                    }
                }
                lemma_absent(entries, name);
                lemma_absent(after, name);
            }
        }
    }
    assert(content(after) =~= expected);
}

impl<V> View for Table<V> {
    type V = Map<Seq<char>, V>;

    open spec fn view(&self) -> Map<Seq<char>, V> {
        content(self.entries@)
    }
}

/// Where the values can be copied, as all values of tables here.
impl<V: Copy> Table<V> {
    /// No name occurs twice.
    pub open spec fn wf(self) -> bool {
        distinct(self.entries@)
    }

    /// The empty table.
    pub fn new() -> (r: Table<V>)
        ensures
            r.wf(),
            r@ == Map::<Seq<char>, V>::empty(),
    {
        Table { entries: Vec::new() }
    }

    fn position(&self, name: &str) -> (r: Option<usize>)
        requires
            self.wf(),
        ensures
            match r {
                Some(i) => i < self.entries@.len() && self.entries@[i as int].0@ == name@,
                None => forall|i: int|
                    0 <= i < self.entries@.len() ==> (#[trigger] self.entries@[i]).0@ != name@,
            },
    {
        let mut i: usize = 0;
        while i < self.entries.len()
            invariant
                i <= self.entries@.len(),
                forall|k: int| 0 <= k < i ==> (#[trigger] self.entries@[k]).0@ != name@,
            decreases self.entries.len() - i,
        {
            if text::same(self.entries[i].0.as_str(), name) {
                return Some(i);
            }
            i = i + 1;
        }
        None
    }

    /// What the table says of a name.
    pub fn get(&self, name: &str) -> (r: Option<V>)
        requires
            self.wf(),
        ensures
            r == (if self@.contains_key(name@) {
                Some(self@[name@])
            } else {
                None
            }),
    {
        match self.position(name) {
            Some(i) => {
                proof {
                    lemma_entry(self.entries@, i as int);
                }
                Some(self.entries[i].1)
            },
            None => {
                proof {
                    lemma_absent(self.entries@, name@);
                }
                None
            },
        }
    }

    /// Whether the table has an entry for a name.
    pub fn contains_key(&self, name: &str) -> (r: bool)
        requires
            self.wf(),
        ensures
            r == self@.contains_key(name@),
    {
        self.get(name).is_some()
    }

    /// How many names the table has.
    pub fn len(&self) -> (r: usize)
        requires
            self.wf(),
        ensures
            r == self@.dom().len(),
            self@.dom().finite(),
    {
        proof {
            lemma_size(self.entries@);
        }
        self.entries.len()
    }

    /// Whether the table is empty.
    pub fn is_empty(&self) -> (r: bool)
        requires
            self.wf(),
        ensures
            r == (self@ == Map::<Seq<char>, V>::empty()),
    {
        proof {
            lemma_size(self.entries@);
            if self.entries@.len() == 0 {
                assert(self@ =~= Map::<Seq<char>, V>::empty());
            } else {
                lemma_entry(self.entries@, 0);
            }
        }
        self.entries.len() == 0
    }

    /// Enters a value for a name; an older one gives way.
    pub fn put(&mut self, name: &str, value: V)
        requires
            old(self).wf(),
        ensures
            final(self).wf(),
            final(self)@ == old(self)@.insert(name@, value),
    {
        let ghost before = self.entries@;
        let entry: (String, V) = (name.to_owned(), value);
        match self.position(name) {
            Some(i) => {
                proof {
                    lemma_changed(before, i as int, entry);
                }
                self.entries.set(i, entry);
            },
            None => {
                self.entries.push(entry);
                assert(self.entries@.drop_last() =~= before);
            },
        }
    }
}


/// An entry tells the value of its name, the latest one where there are several, and no other name is
/// touched by it.
pub proof fn law_the_latest_entry_counts<V>(
    entries: Seq<(String, V)>,
    entry: (String, V),
    name: Seq<char>,
)
    ensures
        content(entries.push(entry)).contains_key(entry.0@),
        content(entries.push(entry))[entry.0@] == entry.1,
        name != entry.0@ ==> content(entries.push(entry)).contains_key(name) == content(
            entries,
        ).contains_key(name),
        name != entry.0@ && content(entries).contains_key(name) ==> content(entries.push(entry))[name]
            == content(entries)[name],
        !content(Seq::<(String, V)>::empty()).contains_key(name),
{
    assert(entries.push(entry).drop_last() =~= entries);
}

} // verus!
