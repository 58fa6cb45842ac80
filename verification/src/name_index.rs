//! A table from names to indices: inserting a name that is already present
//! replaces its index in place, a new name goes to the end.
use vstd::prelude::*;

verus! {

/// The position of `name` in the table.
pub open spec fn assoc_find(a: Seq<(Seq<char>, nat)>, name: Seq<char>) -> Option<int>
    decreases a.len(),
{
    if a.len() == 0 {
        None
    } else {
        match assoc_find(a.drop_last(), name) {
            Some(i) => Some(i),
            None => if a.last().0 == name {
                Some(a.len() - 1)
            } else {
                None
            },
        }
    }
}

/// The index stored under `name`.
pub open spec fn assoc_get(a: Seq<(Seq<char>, nat)>, name: Seq<char>) -> Option<nat> {
    match assoc_find(a, name) {
        Some(i) => Some(a[i].1),
        None => None,
    }
}

/// The table with `name` mapped to `v`.
pub open spec fn assoc_insert(a: Seq<(Seq<char>, nat)>, name: Seq<char>, v: nat) -> Seq<(Seq<char>, nat)> {
    match assoc_find(a, name) {
        Some(i) => a.update(i, (name, v)),
        None => a.push((name, v)),
    }
}

/// A name to index table.
pub struct NameIndex {
    pub entries: Vec<(String, usize)>,
}

/// The abstract value of table entries.
pub open spec fn index_view(e: Seq<(String, usize)>) -> Seq<(Seq<char>, nat)> {
    e.map_values(|x: (String, usize)| (x.0@, x.1 as nat))
}

impl View for NameIndex {
    type V = Seq<(Seq<char>, nat)>;

    open spec fn view(&self) -> Seq<(Seq<char>, nat)> {
        index_view(self.entries@)
    }
}

proof fn lemma_find_bounds(a: Seq<(Seq<char>, nat)>, name: Seq<char>)
    ensures
        assoc_find(a, name) matches Some(i) ==> 0 <= i < a.len() && a[i].0 == name,
        assoc_find(a, name) is None ==> forall|j: int| 0 <= j < a.len() ==> #[trigger] a[j].0 != name,
        assoc_find(a, name) matches Some(i) ==> forall|j: int| 0 <= j < i ==> #[trigger] a[j].0 != name,
    decreases a.len(),
{
    if a.len() > 0 {
        lemma_find_bounds(a.drop_last(), name);
        assert forall|j: int| 0 <= j < a.len() - 1 implies #[trigger] a[j] == a.drop_last()[j] by {}
    }
}

/// Finding a name in a table that is scanned from the front.
proof fn lemma_find_prefix(a: Seq<(Seq<char>, nat)>, name: Seq<char>, n: int)
    requires
        0 <= n < a.len(),
        forall|j: int| 0 <= j < n ==> #[trigger] a[j].0 != name,
        a[n].0 == name,
    ensures
        assoc_find(a, name) == Some(n),
    decreases a.len(),
{
    lemma_find_bounds(a, name);
    if n < a.len() - 1 {
        lemma_find_prefix(a.drop_last(), name, n);
    } else {
        lemma_find_bounds(a.drop_last(), name);
        if assoc_find(a.drop_last(), name) is Some {
            let i = assoc_find(a.drop_last(), name)->0;
            assert(a.drop_last()[i] == a[i]);
        }
    }
}

/// Finding a name depends only on the names of the table, in order.
proof fn lemma_find_same_names(a: Seq<(Seq<char>, nat)>, b: Seq<(Seq<char>, nat)>, name: Seq<char>)
    requires
        a.len() == b.len(),
        forall|j: int| 0 <= j < a.len() ==> #[trigger] a[j].0 == b[j].0,
    ensures
        assoc_find(a, name) == assoc_find(b, name),
    decreases a.len(),
{
    if a.len() > 0 {
        assert forall|j: int| 0 <= j < a.len() - 1 implies #[trigger] a.drop_last()[j].0
            == b.drop_last()[j].0 by {
            assert(a.drop_last()[j] == a[j]);
            assert(b.drop_last()[j] == b[j]);
        }
        lemma_find_same_names(a.drop_last(), b.drop_last(), name);
    }
}

/// Reading a table after an insert: the inserted name gives the inserted
/// index, and every other name gives what it gave before.
pub proof fn lemma_insert_get(a: Seq<(Seq<char>, nat)>, name: Seq<char>, v: nat, key: Seq<char>)
    ensures
        assoc_get(assoc_insert(a, name, v), key) == if key == name {
            Some(v)
        } else {
            assoc_get(a, key)
        },
{
    lemma_find_bounds(a, name);
    lemma_find_bounds(a, key);
    let b = assoc_insert(a, name, v);
    match assoc_find(a, name) {
        Some(i) => {
            assert(b == a.update(i, (name, v)));
            assert forall|j: int| 0 <= j < a.len() implies #[trigger] a[j].0 == b[j].0 by {}
            lemma_find_same_names(a, b, key);
            if key == name {
                assert(b[i].1 == v);
            } else if let Some(j) = assoc_find(a, key) {
                assert(j != i);
                assert(b[j] == a[j]);
            }
        },
        None => {
            assert(b == a.push((name, v)));
            assert(b.drop_last() =~= a);
            if key == name {
                lemma_find_prefix(b, name, a.len() as int);
            } else if let Some(j) = assoc_find(a, key) {
                assert(b[j] == a[j]);
            }
        },
    }
}

impl NameIndex {
    /// An empty table.
    pub fn new() -> (r: Self)
        ensures
            r@ == Seq::<(Seq<char>, nat)>::empty(),
    {
        let r = NameIndex { entries: Vec::new() };
        proof {
            assert(r@ =~= Seq::<(Seq<char>, nat)>::empty());
        }
        r
    }

    /// The number of names in the table.
    pub fn len(&self) -> (n: usize)
        ensures
            n == self@.len(),
    {
        self.entries.len()
    }

    /// The position of `name`.
    pub fn find(&self, name: &str) -> (r: Option<usize>)
        ensures
            r matches Some(i) ==> assoc_find(self@, name@) == Some(i as int),
            r matches Some(i) ==> i < self@.len() && self@[i as int].0 == name@,
            r is None ==> assoc_find(self@, name@) is None,
    {
        let name_s = name.to_owned();
        let mut i: usize = 0;
        while i < self.entries.len()
            invariant
                i <= self.entries.len(),
                name_s@ == name@,
                forall|j: int| 0 <= j < i ==> #[trigger] self@[j].0 != name@,
            decreases self.entries.len() - i,
        {
            if self.entries[i].0 == name_s {
                proof {
                    lemma_find_prefix(self@, name@, i as int);
                }
                return Some(i);
            }
            i = i + 1;
        }
        proof {
            lemma_find_bounds(self@, name@);
            if assoc_find(self@, name@) is Some {
                let k = assoc_find(self@, name@)->0;
                assert(self@[k].0 == name@);
            }
        }
        None
    }

    /// The index stored under `name`.
    pub fn get(&self, name: &str) -> (r: Option<usize>)
        ensures
            match r {
                Some(v) => assoc_get(self@, name@) == Some(v as nat),
                None => assoc_get(self@, name@) is None,
            },
    {
        match self.find(name) {
            Some(i) => Some(self.entries[i].1),
            None => None,
        }
    }

    /// Maps `name` to `v`, in place when present.
    pub fn insert(&mut self, name: &str, v: usize)
        ensures
            final(self)@ == assoc_insert(old(self)@, name@, v as nat),
    {
        match self.find(name) {
            Some(i) => {
                let ghost before = self@;
                self.entries.set(i, (name.to_owned(), v));
                proof {
                    assert(self@ =~= before.update(i as int, (name@, v as nat)));
                }
            },
            None => {
                let ghost before = self@;
                self.entries.push((name.to_owned(), v));
                proof {
                    assert(self@ =~= before.push((name@, v as nat)));
                }
            },
        }
    }

    /// The name and index at position `i`.
    pub fn entry_at(&self, i: usize) -> (r: (&str, usize))
        requires
            i < self@.len(),
        ensures
            r.0@ == self@[i as int].0,
            r.1 == self@[i as int].1,
    {
        (self.entries[i].0.as_str(), self.entries[i].1)
    }
}

} // verus!
