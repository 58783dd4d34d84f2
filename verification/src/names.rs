//! Sets of names, and maps keyed by name. Both keep their entries in the order
//! in which they were first put in, and hold no name twice.
use vstd::prelude::*;

use crate::text::{str_eq, views};

verus! {

/// A set of names.
pub struct NameSet {
    items: Vec<String>,
}

impl View for NameSet {
    type V = Set<Seq<char>>;

    open spec fn view(&self) -> Set<Seq<char>> {
        self.list().to_set()
    }
}

impl NameSet {
    /// The names in the order in which they were put in.
    pub closed spec fn list(&self) -> Seq<Seq<char>> {
        views(self.items@)
    }

    #[verifier::type_invariant]
    spec fn distinct(&self) -> bool {
        views(self.items@).no_duplicates()
    }

    /// The set without names.
    pub fn new() -> (r: NameSet)
        ensures
            r@ == Set::<Seq<char>>::empty(),
            r.list() == Seq::<Seq<char>>::empty(),
    {
        let r = NameSet { items: Vec::new() };
        assert(r.list() =~= Seq::<Seq<char>>::empty());
        r
    }

    /// Whether the set holds `name`.
    pub fn contains(&self, name: &str) -> (r: bool)
        ensures
            r == self@.contains(name@),
            r == self.list().contains(name@),
    {
        self.position(name).is_some()
    }

    fn position(&self, name: &str) -> (r: Option<usize>)
        ensures
            match r {
                Some(i) => i < self.items@.len() && views(self.items@)[i as int] == name@,
                None => !views(self.items@).contains(name@),
            },
            r is Some == self.list().contains(name@),
    {
        let mut i: usize = 0;
        while i < self.items.len()
            invariant
                i <= self.items@.len(),
                forall|j: int| 0 <= j < i ==> views(self.items@)[j] != name@,
            decreases self.items@.len() - i,
        {
            if str_eq(self.items[i].as_str(), name) {
                assert(views(self.items@)[i as int] == name@);
                return Some(i);
            }
            assert(views(self.items@)[i as int] == self.items@[i as int]@);
            i = i + 1;
        }
        None
    }

    /// Puts `name` into the set; reports whether it was new.
    pub fn insert(&mut self, name: &str) -> (r: bool)
        ensures
            r == !old(self)@.contains(name@),
            final(self)@ == old(self)@.insert(name@),
            final(self).list() == if r {
                old(self).list().push(name@)
            } else {
                old(self).list()
            },
    {
        proof {
            use_type_invariant(&*self);
        }
        if self.position(name).is_some() {
            assert(self@ =~= old(self)@.insert(name@));
            return false;
        }
        let mut items: Vec<String> = Vec::new();
        std::mem::swap(&mut items, &mut self.items);
        let ghost start = views(items@);
        items.push(name.to_owned());
        proof {
            assert(views(items@) =~= start.push(name@));
            assert(start.push(name@).to_set() =~= start.to_set().insert(name@)) by {
                lemma_push_to_set(start, name@);
            }
        }
        self.items = items;
        true
    }

    /// Takes `name` out of the set; reports whether it was there.
    pub fn remove(&mut self, name: &str) -> (r: bool)
        ensures
            r == old(self)@.contains(name@),
            final(self)@ == old(self)@.remove(name@),
    {
        proof {
            use_type_invariant(&*self);
        }
        let i = match self.position(name) {
            Some(i) => i,
            None => {
                assert(self@ =~= old(self)@.remove(name@));
                return false;
            },
        };
        let mut items: Vec<String> = Vec::new();
        std::mem::swap(&mut items, &mut self.items);
        let ghost start = views(items@);
        items.remove(i);
        proof {
            assert(views(items@) =~= start.remove(i as int));
            lemma_remove_to_set(start, i as int);
        }
        self.items = items;
        true
    }

    /// Whether the set holds no name.
    pub fn is_empty(&self) -> (r: bool)
        ensures
            r == (self@ == Set::<Seq<char>>::empty()),
            r == (self.list().len() == 0),
    {
        proof {
            if self.items@.len() == 0 {
                assert(self@ =~= Set::<Seq<char>>::empty());
            } else {
                assert(self.list().contains(self.list()[0]));
                assert(self@.contains(self.list()[0]));
            }
        }
        self.items.len() == 0
    }

    /// The names in the order in which they were put in.
    pub fn names(&self) -> (r: &Vec<String>)
        ensures
            views(r@) == self.list(),
            self.list().no_duplicates(),
            forall|name: Seq<char>| #[trigger] self@.contains(name) <==> self.list().contains(name),
    {
        proof {
            use_type_invariant(self);
        }
        &self.items
    }

    /// Puts every name of the list into the set.
    pub fn extend(&mut self, names: &Vec<String>)
        ensures
            final(self)@ == old(self)@.union(views(names@).to_set()),
    {
        let mut i: usize = 0;
        assert(views(names@).take(0).to_set() =~= Set::<Seq<char>>::empty());
        assert(self@ =~= old(self)@.union(views(names@).take(0).to_set()));
        while i < names.len()
            invariant
                i <= names@.len(),
                self@ == old(self)@.union(views(names@).take(i as int).to_set()),
            decreases names@.len() - i,
        {
            self.insert(names[i].as_str());
            proof {
                let part = views(names@).take(i as int);
                assert(views(names@).take(i + 1) =~= part.push(names@[i as int]@));
                lemma_push_to_set(part, names@[i as int]@);
                assert(self@ =~= old(self)@.union(views(names@).take(i + 1).to_set()));
            }
            i = i + 1;
        }
        assert(views(names@).take(names@.len() as int) =~= views(names@));
    }

    /// A copy of the set.
    pub fn copy(&self) -> (r: NameSet)
        ensures
            r@ == self@,
            r.list() == self.list(),
    {
        proof {
            use_type_invariant(self);
        }
        let items = crate::text::clone_strings(&self.items);
        NameSet { items }
    }
}

pub proof fn lemma_push_to_set<A>(s: Seq<A>, a: A)
    ensures
        s.push(a).to_set() == s.to_set().insert(a),
{
    assert forall|x: A| s.push(a).to_set().contains(x) <==> s.to_set().insert(a).contains(x) by {
        if s.contains(x) {
            let k = choose|k: int| 0 <= k < s.len() && s[k] == x;
            assert(s.push(a)[k] == x);
        }
        if x == a {
            assert(s.push(a)[s.len() as int] == x);
        }
        if s.push(a).contains(x) {
            let longer = s.push(a);
            let k = choose|k: int| 0 <= k < longer.len() && longer[k] == x;
            if k < s.len() {
                assert(s[k] == x);
            }
        }
    }
    assert(s.push(a).to_set() =~= s.to_set().insert(a));
}

proof fn lemma_remove_to_set<A>(s: Seq<A>, i: int)
    requires
        0 <= i < s.len(),
        s.no_duplicates(),
    ensures
        s.remove(i).to_set() == s.to_set().remove(s[i]),
        s.remove(i).no_duplicates(),
{
    let t = s.remove(i);
    assert forall|x: A| t.to_set().contains(x) <==> s.to_set().remove(s[i]).contains(x) by {
        if t.contains(x) {
            let k = choose|k: int| 0 <= k < t.len() && t[k] == x;
            if k < i {
                assert(s[k] == x);
            } else {
                assert(s[k + 1] == x);
            }
        }
        if s.contains(x) && x != s[i] {
            let k = choose|k: int| 0 <= k < s.len() && s[k] == x;
            if k < i {
                assert(t[k] == x);
            } else {
                assert(t[k - 1] == x);
            }
        }
    }
    assert(t.to_set() =~= s.to_set().remove(s[i]));
}

/// A map keyed by name.
pub struct NameMap<V> {
    entries: Vec<(String, V)>,
}

/// The keys of a list of entries.
pub open spec fn entry_keys<V>(entries: Seq<(String, V)>) -> Seq<Seq<char>> {
    entries.map_values(|e: (String, V)| e.0@)
}

/// The map that a list of entries stands for.
pub open spec fn entry_map<V>(entries: Seq<(String, V)>) -> Map<Seq<char>, V> {
    Map::new(
        |k: Seq<char>| entry_keys(entries).contains(k),
        |k: Seq<char>| entries[entry_keys(entries).index_of(k)].1,
    )
}

proof fn lemma_entry_at<V>(entries: Seq<(String, V)>, i: int)
    requires
        0 <= i < entries.len(),
        entry_keys(entries).no_duplicates(),
    ensures
        entry_map(entries).dom().contains(entries[i].0@),
        entry_map(entries)[entries[i].0@] == entries[i].1,
        entry_keys(entries).index_of(entries[i].0@) == i,
{
    let keys = entry_keys(entries);
    assert(keys[i] == entries[i].0@);
    assert(keys.contains(entries[i].0@));
    let j = keys.index_of(entries[i].0@);
    assert(0 <= j < keys.len() && keys[j] == keys[i]);
}

impl<V> View for NameMap<V> {
    type V = Map<Seq<char>, V>;

    open spec fn view(&self) -> Map<Seq<char>, V> {
        entry_map(self.list())
    }
}

impl<V> NameMap<V> {
    /// The entries in the order in which their keys were put in.
    pub closed spec fn list(&self) -> Seq<(String, V)> {
        self.entries@
    }

    #[verifier::type_invariant]
    spec fn distinct(&self) -> bool {
        entry_keys(self.entries@).no_duplicates()
    }

    /// The map without entries.
    pub fn new() -> (r: NameMap<V>)
        ensures
            r@ == Map::<Seq<char>, V>::empty(),
            r.list() == Seq::<(String, V)>::empty(),
    {
        let r = NameMap { entries: Vec::new() };
        assert(r@ =~= Map::<Seq<char>, V>::empty());
        r
    }

    fn position(&self, key: &str) -> (r: Option<usize>)
        ensures
            match r {
                Some(i) => i < self.entries@.len() && self.entries@[i as int].0@ == key@
                    && self@.dom().contains(key@) && self@[key@] == self.entries@[i as int].1,
                None => !self@.dom().contains(key@),
            },
    {
        proof {
            use_type_invariant(self);
        }
        let mut i: usize = 0;
        while i < self.entries.len()
            invariant
                i <= self.entries@.len(),
                entry_keys(self.entries@).no_duplicates(),
                forall|j: int| 0 <= j < i ==> entry_keys(self.entries@)[j] != key@,
            decreases self.entries@.len() - i,
        {
            if str_eq(self.entries[i].0.as_str(), key) {
                proof {
                    lemma_entry_at(self.entries@, i as int);
                }
                return Some(i);
            }
            assert(entry_keys(self.entries@)[i as int] == self.entries@[i as int].0@);
            i = i + 1;
        }
        None
    }

    /// Whether the map has an entry for `key`.
    pub fn contains_key(&self, key: &str) -> (r: bool)
        ensures
            r == self@.dom().contains(key@),
    {
        self.position(key).is_some()
    }

    /// The value for `key`.
    pub fn get(&self, key: &str) -> (r: Option<&V>)
        ensures
            match r {
                Some(v) => self@.dom().contains(key@) && self@[key@] == *v,
                None => !self@.dom().contains(key@),
            },
    {
        match self.position(key) {
            Some(i) => Some(&self.entries[i].1),
            None => None,
        }
    }

    /// Sets the value for `key` and hands back the former one.
    pub fn insert(&mut self, key: &str, value: V) -> (r: Option<V>)
        ensures
            final(self)@ == old(self)@.insert(key@, value),
            match r {
                Some(v) => old(self)@.dom().contains(key@) && old(self)@[key@] == v,
                None => !old(self)@.dom().contains(key@),
            },
    {
        proof {
            use_type_invariant(&*self);
        }
        let found = self.position(key);
        let mut entries: Vec<(String, V)> = Vec::new();
        std::mem::swap(&mut entries, &mut self.entries);
        let ghost start = entries@;
        match found {
            Some(i) => {
                let former = entries.remove(i);
                let name = former.0;
                entries.insert(i, (name, value));
                proof {
                    assert(entries@ =~= start.update(i as int, (former.0, value)));
                    assert(entry_keys(entries@) =~= entry_keys(start));
                    assert(entry_map(entries@) =~= entry_map(start).insert(key@, value)) by {
                        lemma_entry_at(entries@, i as int);
                        assert forall|k: Seq<char>| k != key@ && entry_keys(start).contains(k)
                            implies entry_map(entries@)[k] == entry_map(start)[k] by {
                            let j = entry_keys(start).index_of(k);
                            assert(entry_keys(start)[j] == k);
                            assert(j != i);
                        }
                        assert(entry_keys(start)[i as int] == key@);
                    }
                }
                self.entries = entries;
                Some(former.1)
            },
            None => {
                entries.push((key.to_owned(), value));
                proof {
                    lemma_push_entry(start, entries@[start.len() as int]);
                    assert(entries@ =~= start.push(entries@[start.len() as int]));
                }
                self.entries = entries;
                None
            },
        }
    }

    /// Drops the entry for `key` and hands back its value.
    pub fn remove(&mut self, key: &str) -> (r: Option<V>)
        ensures
            final(self)@ == old(self)@.remove(key@),
            match r {
                Some(v) => old(self)@.dom().contains(key@) && old(self)@[key@] == v,
                None => !old(self)@.dom().contains(key@),
            },
    {
        proof {
            use_type_invariant(&*self);
        }
        let i = match self.position(key) {
            Some(i) => i,
            None => {
                assert(self@ =~= old(self)@.remove(key@));
                return None;
            },
        };
        let mut entries: Vec<(String, V)> = Vec::new();
        std::mem::swap(&mut entries, &mut self.entries);
        let ghost start = entries@;
        let former = entries.remove(i);
        proof {
            assert(entries@ =~= start.remove(i as int));
            lemma_remove_entry(start, i as int);
        }
        self.entries = entries;
        Some(former.1)
    }

    /// Whether the map has no entry.
    pub fn is_empty(&self) -> (r: bool)
        ensures
            r == (self@ == Map::<Seq<char>, V>::empty()),
            r == (self.list().len() == 0),
    {
        proof {
            use_type_invariant(self);
            if self.entries@.len() == 0 {
                assert(self@ =~= Map::<Seq<char>, V>::empty());
            } else {
                lemma_entry_at(self.entries@, 0);
                assert(self@.dom().contains(self.entries@[0].0@));
            }
        }
        self.entries.len() == 0
    }

    /// The entries in the order in which their keys were put in.
    pub fn entries(&self) -> (r: &Vec<(String, V)>)
        ensures
            r@ == self.list(),
            entry_keys(r@).no_duplicates(),
            forall|i: int|
                0 <= i < r@.len() ==> self@.dom().contains((#[trigger] r@[i]).0@)
                    && self@[r@[i].0@] == r@[i].1,
            forall|k: Seq<char>|
                #[trigger] self@.dom().contains(k) ==> exists|i: int|
                    0 <= i < r@.len() && (#[trigger] r@[i]).0@ == k,
    {
        proof {
            use_type_invariant(self);
            assert forall|i: int| 0 <= i < self.entries@.len() implies self@.dom().contains(
                (#[trigger] self.entries@[i]).0@,
            ) && self@[self.entries@[i].0@] == self.entries@[i].1 by {
                lemma_entry_at(self.entries@, i);
            }
            assert forall|k: Seq<char>| #[trigger] self@.dom().contains(k) implies exists|i: int|
                0 <= i < self.entries@.len() && (#[trigger] self.entries@[i]).0@ == k by {
                let j = entry_keys(self.entries@).index_of(k);
                assert(entry_keys(self.entries@)[j] == k);
                assert(self.entries@[j].0@ == k);
            }
        }
        &self.entries
    }
}

proof fn lemma_push_entry<V>(start: Seq<(String, V)>, e: (String, V))
    requires
        entry_keys(start).no_duplicates(),
        !entry_keys(start).contains(e.0@),
    ensures
        entry_keys(start.push(e)).no_duplicates(),
        entry_map(start.push(e)) == entry_map(start).insert(e.0@, e.1),
{
    let longer = start.push(e);
    assert(entry_keys(longer) =~= entry_keys(start).push(e.0@));
    assert(entry_keys(longer).no_duplicates());
    lemma_push_to_set(entry_keys(start), e.0@);
    assert forall|k: Seq<char>| entry_map(longer).dom().contains(k) <==> entry_map(start).insert(
        e.0@,
        e.1,
    ).dom().contains(k) by {
        assert(entry_keys(longer).to_set().contains(k) <==> entry_keys(longer).contains(k));
        assert(entry_keys(start).to_set().contains(k) <==> entry_keys(start).contains(k));
    }
    assert forall|k: Seq<char>| entry_map(longer).dom().contains(k) implies entry_map(longer)[k]
        == entry_map(start).insert(e.0@, e.1)[k] by {
        let j = entry_keys(longer).index_of(k);
        assert(entry_keys(longer)[j] == k);
        if j < start.len() {
            lemma_entry_at(longer, j);
            lemma_entry_at(start, j);
            assert(longer[j] == start[j]);
            assert(entry_keys(start)[j] == k);
        } else {
            lemma_entry_at(longer, start.len() as int);
        }
    }
    assert(entry_map(longer) =~= entry_map(start).insert(e.0@, e.1));
}

proof fn lemma_remove_entry<V>(start: Seq<(String, V)>, i: int)
    requires
        0 <= i < start.len(),
        entry_keys(start).no_duplicates(),
    ensures
        entry_keys(start.remove(i)).no_duplicates(),
        entry_map(start.remove(i)) == entry_map(start).remove(start[i].0@),
{
    let t = start.remove(i);
    assert(entry_keys(t) =~= entry_keys(start).remove(i));
    lemma_remove_to_set(entry_keys(start), i);
    let want = entry_map(start).remove(start[i].0@);
    assert forall|k: Seq<char>| entry_map(t).dom().contains(k) <==> want.dom().contains(k) by {
        assert(entry_keys(t).to_set().contains(k) <==> entry_keys(t).contains(k));
        assert(entry_keys(start).to_set().contains(k) <==> entry_keys(start).contains(k));
        assert(entry_keys(start)[i] == start[i].0@);
    }
    assert forall|k: Seq<char>| entry_map(t).dom().contains(k) implies entry_map(t)[k]
        == want[k] by {
        let j = entry_keys(t).index_of(k);
        assert(entry_keys(t)[j] == k);
        lemma_entry_at(t, j);
        if j < i {
            lemma_entry_at(start, j);
        } else {
            lemma_entry_at(start, j + 1);
        }
    }
    assert(entry_map(t) =~= want);
}

} // verus!
