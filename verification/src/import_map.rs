//! The imports found in a project, keyed by the name under which each is
//! recorded.

use vstd::prelude::*;
use crate::text::{chars_of, chars_equal};

verus! {

/// An `import` statement: the imported module, and where the statement stands.
#[derive(Debug)]
pub struct ImportStatement {
    pub name: String,
    pub file: String,
    pub line: usize,
}

/// What an `ImportStatement` holds, as mathematical values.
pub struct ImportRecord {
    pub name: Seq<char>,
    pub file: Seq<char>,
    pub line: usize,
}

impl View for ImportStatement {
    type V = ImportRecord;

    open spec fn view(&self) -> ImportRecord {
        ImportRecord { name: self.name@, file: self.file@, line: self.line }
    }
}

/// The view of one entry: its key's characters and its statement's record.
pub open spec fn entry_view(e: (String, ImportStatement)) -> (Seq<char>, ImportRecord) {
    (e.0@, e.1@)
}

/// No two entries have the same key.
pub open spec fn keys_distinct(s: Seq<(Seq<char>, ImportRecord)>) -> bool {
    forall|i: int, j: int|
        0 <= i < s.len() && 0 <= j < s.len() && i != j ==> #[trigger] s[i].0 != #[trigger] s[j].0
}

/// The map whose keys are those of the entries, each to the record beside it.
pub open spec fn map_of_entries(s: Seq<(Seq<char>, ImportRecord)>) -> Map<Seq<char>, ImportRecord> {
    Map::new(
        |k: Seq<char>| exists|i: int| 0 <= i < s.len() && #[trigger] s[i].0 == k,
        |k: Seq<char>| s[choose|i: int| 0 <= i < s.len() && #[trigger] s[i].0 == k].1,
    )
}

/// The keys of the entries, in order.
pub open spec fn keys_of_entries(s: Seq<(Seq<char>, ImportRecord)>) -> Seq<Seq<char>> {
    s.map_values(|e: (Seq<char>, ImportRecord)| e.0)
}

/// With distinct keys, each entry's key maps to that entry's record.
pub proof fn lemma_value_at(s: Seq<(Seq<char>, ImportRecord)>, i: int)
    requires
        keys_distinct(s),
        0 <= i < s.len(),
    ensures
        map_of_entries(s).contains_key(s[i].0),
        map_of_entries(s)[s[i].0] == s[i].1,
{
    let k = s[i].0;
    assert(exists|j: int| 0 <= j < s.len() && #[trigger] s[j].0 == k);
    let j = choose|j: int| 0 <= j < s.len() && #[trigger] s[j].0 == k;
    assert(j == i);
}

/// The keys of a map built from entries are the keys of the entries.
pub proof fn lemma_dom_is_keys(s: Seq<(Seq<char>, ImportRecord)>)
    ensures
        map_of_entries(s).dom() == keys_of_entries(s).to_set(),
        map_of_entries(s).dom().finite(),
{
    let ks = keys_of_entries(s);
    assert forall|k: Seq<char>| map_of_entries(s).dom().contains(k) implies ks.contains(k) by {
        let i = choose|i: int| 0 <= i < s.len() && #[trigger] s[i].0 == k;
        assert(ks[i] == k);
    }
    assert forall|k: Seq<char>| ks.contains(k) implies map_of_entries(s).dom().contains(k) by {
        let i = choose|i: int| 0 <= i < ks.len() && ks[i] == k;
        assert(s[i].0 == k);
    }
    assert(map_of_entries(s).dom() =~= ks.to_set());
    ks.lemma_cardinality_of_set();
    vstd::seq_lib::seq_to_set_is_finite(ks);
}

/// With distinct keys, the map has as many keys as there are entries.
pub proof fn lemma_len(s: Seq<(Seq<char>, ImportRecord)>)
    requires
        keys_distinct(s),
    ensures
        map_of_entries(s).len() == s.len(),
{
    lemma_dom_is_keys(s);
    let ks = keys_of_entries(s);
    assert(ks.no_duplicates()) by {
        assert forall|i: int, j: int|
            0 <= i < ks.len() && 0 <= j < ks.len() && i != j implies ks[i] != ks[j] by {
            assert(s[i].0 != s[j].0);
        }
    }
    ks.unique_seq_to_set();
}

/// Dropping the entry at `i` drops its key from the map.
pub proof fn lemma_remove_entry(s: Seq<(Seq<char>, ImportRecord)>, i: int)
    requires
        keys_distinct(s),
        0 <= i < s.len(),
    ensures
        keys_distinct(s.remove(i)),
        map_of_entries(s.remove(i)) == map_of_entries(s).remove(s[i].0),
{
    let t = s.remove(i);
    let m = map_of_entries(s);
    let n = map_of_entries(t);
    assert(keys_distinct(t)) by {
        assert forall|a: int, b: int|
            0 <= a < t.len() && 0 <= b < t.len() && a != b implies #[trigger] t[a].0
            != #[trigger] t[b].0 by {
            let a1 = if a < i { a } else { a + 1 };
            let b1 = if b < i { b } else { b + 1 };
            assert(t[a] == s[a1]);
            assert(t[b] == s[b1]);
        }
    }
    assert forall|k: Seq<char>| #[trigger] n.contains_key(k) <==> m.remove(s[i].0).contains_key(k) by {
        if n.contains_key(k) {
            let a = choose|a: int| 0 <= a < t.len() && #[trigger] t[a].0 == k;
            let a1 = if a < i { a } else { a + 1 };
            assert(t[a] == s[a1]);
            assert(s[a1].0 == k);
            assert(a1 != i);
        }
        if m.remove(s[i].0).contains_key(k) {
            let a1 = choose|a: int| 0 <= a < s.len() && #[trigger] s[a].0 == k;
            assert(a1 != i);
            let a = if a1 < i { a1 } else { a1 - 1 };
            assert(t[a] == s[a1]);
            assert(t[a].0 == k);
        }
    }
    assert forall|k: Seq<char>| #[trigger] n.contains_key(k) implies n[k] == m[k] by {
        let a = choose|a: int| 0 <= a < t.len() && #[trigger] t[a].0 == k;
        let a1 = if a < i { a } else { a + 1 };
        assert(t[a] == s[a1]);
        lemma_value_at(t, a);
        lemma_value_at(s, a1);
    }
    assert(n =~= m.remove(s[i].0));
}

/// Appending an entry under a new key adds that key to the map.
pub proof fn lemma_push_entry(s: Seq<(Seq<char>, ImportRecord)>, e: (Seq<char>, ImportRecord))
    requires
        keys_distinct(s),
        !map_of_entries(s).contains_key(e.0),
    ensures
        keys_distinct(s.push(e)),
        map_of_entries(s.push(e)) == map_of_entries(s).insert(e.0, e.1),
{
    let t = s.push(e);
    let m = map_of_entries(s);
    let n = map_of_entries(t);
    assert forall|j: int| 0 <= j < s.len() implies #[trigger] s[j].0 != e.0 by {
        if s[j].0 == e.0 {
            assert(m.contains_key(e.0));
        }
    }
    assert(keys_distinct(t)) by {
        assert forall|a: int, b: int|
            0 <= a < t.len() && 0 <= b < t.len() && a != b implies #[trigger] t[a].0
            != #[trigger] t[b].0 by {
            if a < s.len() {
                assert(t[a] == s[a]);
            }
            if b < s.len() {
                assert(t[b] == s[b]);
            }
        }
    }
    assert forall|k: Seq<char>| #[trigger] n.contains_key(k) <==> m.insert(e.0, e.1).contains_key(
        k,
    ) by {
        if n.contains_key(k) && k != e.0 {
            let a = choose|a: int| 0 <= a < t.len() && #[trigger] t[a].0 == k;
            assert(a < s.len());
            assert(s[a].0 == k);
        }
        if m.contains_key(k) {
            let a = choose|a: int| 0 <= a < s.len() && #[trigger] s[a].0 == k;
            assert(t[a] == s[a]);
        }
        if k == e.0 {
            assert(t[s.len() as int].0 == k);
        }
    }
    assert forall|k: Seq<char>| #[trigger] n.contains_key(k) implies n[k] == m.insert(
        e.0,
        e.1,
    )[k] by {
        let a = choose|a: int| 0 <= a < t.len() && #[trigger] t[a].0 == k;
        lemma_value_at(t, a);
        if a < s.len() {
            assert(t[a] == s[a]);
            lemma_value_at(s, a);
        }
    }
    assert(n =~= m.insert(e.0, e.1));
}

/// A map from names to import statements. Keys are compared by their characters.
pub struct ImportMap {
    entries: Vec<(String, ImportStatement)>,
}

impl ImportMap {
    /// The entries, as mathematical values, in storage order.
    pub closed spec fn entries_view(&self) -> Seq<(Seq<char>, ImportRecord)> {
        self.entries@.map_values(|e: (String, ImportStatement)| entry_view(e))
    }

    #[verifier::type_invariant]
    spec fn keys_are_distinct(&self) -> bool {
        keys_distinct(self.entries_view())
    }

    /// The view of a map has finitely many keys.
    pub proof fn lemma_finite(&self)
        ensures
            self@.dom().finite(),
    {
        lemma_dom_is_keys(self.entries_view());
    }

    /// An empty map.
    pub fn new() -> (m: Self)
        ensures
            m@ == Map::<Seq<char>, ImportRecord>::empty(),
    {
        let m = ImportMap { entries: Vec::new() };
        assert(m@ =~= Map::<Seq<char>, ImportRecord>::empty());
        m
    }

    /// The number of keys.
    pub fn len(&self) -> (n: usize)
        ensures
            n == self@.len(),
            self@.dom().finite(),
    {
        proof {
            use_type_invariant(self);
            lemma_len(self.entries_view());
            lemma_dom_is_keys(self.entries_view());
        }
        self.entries.len()
    }

    /// The storage position of `key`, if the map holds it.
    fn position(&self, key: &Vec<char>) -> (r: Option<usize>)
        ensures
            r matches Some(i) ==> i < self.entries_view().len() && self.entries_view()[i as int].0
                == key@,
            r is None ==> !self@.contains_key(key@),
    {
        let mut i: usize = 0;
        while i < self.entries.len()
            invariant
                i <= self.entries@.len(),
                forall|j: int| 0 <= j < i ==> #[trigger] self.entries_view()[j].0 != key@,
            decreases self.entries@.len() - i,
        {
            let k = chars_of(self.entries[i].0.as_str());
            if chars_equal(&k, key) {
                assert(self.entries_view()[i as int] == entry_view(self.entries@[i as int]));
                return Some(i);
            }
            assert(self.entries_view()[i as int] == entry_view(self.entries@[i as int]));
            i += 1;
        }
        assert forall|j: int| 0 <= j < self.entries_view().len() implies #[trigger] self.entries_view()[j].0
            != key@ by {}
        None
    }

    /// Whether the map holds `key`.
    pub fn contains_key(&self, key: &str) -> (r: bool)
        ensures
            r == self@.contains_key(key@),
    {
        let k = chars_of(key);
        match self.position(&k) {
            Some(i) => {
                assert(self.entries_view()[i as int].0 == key@);
                true
            },
            None => false,
        }
    }

    /// The statement recorded under `key`, if any.
    pub fn get(&self, key: &str) -> (r: Option<&ImportStatement>)
        ensures
            r matches Some(v) ==> self@.contains_key(key@) && v@ == self@[key@],
            r is None ==> !self@.contains_key(key@),
    {
        proof {
            use_type_invariant(self);
        }
        let k = chars_of(key);
        match self.position(&k) {
            Some(i) => {
                proof {
                    lemma_value_at(self.entries_view(), i as int);
                }
                assert(self.entries_view()[i as int] == entry_view(self.entries@[i as int]));
                Some(&self.entries[i].1)
            },
            None => None,
        }
    }

    /// Records `value` under `key`, in place of what was recorded there before.
    pub fn insert(&mut self, key: String, value: ImportStatement)
        ensures
            final(self)@ == old(self)@.insert(key@, value@),
    {
        proof {
            use_type_invariant(&*self);
        }
        let k = chars_of(key.as_str());
        let pos = self.position(&k);
        let ghost before = self.entries_view();
        let mut entries: Vec<(String, ImportStatement)> = Vec::new();
        std::mem::swap(&mut entries, &mut self.entries);
        assert(entries@.map_values(|e: (String, ImportStatement)| entry_view(e)) == before);
        match pos {
            Some(i) => {
                proof {
                    lemma_remove_entry(before, i as int);
                }
                let _ = entries.remove(i);
                assert(entries@.map_values(|e: (String, ImportStatement)| entry_view(e))
                    =~= before.remove(i as int));
            },
            None => {
                assert(old(self)@.remove(key@) =~= old(self)@);
            },
        }
        let ghost middle = entries@.map_values(|e: (String, ImportStatement)| entry_view(e));
        assert(map_of_entries(middle) == old(self)@.remove(key@));
        proof {
            lemma_push_entry(middle, (key@, value@));
        }
        entries.push((key, value));
        assert(entries@.map_values(|e: (String, ImportStatement)| entry_view(e)) =~= middle.push(
            (k@, value@),
        ));
        self.entries = entries;
        assert(old(self)@.remove(key@).insert(key@, value@) =~= old(self)@.insert(key@, value@));
    }

    /// Removes `key`, returning the statement recorded under it.
    pub fn remove(&mut self, key: &str) -> (r: Option<ImportStatement>)
        ensures
            final(self)@ == old(self)@.remove(key@),
            r matches Some(v) ==> old(self)@.contains_key(key@) && v@ == old(self)@[key@],
            r is None ==> !old(self)@.contains_key(key@),
    {
        proof {
            use_type_invariant(&*self);
        }
        let k = chars_of(key);
        let ghost before = self.entries_view();
        match self.position(&k) {
            Some(i) => {
                proof {
                    lemma_remove_entry(before, i as int);
                    lemma_value_at(before, i as int);
                }
                assert(before[i as int] == entry_view(self.entries@[i as int]));
                let mut entries: Vec<(String, ImportStatement)> = Vec::new();
                std::mem::swap(&mut entries, &mut self.entries);
                assert(entries@.map_values(|e: (String, ImportStatement)| entry_view(e)) == before);
                let (_, v) = entries.remove(i);
                assert(entries@.map_values(|e: (String, ImportStatement)| entry_view(e))
                    =~= before.remove(i as int));
                self.entries = entries;
                Some(v)
            },
            None => {
                assert(old(self)@.remove(key@) =~= old(self)@);
                None
            },
        }
    }

    /// Takes one entry out of the map, if it has any.
    pub fn pop_entry(&mut self) -> (r: Option<(String, ImportStatement)>)
        ensures
            final(self)@.dom().finite(),
            r is None ==> old(self)@.len() == 0 && final(self)@ == old(self)@,
            r matches Some(e) ==> {
                &&& old(self)@.contains_key(e.0@)
                &&& old(self)@[e.0@] == e.1@
                &&& final(self)@ == old(self)@.remove(e.0@)
                &&& final(self)@.len() + 1 == old(self)@.len()
            },
    {
        proof {
            use_type_invariant(&*self);
            lemma_len(self.entries_view());
        }
        let ghost before = self.entries_view();
        let n = self.entries.len();
        if n == 0 {
            proof {
                lemma_dom_is_keys(before);
            }
            return None;
        }
        proof {
            lemma_remove_entry(before, n - 1);
            lemma_value_at(before, n - 1);
            lemma_len(before.remove(n - 1));
        }
        let mut entries: Vec<(String, ImportStatement)> = Vec::new();
        std::mem::swap(&mut entries, &mut self.entries);
        assert(entries@.map_values(|e: (String, ImportStatement)| entry_view(e)) == before);
        let e = entries.pop();
        assert(entries@.map_values(|e: (String, ImportStatement)| entry_view(e)) =~= before.remove(
            n - 1,
        ));
        self.entries = entries;
        proof {
            lemma_dom_is_keys(self.entries_view());
        }
        e
    }

    /// Records every entry of `other` in this map, each in place of what was
    /// recorded under its key before.
    pub fn extend(&mut self, other: ImportMap)
        ensures
            final(self)@ == old(self)@.union_prefer_right(other@),
    {
        let mut rest = other;
        let ghost start = self@;
        let ghost added = rest@;
        proof {
            rest.lemma_finite();
        }
        loop
            invariant
                rest@.dom().finite(),
                forall|k: Seq<char>| #[trigger] rest@.contains_key(k) ==> added.contains_key(k) && rest@[k] == added[k],
                forall|k: Seq<char>|
                    #[trigger] self@.contains_key(k) <==> start.contains_key(k) || (added.contains_key(k)
                        && !rest@.contains_key(k)),
                forall|k: Seq<char>|
                    #[trigger] self@.contains_key(k) ==> self@[k] == if added.contains_key(k)
                        && !rest@.contains_key(k) {
                        added[k]
                    } else {
                        start[k]
                    },
            ensures
                rest@.len() == 0,
            decreases rest@.len(),
        {
            match rest.pop_entry() {
                None => {
                    break;
                },
                Some((key, value)) => {
                    self.insert(key, value);
                },
            }
        }
        assert(rest@.dom() =~= Set::<Seq<char>>::empty());
        assert(self@ =~= start.union_prefer_right(added));
    }

    /// The keys, each once.
    pub fn keys(&self) -> (r: Vec<String>)
        ensures
            r@.len() == self@.len(),
            forall|i: int| 0 <= i < r@.len() ==> self@.contains_key(#[trigger] r@[i]@),
            forall|k: Seq<char>| self@.contains_key(k) ==> exists|i: int| 0 <= i < r@.len() && #[trigger] r@[i]@ == k,
            forall|i: int, j: int| 0 <= i < r@.len() && 0 <= j < r@.len() && i != j ==> #[trigger] r@[i]@ != #[trigger] r@[j]@,
    {
        proof {
            use_type_invariant(self);
            lemma_len(self.entries_view());
        }
        let mut r: Vec<String> = Vec::new();
        let mut i: usize = 0;
        while i < self.entries.len()
            invariant
                i <= self.entries@.len(),
                r@.len() == i,
                keys_distinct(self.entries_view()),
                forall|j: int| 0 <= j < i ==> #[trigger] r@[j]@ == self.entries_view()[j].0,
            decreases self.entries@.len() - i,
        {
            assert(self.entries_view()[i as int] == entry_view(self.entries@[i as int]));
            r.push(self.entries[i].0.clone());
            i += 1;
        }
        assert forall|j: int| 0 <= j < r@.len() implies self@.contains_key(#[trigger] r@[j]@) by {
            lemma_value_at(self.entries_view(), j);
        }
        assert forall|k: Seq<char>| self@.contains_key(k) implies exists|j: int| 0 <= j < r@.len() && #[trigger] r@[j]@ == k by {
            let j = choose|j: int| 0 <= j < self.entries_view().len() && #[trigger] self.entries_view()[j].0 == k;
            assert(r@[j]@ == k);
        }
        r
    }
}

impl View for ImportMap {
    type V = Map<Seq<char>, ImportRecord>;

    closed spec fn view(&self) -> Map<Seq<char>, ImportRecord> {
        map_of_entries(self.entries_view())
    }
}

} // verus!
