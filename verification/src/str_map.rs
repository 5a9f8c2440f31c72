use vstd::prelude::*;

verus! {

/// The map that a list of keyed entries stands for: a later entry for a key
/// replaces an earlier one.
pub open spec fn map_of<V>(s: Seq<(String, V)>) -> Map<Seq<char>, V>
    decreases s.len(),
{
    if s.len() == 0 {
        Map::empty()
    } else {
        map_of(s.drop_last()).insert(s.last().0@, s.last().1)
    }
}

/// Whether no two entries of `s` have keys with the same text.
pub open spec fn keys_distinct<V>(s: Seq<(String, V)>) -> bool {
    forall|i: int, j: int| 0 <= i < j < s.len() ==> s[i].0@ != s[j].0@
}

/// A key maps to the value of its last entry, and a key without entries is absent.
pub proof fn lemma_map_of<V>(s: Seq<(String, V)>, k: Seq<char>)
    ensures
        forall|i: int|
            0 <= i < s.len() && s[i].0@ == k && (forall|j: int| i < j < s.len() ==> s[j].0@ != k)
                ==> map_of(s).contains_key(k) && map_of(s)[k] == s[i].1,
        (forall|j: int| 0 <= j < s.len() ==> s[j].0@ != k) ==> !map_of(s).contains_key(k),
    decreases s.len(),
{
    if s.len() > 0 {
        let t = s.drop_last();
        lemma_map_of(t, k);
        assert forall|i: int|
            0 <= i < s.len() && s[i].0@ == k && (forall|j: int| i < j < s.len() ==> s[j].0@ != k)
            implies map_of(s).contains_key(k) && map_of(s)[k] == s[i].1 by {
            if i < s.len() - 1 {
                assert(s[s.len() - 1].0@ != k);
                assert(t[i] == s[i]);
                assert forall|j: int| i < j < t.len() implies t[j].0@ != k by {
                    assert(t[j] == s[j]);
                }
            }
        }
        if forall|j: int| 0 <= j < s.len() ==> s[j].0@ != k {
            assert(s[s.len() - 1].0@ != k);
            assert forall|j: int| 0 <= j < t.len() implies t[j].0@ != k by {
                assert(t[j] == s[j]);
            }
        }
    }
}

/// With distinct keys, each entry gives the value of its key.
pub proof fn lemma_map_of_distinct<V>(s: Seq<(String, V)>, i: int)
    requires
        keys_distinct(s),
        0 <= i < s.len(),
    ensures
        map_of(s).contains_key(s[i].0@),
        map_of(s)[s[i].0@] == s[i].1,
{
    lemma_map_of(s, s[i].0@);
}

/// The keys of `map_of(s)` are those of its entries.
pub proof fn lemma_map_of_dom<V>(s: Seq<(String, V)>, k: Seq<char>)
    ensures
        map_of(s).contains_key(k) <==> exists|i: int| 0 <= i < s.len() && s[i].0@ == k,
    decreases s.len(),
{
    if s.len() > 0 {
        let t = s.drop_last();
        lemma_map_of_dom(t, k);
        if exists|i: int| 0 <= i < t.len() && t[i].0@ == k {
            let i = choose|i: int| 0 <= i < t.len() && t[i].0@ == k;
            assert(s[i] == t[i]);
        }
        if exists|i: int| 0 <= i < s.len() && s[i].0@ == k {
            let i = choose|i: int| 0 <= i < s.len() && s[i].0@ == k;
            if i < t.len() {
                assert(t[i] == s[i]);
            }
        }
    }
}

/// A map from strings to values, kept as a list of entries with distinct keys in
/// the order in which the keys first came.
#[derive(Debug)]
pub struct StrMap<V> {
    entries: Vec<(String, V)>,
}

impl<V> View for StrMap<V> {
    type V = Map<Seq<char>, V>;

    closed spec fn view(&self) -> Map<Seq<char>, V> {
        map_of(self.entries@)
    }
}

/// Position of the entry for `key` in `entries`, if there is one.
fn position<V>(entries: &Vec<(String, V)>, key: &String) -> (r: Option<usize>)
    ensures
        r matches Some(i) ==> i < entries@.len() && entries@[i as int].0@ == key@,
        r is None ==> forall|j: int| 0 <= j < entries@.len() ==> entries@[j].0@ != key@,
{
    let n: usize = entries.len();
    for i in 0..n
        invariant
            n == entries@.len(),
            forall|j: int| 0 <= j < i ==> entries@[j].0@ != key@,
    {
        if entries[i].0 == *key {
            return Some(i);
        }
    }
    None
}

/// Sets the value for `key` in a list with distinct keys; a new key goes last.
fn insert_entry<V>(entries: &mut Vec<(String, V)>, key: String, value: V)
    requires
        keys_distinct(old(entries)@),
    ensures
        keys_distinct(final(entries)@),
        map_of(final(entries)@) == map_of(old(entries)@).insert(key@, value),
{
    let ghost old_entries = entries@;
    match position(entries, &key) {
        Some(i) => {
            entries.set(i, (key, value));
            proof {
                let s = entries@;
                assert forall|a: int, b: int| 0 <= a < b < s.len() implies s[a].0@ != s[b].0@ by {
                    assert(old_entries[a].0@ != old_entries[b].0@);
                }
                assert forall|k: Seq<char>| #[trigger] map_of(s).contains_key(k)
                    == map_of(old_entries).insert(key@, value).contains_key(k) && (map_of(s).contains_key(k)
                    ==> map_of(s)[k] == map_of(old_entries).insert(key@, value)[k]) by {
                    lemma_map_of(s, k);
                    lemma_map_of(old_entries, k);
                    lemma_map_of_dom(s, k);
                    lemma_map_of_dom(old_entries, k);
                    if k == key@ {
                        assert(s[i as int].0@ == k);
                    } else {
                        if exists|j: int| 0 <= j < s.len() && s[j].0@ == k {
                            let j = choose|j: int| 0 <= j < s.len() && s[j].0@ == k;
                            assert(old_entries[j] == s[j]);
                            lemma_map_of_distinct(s, j);
                            lemma_map_of_distinct(old_entries, j);
                        }
                        if exists|j: int| 0 <= j < old_entries.len() && old_entries[j].0@ == k {
                            let j = choose|j: int| 0 <= j < old_entries.len() && old_entries[j].0@ == k;
                            assert(old_entries[j] == s[j]);
                        }
                    }
                }
                assert(map_of(s) =~= map_of(old_entries).insert(key@, value));
            }
        },
        None => {
            entries.push((key, value));
            proof {
                let s = entries@;
                assert(s.drop_last() =~= old_entries);
                assert forall|a: int, b: int| 0 <= a < b < s.len() implies s[a].0@ != s[b].0@ by {
                    if b < s.len() - 1 {
                        assert(old_entries[a].0@ != old_entries[b].0@);
                    } else {
                        assert(old_entries[a] == s[a]);
                    }
                }
            }
        },
    }
}

/// The entries of `s` stand for a map with one key per entry.
proof fn lemma_dom_len<V>(s: Seq<(String, V)>, n: int)
    requires
        keys_distinct(s),
        0 <= n <= s.len(),
    ensures
        map_of(s.take(n)).dom().finite(),
        map_of(s.take(n)).dom().len() == n,
    decreases n,
{
    let t = s.take(n);
    if n > 0 {
        lemma_dom_len(s, n - 1);
        assert(t.drop_last() =~= s.take(n - 1));
        let k = t.last().0@;
        lemma_map_of_dom(t.drop_last(), k);
        if map_of(t.drop_last()).contains_key(k) {
            let i = choose|i: int| 0 <= i < t.drop_last().len() && t.drop_last()[i].0@ == k;
            assert(s[i].0@ == s[n - 1].0@);
        }
    } else {
        assert(map_of(t).dom() =~= Set::<Seq<char>>::empty());
    }
}

impl<V> StrMap<V> {
    /// The entries, in the order in which their keys first came.
    pub closed spec fn entry_seq(&self) -> Seq<(String, V)> {
        self.entries@
    }

    /// The map's invariant: no key occurs twice.
    #[verifier::type_invariant]
    spec fn keys_unique(&self) -> bool {
        keys_distinct(self.entries@)
    }

    /// An empty map.
    pub fn new() -> (r: Self)
        ensures
            r@ == Map::<Seq<char>, V>::empty(),
            r.entry_seq().len() == 0,
    {
        StrMap { entries: Vec::new() }
    }

    /// The entries, in the order in which their keys first came: one per key,
    /// each giving its key's value.
    pub fn entries(&self) -> (r: &Vec<(String, V)>)
        ensures
            r@ == self.entry_seq(),
            keys_distinct(r@),
            self@ == map_of(r@),
            self@.dom().finite(),
            self@.dom().len() == r@.len(),
    {
        proof {
            use_type_invariant(self);
            lemma_dom_len(self.entries@, self.entries@.len() as int);
            assert(self.entries@.take(self.entries@.len() as int) =~= self.entries@);
        }
        &self.entries
    }

    /// The value for `key`.
    pub fn get(&self, key: &String) -> (r: Option<&V>)
        ensures
            r matches Some(v) ==> self@.contains_key(key@) && self@[key@] == *v,
            r is None ==> !self@.contains_key(key@),
    {
        proof {
            use_type_invariant(self);
            lemma_map_of(self.entries@, key@);
        }
        match position(&self.entries, key) {
            Some(i) => {
                proof {
                    lemma_map_of_distinct(self.entries@, i as int);
                }
                Some(&self.entries[i].1)
            },
            None => None,
        }
    }

    /// Whether there is a value for `key`.
    pub fn contains_key(&self, key: &String) -> (r: bool)
        ensures
            r == self@.contains_key(key@),
    {
        self.get(key).is_some()
    }

    /// Sets the value for `key`; a new key goes after all others.
    pub fn insert(&mut self, key: String, value: V)
        ensures
            final(self)@ == old(self)@.insert(key@, value),
    {
        proof {
            use_type_invariant(&*self);
        }
        let mut entries: Vec<(String, V)> = Vec::new();
        std::mem::swap(&mut entries, &mut self.entries);
        insert_entry(&mut entries, key, value);
        self.entries = entries;
    }
}

} // verus!
