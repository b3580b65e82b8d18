//! The string-to-string property mapping of a table, with unique keys.

use crate::json::str_eq;
use vstd::prelude::*;

verus! {

/// The mapping an entry list denotes: entries are inserted from front to
/// back, so a later entry for the same key wins.
pub open spec fn map_of(s: Seq<(Seq<char>, Seq<char>)>) -> Map<Seq<char>, Seq<char>>
    decreases s.len(),
{
    if s.len() == 0 {
        Map::empty()
    } else {
        map_of(s.drop_last()).insert(s.last().0, s.last().1)
    }
}

/// The set of keys in a key list.
pub open spec fn key_set(keys: Seq<Seq<char>>) -> Set<Seq<char>> {
    Set::new(|k: Seq<char>| keys.contains(k))
}

/// What merging staged property changes into a base mapping yields: every key
/// of the base that is not removed keeps its base value unless the updates
/// bind it, and every updated key takes its updated value.
pub open spec fn spec_merge(
    base: Map<Seq<char>, Seq<char>>,
    updates: Map<Seq<char>, Seq<char>>,
    removed: Set<Seq<char>>,
) -> Map<Seq<char>, Seq<char>> {
    base.remove_keys(removed).union_prefer_right(updates)
}

/// A string-to-string mapping with unique keys, in insertion order.
#[derive(Debug)]
pub struct Properties {
    entries: Vec<(String, String)>,
}

impl View for Properties {
    type V = Map<Seq<char>, Seq<char>>;

    closed spec fn view(&self) -> Map<Seq<char>, Seq<char>> {
        map_of(self.entries@.map_values(|e: (String, String)| (e.0@, e.1@)))
    }
}

impl Properties {
    /// The entry list holds each key at most once.
    pub closed spec fn wf(&self) -> bool {
        keys_unique(self.entries@.map_values(|e: (String, String)| (e.0@, e.1@)))
    }
}

/// No two entries share a key.
pub open spec fn keys_unique(s: Seq<(Seq<char>, Seq<char>)>) -> bool {
    forall|i: int, j: int| 0 <= i < j < s.len() ==> (#[trigger] s[i]).0 != (#[trigger] s[j]).0
}

/// A key is in the denoted mapping exactly when some entry holds it.
proof fn lemma_map_of_domain(s: Seq<(Seq<char>, Seq<char>)>, k: Seq<char>)
    ensures
        map_of(s).contains_key(k) <==> exists|i: int| 0 <= i < s.len() && (#[trigger] s[i]).0 == k,
    decreases s.len(),
{
    if s.len() > 0 {
        lemma_map_of_domain(s.drop_last(), k);
        if s.last().0 == k {
            assert(s[s.len() - 1].0 == k);
        } else if map_of(s).contains_key(k) {
            let i = choose|i: int| 0 <= i < s.len() - 1 && (#[trigger] s.drop_last()[i]).0 == k;
            assert(s[i].0 == k);
        } else {
            assert forall|i: int| 0 <= i < s.len() && (#[trigger] s[i]).0 == k implies false by {
                if i < s.len() - 1 {
                    assert(s.drop_last()[i].0 == k);
                }
            }
        }
    }
}

/// With unique keys, each entry gives its key's value in the denoted mapping.
proof fn lemma_map_of_index(s: Seq<(Seq<char>, Seq<char>)>, i: int)
    requires
        keys_unique(s),
        0 <= i < s.len(),
    ensures
        map_of(s).contains_key(s[i].0),
        map_of(s)[s[i].0] == s[i].1,
    decreases s.len(),
{
    lemma_map_of_domain(s, s[i].0);
    if i < s.len() - 1 {
        assert(s[i].0 != s.last().0);
        assert(s.drop_last()[i] == s[i]);
        lemma_map_of_index(s.drop_last(), i);
    }
}

/// Updating the entry that holds a key denotes inserting into the mapping.
proof fn lemma_map_of_update(s: Seq<(Seq<char>, Seq<char>)>, i: int, v: Seq<char>)
    requires
        keys_unique(s),
        0 <= i < s.len(),
    ensures
        map_of(s.update(i, (s[i].0, v))) == map_of(s).insert(s[i].0, v),
        keys_unique(s.update(i, (s[i].0, v))),
    decreases s.len(),
{
    let t = s.update(i, (s[i].0, v));
    assert(keys_unique(t));
    if i == s.len() - 1 {
        assert(t.drop_last() =~= s.drop_last());
        assert(t.last() == (s[i].0, v));
        assert(map_of(t) =~= map_of(s).insert(s[i].0, v));
    } else {
        lemma_map_of_update(s.drop_last(), i, v);
        assert(t.drop_last() =~= s.drop_last().update(i, (s[i].0, v)));
        assert(s.drop_last()[i] == s[i]);
        assert(t.last() == s.last());
        assert(s[i].0 != s.last().0);
        assert(map_of(t) == map_of(s.drop_last()).insert(s[i].0, v).insert(
            s.last().0,
            s.last().1,
        ));
        assert(map_of(t) =~= map_of(s).insert(s[i].0, v));
    }
}

impl Properties {
    /// An empty mapping.
    pub fn new() -> (r: Properties)
        ensures
            r@ == Map::<Seq<char>, Seq<char>>::empty(),
            r.wf(),
    {
        let r = Properties { entries: Vec::new() };
        proof {
            assert(r.entries@.map_values(|e: (String, String)| (e.0@, e.1@)) =~= Seq::empty());
        }
        r
    }

    /// How many keys the mapping holds.
    pub fn len(&self) -> (r: usize)
        requires
            self.wf(),
        ensures
            r == self@.dom().len(),
    {
        proof {
            lemma_entries_len(self.entries@.map_values(|e: (String, String)| (e.0@, e.1@)));
        }
        self.entries.len()
    }

    /// The entry at a position, in insertion order.
    pub fn entry_at(&self, i: usize) -> (r: (&String, &String))
        requires
            self.wf(),
            i < self@.dom().len(),
        ensures
            self@.contains_key(r.0@),
            self@[r.0@] == r.1@,
    {
        proof {
            let s = self.entries@.map_values(|e: (String, String)| (e.0@, e.1@));
            lemma_entries_len(s);
            lemma_map_of_index(s, i as int);
        }
        (&self.entries[i].0, &self.entries[i].1)
    }

    /// Binds `key` to `value`, replacing any earlier binding.
    pub fn insert(&mut self, key: &str, value: &str)
        requires
            old(self).wf(),
        ensures
            final(self).wf(),
            final(self)@ == old(self)@.insert(key@, value@),
    {
        let ghost s0 = self.entries@.map_values(|e: (String, String)| (e.0@, e.1@));
        let mut i: usize = 0;
        while i < self.entries.len()
            invariant
                i <= self.entries.len(),
                self.wf(),
                self.entries@.map_values(|e: (String, String)| (e.0@, e.1@)) == s0,
                old(self)@ == map_of(s0),
                forall|k: int| 0 <= k < i ==> (#[trigger] s0[k]).0 != key@,
            decreases self.entries.len() - i,
        {
            if str_eq(self.entries[i].0.as_str(), key) {
                proof {
                    assert(s0[i as int].0 == key@);
                    lemma_map_of_update(s0, i as int, value@);
                }
                self.entries[i].1 = value.to_owned();
                proof {
                    assert(self.entries@.map_values(|e: (String, String)| (e.0@, e.1@)) =~= s0
                        .update(i as int, (key@, value@)));
                }
                return ;
            }
            i += 1;
        }
        self.entries.push((key.to_owned(), value.to_owned()));
        proof {
            let s1 = self.entries@.map_values(|e: (String, String)| (e.0@, e.1@));
            assert(s1.drop_last() =~= s0);
            assert(s1.last() == (key@, value@));
            assert forall|a: int, b: int| 0 <= a < b < s1.len() implies (#[trigger] s1[a]).0 != (
            #[trigger] s1[b]).0 by {
                assert(s1[a] == s1.drop_last()[a]);
                if b < s1.len() - 1 {
                    assert(s1[b] == s1.drop_last()[b]);
                } else {
                    assert(s1[b] == (key@, value@));
                }
            }
        }
    }

    /// The value bound to `key`, if any.
    pub fn get<'a>(&'a self, key: &str) -> (r: Option<&'a String>)
        requires
            self.wf(),
        ensures
            match r {
                Some(v) => self@.contains_key(key@) && self@[key@] == v@,
                None => !self@.contains_key(key@),
            },
    {
        let ghost s = self.entries@.map_values(|e: (String, String)| (e.0@, e.1@));
        let mut i: usize = 0;
        while i < self.entries.len()
            invariant
                i <= self.entries.len(),
                self.wf(),
                s == self.entries@.map_values(|e: (String, String)| (e.0@, e.1@)),
                forall|k: int| 0 <= k < i ==> (#[trigger] s[k]).0 != key@,
            decreases self.entries.len() - i,
        {
            if str_eq(self.entries[i].0.as_str(), key) {
                proof {
                    lemma_map_of_index(s, i as int);
                }
                return Some(&self.entries[i].1);
            }
            i += 1;
        }
        proof {
            lemma_map_of_domain(s, key@);
        }
        None
    }

    /// Whether `key` is bound.
    pub fn contains_key(&self, key: &str) -> (r: bool)
        requires
            self.wf(),
        ensures
            r == self@.contains_key(key@),
    {
        self.get(key).is_some()
    }
}

/// Whether a key list holds a key, character for character.
pub fn key_list_contains(keys: &Vec<String>, key: &str) -> (r: bool)
    ensures
        r == key_set(keys@.map_values(|s: String| s@)).contains(key@),
{
    let ghost ks = keys@.map_values(|s: String| s@);
    let mut i: usize = 0;
    while i < keys.len()
        invariant
            i <= keys.len(),
            ks == keys@.map_values(|s: String| s@),
            forall|k: int| 0 <= k < i ==> #[trigger] ks[k] != key@,
        decreases keys.len() - i,
    {
        if str_eq(keys[i].as_str(), key) {
            proof {
                assert(ks[i as int] == key@);
            }
            return true;
        }
        i += 1;
    }
    proof {
        assert(!ks.contains(key@));
    }
    false
}

impl Properties {
    /// The prospective mapping after applying staged changes to this base:
    /// every key not removed keeps its base value unless updated, removed
    /// keys are dropped, and every updated key takes its updated value.
    pub fn merged_with(&self, updates: &Properties, removals: &Vec<String>) -> (r: Properties)
        requires
            self.wf(),
            updates.wf(),
        ensures
            r.wf(),
            r@ == spec_merge(self@, updates@, key_set(removals@.map_values(|s: String| s@))),
    {
        let ghost s0 = self.entries@.map_values(|e: (String, String)| (e.0@, e.1@));
        let ghost u0 = updates.entries@.map_values(|e: (String, String)| (e.0@, e.1@));
        let ghost rset = key_set(removals@.map_values(|s: String| s@));
        let mut changes = Properties::new();
        proof {
            assert(s0.take(0) =~= Seq::empty());
            assert(changes@ =~= map_of(s0.take(0)).remove_keys(rset));
        }
        let mut i: usize = 0;
        while i < self.entries.len()
            invariant
                i <= self.entries.len(),
                self.wf(),
                changes.wf(),
                s0 == self.entries@.map_values(|e: (String, String)| (e.0@, e.1@)),
                rset == key_set(removals@.map_values(|s: String| s@)),
                changes@ == map_of(s0.take(i as int)).remove_keys(rset),
            decreases self.entries.len() - i,
        {
            let ghost pre = changes@;
            proof {
                assert(s0.take(i + 1).drop_last() =~= s0.take(i as int));
                assert(s0.take(i + 1).last() == s0[i as int]);
            }
            if !key_list_contains(removals, self.entries[i].0.as_str()) {
                changes.insert(self.entries[i].0.as_str(), self.entries[i].1.as_str());
                proof {
                    assert(changes@ =~= map_of(s0.take(i + 1)).remove_keys(rset));
                }
            } else {
                proof {
                    assert(changes@ =~= map_of(s0.take(i + 1)).remove_keys(rset));
                }
            }
            i += 1;
        }
        proof {
            assert(s0.take(self.entries@.len() as int) =~= s0);
        }
        let mut j: usize = 0;
        proof {
            assert(u0.take(0) =~= Seq::empty());
            assert(changes@ =~= self@.remove_keys(rset).union_prefer_right(map_of(u0.take(0))));
        }
        while j < updates.entries.len()
            invariant
                j <= updates.entries.len(),
                updates.wf(),
                changes.wf(),
                u0 == updates.entries@.map_values(|e: (String, String)| (e.0@, e.1@)),
                rset == key_set(removals@.map_values(|s: String| s@)),
                changes@ == self@.remove_keys(rset).union_prefer_right(map_of(u0.take(j as int))),
            decreases updates.entries.len() - j,
        {
            proof {
                assert(u0.take(j + 1).drop_last() =~= u0.take(j as int));
                assert(u0.take(j + 1).last() == u0[j as int]);
            }
            changes.insert(updates.entries[j].0.as_str(), updates.entries[j].1.as_str());
            proof {
                assert(changes@ =~= self@.remove_keys(rset).union_prefer_right(
                    map_of(u0.take(j + 1)),
                ));
            }
            j += 1;
        }
        proof {
            assert(u0.take(updates.entries@.len() as int) =~= u0);
        }
        changes
    }

    /// Whether two mappings bind exactly the same keys to the same values.
    pub fn eq_props(&self, other: &Properties) -> (r: bool)
        requires
            self.wf(),
            other.wf(),
        ensures
            r == (self@ == other@),
    {
        let ghost s0 = self.entries@.map_values(|e: (String, String)| (e.0@, e.1@));
        let ghost t0 = other.entries@.map_values(|e: (String, String)| (e.0@, e.1@));
        let mut i: usize = 0;
        while i < self.entries.len()
            invariant
                i <= self.entries.len(),
                self.wf(),
                other.wf(),
                s0 == self.entries@.map_values(|e: (String, String)| (e.0@, e.1@)),
                forall|k: int|
                    0 <= k < i ==> other@.contains_key((#[trigger] s0[k]).0) && other@[s0[k].0]
                        == s0[k].1,
            decreases self.entries.len() - i,
        {
            proof {
                lemma_map_of_index(s0, i as int);
            }
            match other.get(self.entries[i].0.as_str()) {
                Some(v) => {
                    if !str_eq(v.as_str(), self.entries[i].1.as_str()) {
                        proof {
                            assert(self@[s0[i as int].0] != other@[s0[i as int].0]);
                        }
                        return false;
                    }
                },
                None => {
                    proof {
                        assert(self@.contains_key(s0[i as int].0));
                    }
                    return false;
                },
            }
            i += 1;
        }
        let mut j: usize = 0;
        while j < other.entries.len()
            invariant
                j <= other.entries.len(),
                self.wf(),
                other.wf(),
                s0 == self.entries@.map_values(|e: (String, String)| (e.0@, e.1@)),
                t0 == other.entries@.map_values(|e: (String, String)| (e.0@, e.1@)),
                forall|k: int|
                    0 <= k < s0.len() ==> other@.contains_key((#[trigger] s0[k]).0) && other@[s0[k].0]
                        == s0[k].1,
                forall|k: int| 0 <= k < j ==> self@.contains_key((#[trigger] t0[k]).0),
            decreases other.entries.len() - j,
        {
            proof {
                lemma_map_of_index(t0, j as int);
            }
            if self.get(other.entries[j].0.as_str()).is_none() {
                proof {
                    assert(other@.contains_key(t0[j as int].0));
                }
                return false;
            }
            j += 1;
        }
        proof {
            assert forall|k: Seq<char>| #[trigger] self@.dom().contains(k) implies other@.dom()
                .contains(k) && other@[k] == self@[k] by {
                lemma_map_of_domain(s0, k);
                let idx = choose|idx: int| 0 <= idx < s0.len() && (#[trigger] s0[idx]).0 == k;
                lemma_map_of_index(s0, idx);
            }
            assert forall|k: Seq<char>| #[trigger] other@.dom().contains(k) implies self@.dom()
                .contains(k) by {
                lemma_map_of_domain(t0, k);
                let idx = choose|idx: int| 0 <= idx < t0.len() && (#[trigger] t0[idx]).0 == k;
                assert(self@.contains_key(t0[idx].0));
            }
            assert(self@.dom() =~= other@.dom());
            assert(self@ =~= other@);
        }
        true
    }
}

impl Clone for Properties {
    /// The clone denotes the same mapping, and is well-formed even where the
    /// original's entry list held a key twice.
    fn clone(&self) -> (r: Self)
        ensures
            r.wf(),
            r@ == self@,
    {
        let mut r = Properties::new();
        proof {
            let s0 = self.entries@.map_values(|e: (String, String)| (e.0@, e.1@));
            assert(s0.take(0) =~= Seq::empty());
        }
        let mut i: usize = 0;
        while i < self.entries.len()
            invariant
                i <= self.entries.len(),
                r.wf(),
                r@ == map_of(
                    self.entries@.map_values(|e: (String, String)| (e.0@, e.1@)).take(i as int),
                ),
            decreases self.entries.len() - i,
        {
            let ghost s0 = self.entries@.map_values(|e: (String, String)| (e.0@, e.1@));
            proof {
                assert(s0.take(i + 1).drop_last() =~= s0.take(i as int));
                assert(s0.take(i + 1).last() == s0[i as int]);
            }
            r.insert(self.entries[i].0.as_str(), self.entries[i].1.as_str());
            i += 1;
        }
        proof {
            let s0 = self.entries@.map_values(|e: (String, String)| (e.0@, e.1@));
            assert(s0.take(self.entries@.len() as int) =~= s0);
        }
        r
    }
}

/// With unique keys the mapping has exactly one key per entry.
proof fn lemma_entries_len(s: Seq<(Seq<char>, Seq<char>)>)
    requires
        keys_unique(s),
    ensures
        map_of(s).dom().len() == s.len(),
        map_of(s).dom().finite(),
    decreases s.len(),
{
    if s.len() == 0 {
        assert(map_of(s).dom() =~= Set::empty());
    } else {
        lemma_entries_len(s.drop_last());
        lemma_map_of_domain(s.drop_last(), s.last().0);
        assert(!map_of(s.drop_last()).contains_key(s.last().0));
        assert(map_of(s).dom() =~= map_of(s.drop_last()).dom().insert(s.last().0));
        vstd::set::axiom_set_insert_finite(map_of(s.drop_last()).dom(), s.last().0);
        vstd::set::axiom_set_insert_len(map_of(s.drop_last()).dom(), s.last().0);
    }
}

} // verus!
