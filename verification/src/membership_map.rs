//! A table from string keys to membership degrees, each key held once.

use vstd::prelude::*;

use crate::membership::TernaryMembership;

verus! {

/// The string views of a list of borrowed strings.
pub open spec fn str_views(s: Seq<&str>) -> Seq<Seq<char>> {
    s.map_values(|x: &str| x@)
}

/// `ks` lists each member of `s` exactly once, and nothing else.
pub open spec fn lists_exactly(ks: Seq<Seq<char>>, s: Set<Seq<char>>) -> bool {
    &&& ks.no_duplicates()
    &&& forall|k: Seq<char>| ks.contains(k) <==> s.contains(k)
}

/// The degree of `k` in `m`, where a key that is absent counts as Low.
pub open spec fn degree_or_low(m: Map<Seq<char>, TernaryMembership>, k: Seq<char>) -> TernaryMembership {
    if m.contains_key(k) {
        m[k]
    } else {
        TernaryMembership::Low
    }
}

/// The keys of `m` whose degree is at least `level`.
pub open spec fn keys_at_least_spec(
    m: Map<Seq<char>, TernaryMembership>,
    level: TernaryMembership,
) -> Set<Seq<char>> {
    m.dom().filter(|k: Seq<char>| m[k].spec_value() >= level.spec_value())
}

/// The views of the keys of a list of entries, in order.
pub open spec fn entry_keys(s: Seq<(String, TernaryMembership)>) -> Seq<Seq<char>> {
    s.map_values(|e: (String, TernaryMembership)| e.0@)
}

/// The map that a list of entries with distinct keys stands for.
pub open spec fn entries_map(s: Seq<(String, TernaryMembership)>) -> Map<
    Seq<char>,
    TernaryMembership,
> {
    Map::new(
        |k: Seq<char>| entry_keys(s).contains(k),
        |k: Seq<char>| s[entry_keys(s).index_of(k)].1,
    )
}

/// In a list of entries with distinct keys, the entry at position `i` is
/// what the map holds for its key.
proof fn lemma_entry_in_map(s: Seq<(String, TernaryMembership)>, i: int)
    requires
        entry_keys(s).no_duplicates(),
        0 <= i < s.len(),
    ensures
        entries_map(s).contains_key(s[i].0@),
        entries_map(s)[s[i].0@] == s[i].1,
{
    let ks = entry_keys(s);
    assert(ks[i] == s[i].0@);
    assert(ks.contains(ks[i]));
    let j = ks.index_of(ks[i]);
    assert(0 <= j < ks.len() && ks[j] == ks[i]);
}

/// `x` is the key of one of the first `bound` entries, and that entry's
/// degree has a value of at least `lv`.
spec fn qualifying_key(s: Seq<(String, TernaryMembership)>, lv: int, bound: int, x: Seq<char>) -> bool {
    exists|m: int| 0 <= m < bound && #[trigger] entry_keys(s)[m] == x && s[m].1.spec_value() >= lv
}

/// A copy of a list of (variable, membership) pairs.
pub(crate) fn clone_pairs(pairs: &Vec<(String, TernaryMembership)>) -> (r: Vec<(String, TernaryMembership)>)
    ensures
        r@ == pairs@,
{
    let mut r: Vec<(String, TernaryMembership)> = Vec::new();
    let n = pairs.len();
    let mut i: usize = 0;
    while i < n
        invariant
            n == pairs@.len(),
            i <= n,
            r@ == pairs@.take(i as int),
        decreases n - i,
    {
        let name = pairs[i].0.clone();
        r.push((name, pairs[i].1));
        assert(r@ =~= pairs@.take(i + 1));
        i = i + 1;
    }
    assert(pairs@.take(n as int) =~= pairs@);
    r
}

/// A map from names to membership degrees, each name held once.
#[derive(Debug)]
pub struct MembershipMap {
    entries: Vec<(String, TernaryMembership)>,
}

impl MembershipMap {
    #[verifier::type_invariant]
    closed spec fn keys_distinct(&self) -> bool {
        entry_keys(self.entries@).no_duplicates()
    }
}

impl Clone for MembershipMap {
    fn clone(&self) -> (r: MembershipMap)
        ensures
            r@ == self@,
    {
        proof {
            use_type_invariant(self);
        }
        MembershipMap { entries: clone_pairs(&self.entries) }
    }
}

impl View for MembershipMap {
    type V = Map<Seq<char>, TernaryMembership>;

    closed spec fn view(&self) -> Map<Seq<char>, TernaryMembership> {
        entries_map(self.entries@)
    }
}

impl MembershipMap {
    /// Creates an empty map.
    pub fn new() -> (r: MembershipMap)
        ensures
            r@ == Map::<Seq<char>, TernaryMembership>::empty(),
    {
        let r = MembershipMap { entries: Vec::new() };
        assert(entry_keys(r.entries@) =~= Seq::<Seq<char>>::empty());
        assert(r@ =~= Map::<Seq<char>, TernaryMembership>::empty());
        r
    }

    /// The degree stored for `key`, if any.
    pub fn get(&self, key: &str) -> (r: Option<TernaryMembership>)
        ensures
            r == (if self@.contains_key(key@) {
                Some(self@[key@])
            } else {
                None
            }),
    {
        proof {
            use_type_invariant(self);
        }
        let owned = key.to_owned();
        let n = self.entries.len();
        let mut i: usize = 0;
        while i < n
            invariant
                n == self.entries@.len(),
                i <= n,
                owned@ == key@,
                entry_keys(self.entries@).no_duplicates(),
                forall|j: int| 0 <= j < i ==> entry_keys(self.entries@)[j] != key@,
            decreases n - i,
        {
            if self.entries[i].0 == owned {
                proof {
                    lemma_entry_in_map(self.entries@, i as int);
                }
                return Some(self.entries[i].1);
            }
            assert(entry_keys(self.entries@)[i as int] == self.entries@[i as int].0@);
            i = i + 1;
        }
        assert(!entry_keys(self.entries@).contains(key@));
        None
    }

    /// The number of keys in the map.
    pub fn len(&self) -> (r: usize)
        ensures
            r == self@.len(),
    {
        proof {
            use_type_invariant(self);
            let ks = entry_keys(self.entries@);
            assert(self@.dom() =~= ks.to_set());
            ks.unique_seq_to_set();
        }
        self.entries.len()
    }

    /// Whether `key` has a degree in the map.
    pub fn contains_key(&self, key: &str) -> (r: bool)
        ensures
            r == self@.contains_key(key@),
    {
        self.get(key).is_some()
    }

    /// Removes `key` and returns the degree it had, if it was present.
    pub fn remove(&mut self, key: &str) -> (r: Option<TernaryMembership>)
        ensures
            final(self)@ == old(self)@.remove(key@),
            r == (if old(self)@.contains_key(key@) {
                Some(old(self)@[key@])
            } else {
                None
            }),
    {
        proof {
            use_type_invariant(&*self);
        }
        let owned = key.to_owned();
        let mut entries: Vec<(String, TernaryMembership)> = Vec::new();
        std::mem::swap(&mut entries, &mut self.entries);
        let ghost before = entries@;
        let n = entries.len();
        let mut i: usize = 0;
        while i < n
            invariant
                n == entries@.len(),
                i <= n,
                entries@ == before,
                old(self)@ == entries_map(before),
                owned@ == key@,
                entry_keys(before).no_duplicates(),
                forall|j: int| 0 <= j < i ==> entry_keys(before)[j] != key@,
            decreases n - i,
        {
            if entries[i].0 == owned {
                proof {
                    lemma_entry_in_map(before, i as int);
                }
                let removed = entries.remove(i);
                proof {
                    let after = entries@;
                    let kb = entry_keys(before);
                    let ka = entry_keys(after);
                    assert(ka =~= kb.remove(i as int));
                    assert(kb[i as int] == key@);
                    assert forall|a: int, b: int|
                        0 <= a < ka.len() && 0 <= b < ka.len() && a != b implies ka[a] != ka[b] by {
                        let a2 = if a < i { a } else { a + 1 };
                        let b2 = if b < i { b } else { b + 1 };
                        assert(ka[a] == kb[a2] && ka[b] == kb[b2]);
                    }
                    assert(ka.no_duplicates());
                    let target = entries_map(before).remove(key@);
                    assert forall|k: Seq<char>| #![auto]
                        entries_map(after).contains_key(k) == target.contains_key(k) by {
                        if ka.contains(k) {
                            let j = ka.index_of(k);
                            let j2 = if j < i { j } else { j + 1 };
                            assert(kb[j2] == k);
                            assert(j2 != i);
                            assert(k != key@);
                        }
                        if kb.contains(k) && k != key@ {
                            let j = kb.index_of(k);
                            assert(j != i);
                            let j1 = if j < i { j } else { j - 1 };
                            assert(ka[j1] == k);
                        }
                    }
                    assert forall|k: Seq<char>| entries_map(after).contains_key(k) implies entries_map(
                        after,
                    )[k] == target[k] by {
                        let j = ka.index_of(k);
                        lemma_entry_in_map(after, j);
                        let j2 = if j < i { j } else { j + 1 };
                        assert(after[j] == before[j2]);
                        assert(kb[j2] == k);
                        assert(k != key@);
                        lemma_entry_in_map(before, j2);
                    }
                    assert(entries_map(after) =~= target);
                }
                self.entries = entries;
                return Some(removed.1);
            }
            assert(entry_keys(before)[i as int] == before[i as int].0@);
            i = i + 1;
        }
        proof {
            assert(!entry_keys(before).contains(key@));
            assert(entries_map(before).remove(key@) =~= entries_map(before));
        }
        self.entries = entries;
        None
    }

    /// Sets the degree of `key`, adding the key where it is new.
    pub fn insert(&mut self, key: String, value: TernaryMembership)
        ensures
            final(self)@ == old(self)@.insert(key@, value),
    {
        proof {
            use_type_invariant(&*self);
        }
        let mut entries: Vec<(String, TernaryMembership)> = Vec::new();
        std::mem::swap(&mut entries, &mut self.entries);
        let ghost before = entries@;
        let ghost kv = key@;
        let ghost target = entries_map(before).insert(kv, value);
        let n = entries.len();
        let mut i: usize = 0;
        while i < n
            invariant
                n == entries@.len(),
                i <= n,
                entries@ == before,
                old(self)@ == entries_map(before),
                kv == key@,
                target == entries_map(before).insert(kv, value),
                entry_keys(before).no_duplicates(),
                forall|j: int| 0 <= j < i ==> entry_keys(before)[j] != kv,
            decreases n - i,
        {
            if entries[i].0 == key {
                proof {
                    assert(entry_keys(entries@.update(i as int, (key, value))) =~= entry_keys(
                        before,
                    ));
                }
                entries.set(i, (key, value));
                proof {
                    let after = entries@;
                    assert(entry_keys(after) == entry_keys(before));
                    assert(entry_keys(before)[i as int] == kv);
                    assert forall|k: Seq<char>| #![auto]
                        entries_map(after).contains_key(k) == target.contains_key(k) by {
                        if k == kv {
                            assert(entry_keys(after)[i as int] == k);
                            assert(entry_keys(before)[i as int] == k);
                        }
                    }
                    assert forall|k: Seq<char>| entries_map(after).contains_key(k) implies entries_map(
                        after,
                    )[k] == target[k] by {
                        let j = entry_keys(after).index_of(k);
                        lemma_entry_in_map(after, j);
                        lemma_entry_in_map(before, j);
                    }
                    assert(entries_map(after) =~= target);
                }
                self.entries = entries;
                return;
            }
            assert(entry_keys(before)[i as int] == before[i as int].0@);
            i = i + 1;
        }
        proof {
            assert(!entry_keys(before).contains(kv));
            assert(entry_keys(before.push((key, value))) =~= entry_keys(before).push(kv));
        }
        entries.push((key, value));
        proof {
            let after = entries@;
            assert forall|k: Seq<char>| #![auto]
                entries_map(after).contains_key(k) == target.contains_key(k) by {
                if entry_keys(before).contains(k) {
                    let j = entry_keys(before).index_of(k);
                    assert(entry_keys(after)[j] == k);
                }
                if entry_keys(after).contains(k) && k != kv {
                    let j = entry_keys(after).index_of(k);
                    assert(entry_keys(before)[j] == k);
                }
                if k == kv {
                    assert(entry_keys(after)[before.len() as int] == k);
                }
            }
            assert forall|k: Seq<char>| entries_map(after).contains_key(k) implies entries_map(
                after,
            )[k] == target[k] by {
                let j = entry_keys(after).index_of(k);
                lemma_entry_in_map(after, j);
                if j < before.len() {
                    lemma_entry_in_map(before, j);
                }
            }
            assert(entries_map(after) =~= target);
        }
        self.entries = entries;
    }

    /// The keys whose degree is at least `level`, each listed once.
    pub fn keys_at_least(&self, level: TernaryMembership) -> (r: Vec<&str>)
        ensures
            lists_exactly(str_views(r@), keys_at_least_spec(self@, level)),
    {
        proof {
            use_type_invariant(self);
        }
        let ghost e = self.entries@;
        let ghost lv: int = level.spec_value() as int;
        let mut r: Vec<&str> = Vec::new();
        let n = self.entries.len();
        let mut i: usize = 0;
        while i < n
            invariant
                n == e.len(),
                e == self.entries@,
                lv == level.spec_value(),
                i <= n,
                entry_keys(e).no_duplicates(),
                str_views(r@).no_duplicates(),
                forall|j: int|
                    0 <= j < r@.len() ==> qualifying_key(e, lv, i as int, #[trigger] str_views(r@)[j]),
                forall|m: int|
                    0 <= m < i && e[m].1.spec_value() >= lv ==> str_views(r@).contains(
                        #[trigger] entry_keys(e)[m],
                    ),
            decreases n - i,
        {
            if self.entries[i].1.value() >= level.value() {
                let k: &str = self.entries[i].0.as_str();
                let ghost old_r = r@;
                proof {
                    assert(entry_keys(e)[i as int] == k@);
                    assert forall|j: int| 0 <= j < old_r.len() implies str_views(old_r)[j] != k@ by {
                        assert(qualifying_key(e, lv, i as int, str_views(old_r)[j]));
                        let m = choose|m: int|
                            0 <= m < i && #[trigger] entry_keys(e)[m] == str_views(old_r)[j]
                                && e[m].1.spec_value() >= lv;
                        assert(entry_keys(e)[m] != entry_keys(e)[i as int]);
                    }
                    assert(str_views(old_r.push(k)) =~= str_views(old_r).push(k@));
                }
                r.push(k);
                proof {
                    assert forall|m: int|
                        0 <= m < i + 1 && e[m].1.spec_value() >= lv implies str_views(r@).contains(
                        #[trigger] entry_keys(e)[m],
                    ) by {
                        if m == i {
                            assert(str_views(r@)[old_r.len() as int] == k@);
                        } else {
                            let j = choose|j: int|
                                0 <= j < old_r.len() && str_views(old_r)[j] == entry_keys(e)[m];
                            assert(str_views(r@)[j] == entry_keys(e)[m]);
                        }
                    }
                    assert forall|j: int| 0 <= j < r@.len() implies qualifying_key(
                        e,
                        lv,
                        i + 1,
                        #[trigger] str_views(r@)[j],
                    ) by {
                        if j < old_r.len() {
                            assert(str_views(r@)[j] == str_views(old_r)[j]);
                            assert(qualifying_key(e, lv, i as int, str_views(old_r)[j]));
                        } else {
                            assert(entry_keys(e)[i as int] == str_views(r@)[j]);
                        }
                    }
                }
            }
            i = i + 1;
        }
        proof {
            let target = keys_at_least_spec(self@, level);
            assert forall|k: Seq<char>| str_views(r@).contains(k) <==> target.contains(k) by {
                if str_views(r@).contains(k) {
                    let j = choose|j: int| 0 <= j < r@.len() && str_views(r@)[j] == k;
                    assert(qualifying_key(e, lv, n as int, str_views(r@)[j]));
                    let m = choose|m: int|
                        0 <= m < n && #[trigger] entry_keys(e)[m] == str_views(r@)[j]
                            && e[m].1.spec_value() >= lv;
                    lemma_entry_in_map(e, m);
                }
                if target.contains(k) {
                    assert(entry_keys(e).contains(k));
                    let m = choose|m: int| 0 <= m < e.len() && entry_keys(e)[m] == k;
                    lemma_entry_in_map(e, m);
                }
            }
        }
        r
    }
}

} // verus!
