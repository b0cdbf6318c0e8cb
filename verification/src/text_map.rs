//! A small map keyed by text (paths), kept as a vector of distinct keys.
use vstd::prelude::*;
use crate::text::{chars_lt, code_points, lemma_lex_lt_trichotomy, lemma_lex_lt_irreflexive, lemma_code_points_injective};

verus! {

/// The map that a list of (key, value) pairs with distinct keys stands for.
pub open spec fn map_of<V>(entries: Seq<(String, V)>) -> Map<Seq<char>, V>
    decreases entries.len(),
{
    if entries.len() == 0 {
        Map::empty()
    } else {
        map_of(entries.drop_last()).insert(entries.last().0@, entries.last().1)
    }
}

/// No key occurs twice.
pub open spec fn distinct_keys<V>(entries: Seq<(String, V)>) -> bool {
    forall|i: int, j: int|
        #![trigger entries[i], entries[j]]
        0 <= i < j < entries.len() ==> entries[i].0@ != entries[j].0@
}

pub proof fn lemma_map_of_index<V>(entries: Seq<(String, V)>, i: int)
    requires
        distinct_keys(entries),
        0 <= i < entries.len(),
    ensures
        map_of(entries).contains_key(entries[i].0@),
        map_of(entries)[entries[i].0@] == entries[i].1,
    decreases entries.len(),
{
    let last = entries.len() - 1;
    if i < last {
        let rest = entries.drop_last();
        assert(rest[i] == entries[i]);
        assert(entries[last] == entries.last());
        assert(entries[i].0@ != entries[last].0@);
        lemma_map_of_index(rest, i);
    }
}

pub proof fn lemma_map_of_absent<V>(entries: Seq<(String, V)>, k: Seq<char>)
    requires
        forall|i: int| 0 <= i < entries.len() ==> (#[trigger] entries[i]).0@ != k,
    ensures
        !map_of(entries).contains_key(k),
    decreases entries.len(),
{
    if entries.len() > 0 {
        let rest = entries.drop_last();
        assert forall|i: int| 0 <= i < rest.len() implies (#[trigger] rest[i]).0@ != k by {
            assert(rest[i] == entries[i]);
        }
        assert(entries[entries.len() - 1] == entries.last());
        lemma_map_of_absent(rest, k);
    }
}

pub proof fn lemma_map_of_present<V>(entries: Seq<(String, V)>, k: Seq<char>)
    requires
        map_of(entries).contains_key(k),
    ensures
        exists|i: int| 0 <= i < entries.len() && (#[trigger] entries[i]).0@ == k,
{
    if forall|i: int| 0 <= i < entries.len() ==> (#[trigger] entries[i]).0@ != k {
        lemma_map_of_absent(entries, k);
    }
}

pub proof fn lemma_map_of_len<V>(entries: Seq<(String, V)>)
    requires
        distinct_keys(entries),
    ensures
        map_of(entries).dom().finite(),
        map_of(entries).dom().len() == entries.len(),
    decreases entries.len(),
{
    if entries.len() > 0 {
        let rest = entries.drop_last();
        assert(distinct_keys(rest)) by {
            assert forall|i: int, j: int| 0 <= i < j < rest.len() implies rest[i].0@ != rest[j].0@ by {
                assert(rest[i] == entries[i]);
                assert(rest[j] == entries[j]);
            }
        }
        lemma_map_of_len(rest);
        assert forall|i: int| 0 <= i < rest.len() implies (#[trigger] rest[i]).0@ != entries.last().0@ by {
            assert(rest[i] == entries[i]);
            assert(entries[entries.len() - 1] == entries.last());
        }
        lemma_map_of_absent(rest, entries.last().0@);
    }
}

/// Replacing the value of an existing key.
pub proof fn lemma_map_of_update<V>(entries: Seq<(String, V)>, i: int, e: (String, V))
    requires
        distinct_keys(entries),
        0 <= i < entries.len(),
        entries[i].0@ == e.0@,
    ensures
        distinct_keys(entries.update(i, e)),
        map_of(entries.update(i, e)) == map_of(entries).insert(e.0@, e.1),
{
    let new = entries.update(i, e);
    assert(distinct_keys(new)) by {
        assert forall|a: int, b: int| 0 <= a < b < new.len() implies new[a].0@ != new[b].0@ by {
            assert(entries[a].0@ != entries[b].0@);
        }
    }
    let target = map_of(entries).insert(e.0@, e.1);
    assert forall|k: Seq<char>| #[trigger] map_of(new).contains_key(k) <==> target.contains_key(k) by {
        if map_of(new).contains_key(k) {
            lemma_map_of_present(new, k);
            let j = choose|j: int| 0 <= j < new.len() && (#[trigger] new[j]).0@ == k;
            if j != i {
                lemma_map_of_index(entries, j);
            }
        }
        if target.contains_key(k) && k != e.0@ {
            lemma_map_of_present(entries, k);
            let j = choose|j: int| 0 <= j < entries.len() && (#[trigger] entries[j]).0@ == k;
            lemma_map_of_index(new, j);
        }
        if k == e.0@ {
            lemma_map_of_index(new, i);
        }
    }
    assert forall|k: Seq<char>| #[trigger] map_of(new).contains_key(k) implies map_of(new)[k] == target[k] by {
        lemma_map_of_present(new, k);
        let j = choose|j: int| 0 <= j < new.len() && (#[trigger] new[j]).0@ == k;
        lemma_map_of_index(new, j);
        if j != i {
            lemma_map_of_index(entries, j);
        }
    }
    assert(map_of(new) =~= target);
}

/// A list with distinct keys whose pairs all agree with `target`, and which
/// covers every key of `target`, stands for `target`.
pub proof fn lemma_map_of_is<V>(entries: Seq<(String, V)>, target: Map<Seq<char>, V>)
    requires
        distinct_keys(entries),
        forall|i: int|
            0 <= i < entries.len() ==> target.contains_key((#[trigger] entries[i]).0@)
                && target[entries[i].0@] == entries[i].1,
        forall|k: Seq<char>|
            #[trigger] target.contains_key(k) ==> exists|i: int|
                0 <= i < entries.len() && (#[trigger] entries[i]).0@ == k,
    ensures
        map_of(entries) == target,
{
    assert forall|k: Seq<char>| #[trigger] map_of(entries).contains_key(k) <==> target.contains_key(k) by {
        if map_of(entries).contains_key(k) {
            lemma_map_of_present(entries, k);
        }
        if target.contains_key(k) {
            let i = choose|i: int| 0 <= i < entries.len() && (#[trigger] entries[i]).0@ == k;
            lemma_map_of_index(entries, i);
        }
    }
    assert forall|k: Seq<char>| #[trigger] map_of(entries).contains_key(k) implies map_of(entries)[k] == target[k] by {
        lemma_map_of_present(entries, k);
        let i = choose|i: int| 0 <= i < entries.len() && (#[trigger] entries[i]).0@ == k;
        lemma_map_of_index(entries, i);
    }
    assert(map_of(entries) =~= target);
}

/// The texts of a list of strings, as a set.
pub open spec fn text_set(items: Seq<String>) -> Set<Seq<char>> {
    Set::new(|k: Seq<char>| exists|j: int| 0 <= j < items.len() && (#[trigger] items[j])@ == k)
}

/// Whether some string of `items` reads `key`.
pub fn contains_text(items: &Vec<String>, key: &str) -> (r: bool)
    ensures
        r == text_set(items@).contains(key@),
{
    let k = key.to_string();
    let mut j: usize = 0;
    while j < items.len()
        invariant
            j <= items.len(),
            k@ == key@,
            forall|m: int| 0 <= m < j ==> (#[trigger] items@[m])@ != key@,
        decreases items.len() - j,
    {
        if items[j] == k {
            return true;
        }
        j = j + 1;
    }
    false
}

/// Text equality, by code point.
pub fn same_text(a: &Vec<char>, b: &Vec<char>) -> (r: bool)
    ensures
        r == (a@ == b@),
{
    let lt = chars_lt(a, b);
    let gt = chars_lt(b, a);
    proof {
        lemma_lex_lt_trichotomy(code_points(a@), code_points(b@));
        if !lt && !gt {
            lemma_code_points_injective(a@, b@);
        }
        if a@ == b@ {
            lemma_lex_lt_irreflexive(code_points(a@));
        }
    }
    !lt && !gt
}

/// Position of `key` in `entries`, if present.
pub fn position_of<V>(entries: &Vec<(String, V)>, key: &str) -> (pos: Option<usize>)
    ensures
        match pos {
            Some(i) => i < entries@.len() && entries@[i as int].0@ == key@,
            None => forall|i: int| 0 <= i < entries@.len() ==> (#[trigger] entries@[i]).0@ != key@,
        },
{
    let k = key.to_string();
    let mut i: usize = 0;
    while i < entries.len()
        invariant
            i <= entries.len(),
            k@ == key@,
            forall|j: int| 0 <= j < i ==> (#[trigger] entries@[j]).0@ != key@,
        decreases entries.len() - i,
    {
        if entries[i].0 == k {
            return Some(i);
        }
        i = i + 1;
    }
    None
}

/// A map from texts to values.
pub struct TextMap<V> {
    entries: Vec<(String, V)>,
}

impl<V> TextMap<V> {
    #[verifier::type_invariant]
    spec fn keys_distinct(self) -> bool {
        distinct_keys(self.entries@)
    }

    /// The map this stands for.
    pub closed spec fn view(&self) -> Map<Seq<char>, V> {
        map_of(self.entries@)
    }

    pub fn new() -> (m: Self)
        ensures
            m.view() == Map::<Seq<char>, V>::empty(),
            m.view().dom().finite(),
    {
        let m = TextMap { entries: Vec::new() };
        proof {
            assert(m.view().dom() =~= Set::<Seq<char>>::empty());
        }
        m
    }

    /// The value stored under `key`.
    pub fn get(&self, key: &str) -> (v: Option<&V>)
        ensures
            match v {
                Some(x) => self.view().contains_key(key@) && self.view()[key@] == *x,
                None => !self.view().contains_key(key@),
            },
    {
        proof {
            use_type_invariant(self);
        }
        match position_of(&self.entries, key) {
            Some(i) => {
                proof {
                    lemma_map_of_index(self.entries@, i as int);
                }
                Some(&self.entries[i].1)
            },
            None => {
                proof {
                    lemma_map_of_absent(self.entries@, key@);
                }
                None
            },
        }
    }

    /// Stores `value` under `key`, replacing what was there.
    pub fn insert(&mut self, key: String, value: V)
        ensures
            final(self).view() == old(self).view().insert(key@, value),
            old(self).view().dom().finite(),
            final(self).view().dom().finite(),
    {
        proof {
            use_type_invariant(&*self);
            lemma_map_of_len(self.entries@);
        }
        let mut entries: Vec<(String, V)> = Vec::new();
        std::mem::swap(&mut entries, &mut self.entries);
        let ghost old_entries = entries@;
        match position_of(&entries, key.as_str()) {
            Some(i) => {
                entries.set(i, (key, value));
                proof {
                    lemma_map_of_update(old_entries, i as int, entries@[i as int]);
                }
            },
            None => {
                entries.push((key, value));
                proof {
                    assert(entries@.drop_last() =~= old_entries);
                    assert(distinct_keys(entries@)) by {
                        assert forall|a: int, b: int| 0 <= a < b < entries@.len() implies entries@[a].0@ != entries@[b].0@ by {
                            if b < old_entries.len() {
                                assert(entries@[a] == old_entries[a]);
                                assert(entries@[b] == old_entries[b]);
                            } else {
                                assert(entries@[a] == old_entries[a]);
                            }
                        }
                    }
                }
            },
        }
        self.entries = entries;
    }

    /// Drops the entry for `key`, if any.
    pub fn remove(&mut self, key: &str)
        ensures
            final(self).view() == old(self).view().remove(key@),
            old(self).view().dom().finite(),
            final(self).view().dom().finite(),
    {
        proof {
            use_type_invariant(&*self);
            lemma_map_of_len(self.entries@);
        }
        let mut entries: Vec<(String, V)> = Vec::new();
        std::mem::swap(&mut entries, &mut self.entries);
        let ghost old_entries = entries@;
        let ghost target = map_of(old_entries).remove(key@);
        match position_of(&entries, key) {
            Some(i) => {
                entries.remove(i);
                proof {
                    let new = entries@;
                    assert(new == old_entries.remove(i as int));
                    assert forall|a: int, b: int| 0 <= a < b < new.len() implies new[a].0@ != new[b].0@ by {
                        let oa = if a < i { a } else { a + 1 };
                        let ob = if b < i { b } else { b + 1 };
                        assert(new[a] == old_entries[oa]);
                        assert(new[b] == old_entries[ob]);
                    }
                    assert forall|m: int| 0 <= m < new.len() implies target.contains_key((#[trigger] new[m]).0@)
                        && target[new[m].0@] == new[m].1 by {
                        let om = if m < i { m } else { m + 1 };
                        assert(new[m] == old_entries[om]);
                        lemma_map_of_index(old_entries, om);
                        assert(old_entries[om].0@ != old_entries[i as int].0@);
                    }
                    assert forall|k: Seq<char>| #[trigger] target.contains_key(k) implies exists|m: int|
                        0 <= m < new.len() && (#[trigger] new[m]).0@ == k by {
                        lemma_map_of_present(old_entries, k);
                        let o = choose|o: int| 0 <= o < old_entries.len() && (#[trigger] old_entries[o]).0@ == k;
                        let m = if o < i { o } else { o - 1 };
                        assert(new[m] == old_entries[o]);
                    }
                    lemma_map_of_is(new, target);
                }
            },
            None => {
                proof {
                    lemma_map_of_absent(old_entries, key@);
                    assert(target =~= map_of(old_entries));
                }
            },
        }
        self.entries = entries;
    }

    /// Keeps only the entries whose key is one of `keep`.
    pub fn retain(&mut self, keep: &Vec<String>)
        ensures
            final(self).view() == old(self).view().restrict(text_set(keep@)),
            old(self).view().dom().finite(),
            final(self).view().dom().finite(),
    {
        proof {
            use_type_invariant(&*self);
        }
        let mut entries: Vec<(String, V)> = Vec::new();
        std::mem::swap(&mut entries, &mut self.entries);
        let ghost old_entries = entries@;
        let ghost target = map_of(old_entries).restrict(text_set(keep@));
        let mut kept: Vec<(String, V)> = Vec::new();
        // Entries are taken from the back; `entries` holds the ones not yet seen.
        while entries.len() > 0
            invariant
                old_entries.len() >= entries@.len(),
                entries@ == old_entries.take(entries@.len() as int),
                distinct_keys(old_entries),
                distinct_keys(kept@),
                forall|m: int| #![trigger kept@[m]] 0 <= m < kept@.len() ==> exists|o: int|
                    entries@.len() <= o < old_entries.len() && old_entries[o] == kept@[m]
                        && text_set(keep@).contains(kept@[m].0@),
                forall|o: int| #![trigger old_entries[o]]
                    entries@.len() <= o < old_entries.len() && text_set(keep@).contains(old_entries[o].0@)
                        ==> exists|m: int| 0 <= m < kept@.len() && (#[trigger] kept@[m]).0@ == old_entries[o].0@,
            decreases entries@.len(),
        {
            let e = entries.pop().unwrap();
            let ghost o = entries@.len() as int;
            proof {
                assert(old_entries[o] == e);
                assert(entries@ =~= old_entries.take(o));
            }
            if contains_text(keep, e.0.as_str()) {
                let ghost before = kept@;
                kept.push(e);
                proof {
                    assert forall|a: int, b: int| 0 <= a < b < kept@.len() implies kept@[a].0@ != kept@[b].0@ by {
                        if b < before.len() {
                            assert(kept@[a] == before[a]);
                            assert(kept@[b] == before[b]);
                        } else {
                            assert(kept@[a] == before[a]);
                            let oa = choose|oa: int| o < oa < old_entries.len() && old_entries[oa] == before[a] && text_set(keep@).contains(before[a].0@);
                            assert(old_entries[o].0@ != old_entries[oa].0@);
                        }
                    }
                    assert forall|m: int| #![trigger kept@[m]] 0 <= m < kept@.len() implies exists|oo: int|
                        o <= oo < old_entries.len() && old_entries[oo] == kept@[m] && text_set(keep@).contains(kept@[m].0@) by {
                        if m < before.len() {
                            assert(kept@[m] == before[m]);
                        } else {
                            assert(old_entries[o] == kept@[m]);
                        }
                    }
                    assert forall|oo: int| #![trigger old_entries[oo]]
                        o <= oo < old_entries.len() && text_set(keep@).contains(old_entries[oo].0@) implies exists|m: int|
                        0 <= m < kept@.len() && (#[trigger] kept@[m]).0@ == old_entries[oo].0@ by {
                        if oo > o {
                            let m = choose|m: int| 0 <= m < before.len() && (#[trigger] before[m]).0@ == old_entries[oo].0@;
                            assert(kept@[m] == before[m]);
                        } else {
                            assert(kept@[before.len() as int] == old_entries[o]);
                        }
                    }
                }
            }
        }
        proof {
            lemma_map_of_len(old_entries);
            lemma_map_of_len(kept@);
        }
        proof {
            let new = kept@;
            assert forall|m: int| 0 <= m < new.len() implies target.contains_key((#[trigger] new[m]).0@)
                && target[new[m].0@] == new[m].1 by {
                let o = choose|o: int| 0 <= o < old_entries.len() && old_entries[o] == new[m] && text_set(keep@).contains(new[m].0@);
                lemma_map_of_index(old_entries, o);
            }
            assert forall|k: Seq<char>| #[trigger] target.contains_key(k) implies exists|m: int|
                0 <= m < new.len() && (#[trigger] new[m]).0@ == k by {
                lemma_map_of_present(old_entries, k);
                let o = choose|o: int| 0 <= o < old_entries.len() && (#[trigger] old_entries[o]).0@ == k;
            }
            lemma_map_of_is(new, target);
        }
        self.entries = kept;
    }

    /// Number of entries.
    pub fn len(&self) -> (n: usize)
        ensures
            self.view().dom().finite(),
            n == self.view().dom().len(),
    {
        proof {
            use_type_invariant(self);
            lemma_map_of_len(self.entries@);
        }
        self.entries.len()
    }
}

} // verus!
