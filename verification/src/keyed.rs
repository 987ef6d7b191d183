//! Tables held as vectors of records, each record identified by a textual key.
//!
//! A vector whose keys are pairwise distinct stands for a finite map from keys
//! to the records' models; the lemmas here relate the vector operations to
//! that map.
use vstd::prelude::*;
use crate::text::str_eq;

verus! {

/// A record identified by a textual key.
pub trait Keyed {
    type Model;

    spec fn key_of(&self) -> Seq<char>;

    spec fn model(&self) -> Self::Model;

    fn key(&self) -> (k: &str)
        ensures
            k@ == self.key_of(),
    ;
}

impl Keyed for String {
    type Model = Seq<char>;

    open spec fn key_of(&self) -> Seq<char> {
        self@
    }

    open spec fn model(&self) -> Seq<char> {
        self@
    }

    fn key(&self) -> (k: &str) {
        self.as_str()
    }
}

pub open spec fn has_key<T: Keyed>(s: Seq<T>, k: Seq<char>) -> bool {
    exists|i: int| 0 <= i < s.len() && #[trigger] s[i].key_of() == k
}

pub open spec fn index_of_key<T: Keyed>(s: Seq<T>, k: Seq<char>) -> int {
    choose|i: int| 0 <= i < s.len() && #[trigger] s[i].key_of() == k
}

/// No two records of the table share a key.
pub open spec fn unique_keys<T: Keyed>(s: Seq<T>) -> bool {
    forall|i: int, j: int|
        0 <= i < s.len() && 0 <= j < s.len() && #[trigger] s[i].key_of() == #[trigger] s[j].key_of()
            ==> i == j
}

/// The map from each key to the model of the record that carries it.
pub open spec fn to_map<T: Keyed>(s: Seq<T>) -> Map<Seq<char>, T::Model> {
    Map::new(|k: Seq<char>| has_key(s, k), |k: Seq<char>| s[index_of_key(s, k)].model())
}

pub proof fn lemma_index_of_key<T: Keyed>(s: Seq<T>, i: int)
    requires
        unique_keys(s),
        0 <= i < s.len(),
    ensures
        has_key(s, s[i].key_of()),
        index_of_key(s, s[i].key_of()) == i,
        to_map(s).contains_key(s[i].key_of()),
        to_map(s)[s[i].key_of()] == s[i].model(),
{
    let k = s[i].key_of();
    assert(has_key(s, k));
    let j = index_of_key(s, k);
    assert(s[j].key_of() == k);
}

pub proof fn lemma_to_map_empty<T: Keyed>(s: Seq<T>)
    requires
        s.len() == 0,
    ensures
        unique_keys(s),
        to_map(s) == Map::<Seq<char>, T::Model>::empty(),
{
    assert(to_map(s) =~= Map::<Seq<char>, T::Model>::empty());
}

pub proof fn lemma_to_map_push<T: Keyed>(s: Seq<T>, x: T)
    requires
        unique_keys(s),
        !has_key(s, x.key_of()),
    ensures
        unique_keys(s.push(x)),
        to_map(s.push(x)) == to_map(s).insert(x.key_of(), x.model()),
        forall|k: Seq<char>| has_key(s.push(x), k) <==> (has_key(s, k) || k == x.key_of()),
{
    let t = s.push(x);
    assert forall|i: int, j: int|
        0 <= i < t.len() && 0 <= j < t.len() && #[trigger] t[i].key_of() == #[trigger] t[j].key_of()
        implies i == j by {
        if i < s.len() && j == s.len() {
            assert(s[i].key_of() == x.key_of());
        }
        if j < s.len() && i == s.len() {
            assert(s[j].key_of() == x.key_of());
        }
    }
    assert forall|k: Seq<char>| has_key(t, k) <==> (has_key(s, k) || k == x.key_of()) by {
        if has_key(s, k) {
            let i = choose|i: int| 0 <= i < s.len() && #[trigger] s[i].key_of() == k;
            assert(t[i].key_of() == k);
        }
        if k == x.key_of() {
            assert(t[s.len() as int].key_of() == k);
        }
        if has_key(t, k) {
            let i = choose|i: int| 0 <= i < t.len() && #[trigger] t[i].key_of() == k;
            if i < s.len() {
                assert(s[i].key_of() == k);
            }
        }
    }
    assert forall|k: Seq<char>| #[trigger] to_map(t).contains_key(k) implies to_map(t)[k]
        == to_map(s).insert(x.key_of(), x.model())[k] by {
        let i = index_of_key(t, k);
        lemma_index_of_key(t, i);
        if i < s.len() {
            lemma_index_of_key(s, i);
        }
    }
    assert(to_map(t) =~= to_map(s).insert(x.key_of(), x.model()));
}

pub proof fn lemma_to_map_update<T: Keyed>(s: Seq<T>, i: int, x: T)
    requires
        unique_keys(s),
        0 <= i < s.len(),
        x.key_of() == s[i].key_of(),
    ensures
        unique_keys(s.update(i, x)),
        to_map(s.update(i, x)) == to_map(s).insert(x.key_of(), x.model()),
        forall|k: Seq<char>| has_key(s.update(i, x), k) <==> has_key(s, k),
{
    let t = s.update(i, x);
    assert forall|a: int, b: int|
        0 <= a < t.len() && 0 <= b < t.len() && #[trigger] t[a].key_of() == #[trigger] t[b].key_of()
        implies a == b by {
        assert(s[a].key_of() == t[a].key_of());
        assert(s[b].key_of() == t[b].key_of());
    }
    assert forall|k: Seq<char>| has_key(t, k) <==> has_key(s, k) by {
        if has_key(s, k) {
            let j = choose|j: int| 0 <= j < s.len() && #[trigger] s[j].key_of() == k;
            assert(t[j].key_of() == k);
        }
        if has_key(t, k) {
            let j = choose|j: int| 0 <= j < t.len() && #[trigger] t[j].key_of() == k;
            assert(s[j].key_of() == k);
        }
    }
    assert forall|k: Seq<char>| #[trigger] to_map(t).contains_key(k) implies to_map(t)[k]
        == to_map(s).insert(x.key_of(), x.model())[k] by {
        let j = index_of_key(t, k);
        lemma_index_of_key(t, j);
        lemma_index_of_key(s, j);
    }
    assert(to_map(t) =~= to_map(s).insert(x.key_of(), x.model()));
}

pub proof fn lemma_to_map_remove<T: Keyed>(s: Seq<T>, i: int)
    requires
        unique_keys(s),
        0 <= i < s.len(),
    ensures
        unique_keys(s.remove(i)),
        to_map(s.remove(i)) == to_map(s).remove(s[i].key_of()),
        forall|k: Seq<char>| has_key(s.remove(i), k) <==> (has_key(s, k) && k != s[i].key_of()),
{
    let t = s.remove(i);
    let ki = s[i].key_of();
    assert forall|a: int| 0 <= a < t.len() implies #[trigger] t[a] == (if a < i {
        s[a]
    } else {
        s[a + 1]
    }) by {}
    assert forall|a: int, b: int|
        0 <= a < t.len() && 0 <= b < t.len() && #[trigger] t[a].key_of() == #[trigger] t[b].key_of()
        implies a == b by {
        let a2 = if a < i { a } else { a + 1 };
        let b2 = if b < i { b } else { b + 1 };
        assert(s[a2].key_of() == s[b2].key_of());
    }
    assert forall|k: Seq<char>| has_key(t, k) <==> (has_key(s, k) && k != ki) by {
        if has_key(s, k) && k != ki {
            let j = choose|j: int| 0 <= j < s.len() && #[trigger] s[j].key_of() == k;
            if j < i {
                assert(t[j].key_of() == k);
            } else {
                assert(j != i);
                assert(t[j - 1].key_of() == k);
            }
        }
        if has_key(t, k) {
            let j = choose|j: int| 0 <= j < t.len() && #[trigger] t[j].key_of() == k;
            let j2 = if j < i { j } else { j + 1 };
            assert(s[j2].key_of() == k);
            assert(j2 != i);
        }
    }
    assert forall|k: Seq<char>| #[trigger] to_map(t).contains_key(k) implies to_map(t)[k]
        == to_map(s).remove(ki)[k] by {
        let j = index_of_key(t, k);
        lemma_index_of_key(t, j);
        let j2 = if j < i { j } else { j + 1 };
        lemma_index_of_key(s, j2);
    }
    assert(to_map(t) =~= to_map(s).remove(ki));
}

pub open spec fn keys_of<T: Keyed>(s: Seq<T>) -> Seq<Seq<char>> {
    s.map_values(|x: T| x.key_of())
}

/// A table with unique keys has as many keys as records.
pub proof fn lemma_to_map_len<T: Keyed>(s: Seq<T>)
    requires
        unique_keys(s),
    ensures
        to_map(s).dom().finite(),
        to_map(s).dom().len() == s.len(),
{
    let ks = keys_of(s);
    assert(ks.no_duplicates()) by {
        assert forall|i: int, j: int| 0 <= i < ks.len() && 0 <= j < ks.len() && i != j implies ks[i]
            != ks[j] by {
            assert(ks[i] == s[i].key_of());
            assert(ks[j] == s[j].key_of());
        }
    }
    ks.unique_seq_to_set();
    assert forall|k: Seq<char>| to_map(s).dom().contains(k) <==> ks.to_set().contains(k) by {
        if has_key(s, k) {
            let i = choose|i: int| 0 <= i < s.len() && #[trigger] s[i].key_of() == k;
            assert(ks[i] == k);
        }
        if ks.to_set().contains(k) {
            let i = choose|i: int| 0 <= i < ks.len() && ks[i] == k;
            assert(s[i].key_of() == k);
        }
    }
    assert(to_map(s).dom() =~= ks.to_set());
}

/// The position of the record with key `k`, if the table has one.
pub fn find_key<T: Keyed>(v: &Vec<T>, k: &str) -> (r: Option<usize>)
    ensures
        match r {
            Some(i) => i < v@.len() && v@[i as int].key_of() == k@,
            None => !has_key(v@, k@),
        },
{
    let mut i: usize = 0;
    while i < v.len()
        invariant
            i <= v@.len(),
            forall|j: int| 0 <= j < i ==> #[trigger] v@[j].key_of() != k@,
        decreases v@.len() - i,
    {
        if str_eq(v[i].key(), k) {
            return Some(i);
        }
        i = i + 1;
    }
    None
}

/// Puts `x` in the table, in place of the record with the same key if there is one.
pub fn upsert<T: Keyed>(v: &mut Vec<T>, x: T)
    requires
        unique_keys(old(v)@),
    ensures
        unique_keys(final(v)@),
        to_map(final(v)@) == to_map(old(v)@).insert(x.key_of(), x.model()),
        forall|j: int|
            0 <= j < final(v)@.len() ==> #[trigger] final(v)@[j] == x || old(v)@.contains(
                final(v)@[j],
            ),
{
    match find_key(v, x.key()) {
        Some(i) => {
            proof {
                lemma_to_map_update(v@, i as int, x);
            }
            v.remove(i);
            v.insert(i, x);
            proof {
                assert(v@ =~= old(v)@.update(i as int, x));
                assert forall|j: int| 0 <= j < v@.len() implies #[trigger] v@[j] == x || old(v)@.contains(
                    v@[j],
                ) by {
                    if j != i {
                        assert(old(v)@[j] == v@[j]);
                    }
                }
            }
        },
        None => {
            proof {
                lemma_to_map_push(v@, x);
            }
            v.push(x);
            proof {
                assert forall|j: int| 0 <= j < v@.len() implies #[trigger] v@[j] == x || old(v)@.contains(
                    v@[j],
                ) by {
                    if j < old(v)@.len() {
                        assert(old(v)@[j] == v@[j]);
                    }
                }
            }
        },
    }
}

/// Puts `x` at position `i`, in place of the record there, which has the same key.
pub fn replace_at<T: Keyed>(v: &mut Vec<T>, i: usize, x: T)
    requires
        unique_keys(old(v)@),
        i < old(v)@.len(),
        old(v)@[i as int].key_of() == x.key_of(),
    ensures
        unique_keys(final(v)@),
        final(v)@ == old(v)@.update(i as int, x),
        to_map(final(v)@) == to_map(old(v)@).insert(x.key_of(), x.model()),
{
    proof {
        lemma_to_map_update(v@, i as int, x);
    }
    v.remove(i);
    v.insert(i, x);
    proof {
        assert(v@ =~= old(v)@.update(i as int, x));
    }
}

} // verus!
