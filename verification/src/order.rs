//! Sorting records by their textual key, in the order of `str`.
use vstd::prelude::*;
use crate::keyed::{Keyed, has_key, index_of_key, unique_keys, to_map, lemma_index_of_key};
use crate::text::{text_lt, str_lt, lemma_text_lt_asymmetric, lemma_text_lt_total, lemma_text_lt_transitive, lemma_text_lt_irreflexive};

verus! {

/// No record comes after one whose key is greater.
pub open spec fn sorted_by_key<T: Keyed>(s: Seq<T>) -> bool {
    forall|i: int, j: int|
        0 <= i < j < s.len() ==> !text_lt(#[trigger] s[j].key_of(), #[trigger] s[i].key_of())
}

pub proof fn lemma_insert_to_multiset<T>(s: Seq<T>, p: int, x: T)
    requires
        0 <= p <= s.len(),
    ensures
        s.insert(p, x).to_multiset() == s.to_multiset().insert(x),
{
    let t = s.insert(p, x);
    s.insert_ensures(p, x);
    assert(t.remove(p) =~= s);
    t.to_multiset_ensures();
    assert(t.contains(x)) by {
        assert(t[p] == x);
    }
    assert(t.to_multiset().count(x) > 0);
    assert(t.to_multiset() =~= s.to_multiset().insert(x));
}

pub proof fn lemma_push_to_multiset<T>(s: Seq<T>, x: T)
    ensures
        s.push(x).to_multiset() == s.to_multiset().insert(x),
{
    s.to_multiset_ensures();
}

/// A sorted table with pairwise distinct keys, sorted again, keeps its keys unique.
pub proof fn lemma_multiset_keeps_map<T: Keyed>(s: Seq<T>, t: Seq<T>)
    requires
        unique_keys(s),
        t.to_multiset() == s.to_multiset(),
    ensures
        unique_keys(t),
        to_map(t) == to_map(s),
        t.len() == s.len(),
        forall|k: Seq<char>| has_key(t, k) <==> has_key(s, k),
{
    s.to_multiset_ensures();
    t.to_multiset_ensures();
    assert forall|x: T| t.contains(x) <==> s.contains(x) by {
        s.to_multiset_ensures();
        t.to_multiset_ensures();
        assert(t.to_multiset().count(x) == s.to_multiset().count(x));
        assert(t.contains(x) <==> t.to_multiset().count(x) > 0);
        assert(s.contains(x) <==> s.to_multiset().count(x) > 0);
    }
    assert(s.no_duplicates()) by {
        assert forall|x: int, y: int| 0 <= x < s.len() && 0 <= y < s.len() && x != y
            implies s[x] != s[y] by {
            if s[x] == s[y] {
                assert(s[x].key_of() == s[y].key_of());
            }
        }
    }
    s.lemma_multiset_has_no_duplicates();
    assert forall|x: T| t.to_multiset().contains(x) implies t.to_multiset().count(x) == 1 by {
        assert(s.to_multiset().contains(x));
    }
    t.lemma_multiset_has_no_duplicates_conv();
    assert forall|i: int, j: int|
        0 <= i < t.len() && 0 <= j < t.len() && #[trigger] t[i].key_of() == #[trigger] t[j].key_of()
        implies i == j by {
        assert(t.contains(t[i]));
        assert(t.contains(t[j]));
        let a = choose|a: int| 0 <= a < s.len() && s[a] == t[i];
        let b = choose|b: int| 0 <= b < s.len() && s[b] == t[j];
        assert(s[a].key_of() == s[b].key_of());
        assert(a == b);
    }
    assert forall|k: Seq<char>| has_key(t, k) <==> has_key(s, k) by {
        if has_key(t, k) {
            let i = choose|i: int| 0 <= i < t.len() && #[trigger] t[i].key_of() == k;
            assert(t.contains(t[i]));
            let a = choose|a: int| 0 <= a < s.len() && s[a] == t[i];
            assert(s[a].key_of() == k);
        }
        if has_key(s, k) {
            let i = choose|i: int| 0 <= i < s.len() && #[trigger] s[i].key_of() == k;
            assert(s.contains(s[i]));
            let a = choose|a: int| 0 <= a < t.len() && t[a] == s[i];
            assert(t[a].key_of() == k);
        }
    }
    assert forall|k: Seq<char>| #[trigger] to_map(t).contains_key(k) implies to_map(t)[k]
        == to_map(s)[k] by {
        let i = index_of_key(t, k);
        lemma_index_of_key(t, i);
        assert(t.contains(t[i]));
        let a = choose|a: int| 0 <= a < s.len() && s[a] == t[i];
        lemma_index_of_key(s, a);
    }
    assert(to_map(t) =~= to_map(s));
}

/// The records of `v`, sorted by key.
pub fn sort_by_key<T: Keyed>(v: Vec<T>) -> (r: Vec<T>)
    ensures
        r@.to_multiset() == v@.to_multiset(),
        sorted_by_key(r@),
        r@.len() == v@.len(),
{
    let ghost orig = v@;
    let mut rest = v;
    let mut r: Vec<T> = Vec::new();
    proof {
        orig.to_multiset_ensures();
        r@.to_multiset_ensures();
        assert(r@.to_multiset() =~= vstd::multiset::Multiset::empty());
        assert(r@.to_multiset().add(rest@.to_multiset()) =~= orig.to_multiset());
    }
    while rest.len() > 0
        invariant
            r@.to_multiset().add(rest@.to_multiset()) == orig.to_multiset(),
            sorted_by_key(r@),
        decreases rest@.len(),
    {
        let ghost before = rest@;
        let x = rest.pop().unwrap();
        proof {
            assert(before =~= rest@.push(x));
            lemma_push_to_multiset(rest@, x);
        }
        let mut p: usize = 0;
        while p < r.len() && str_lt(r[p].key(), x.key())
            invariant
                p <= r@.len(),
                forall|j: int| 0 <= j < p ==> text_lt(#[trigger] r@[j].key_of(), x.key_of()),
            decreases r@.len() - p,
        {
            p = p + 1;
        }
        let ghost old_r = r@;
        r.insert(p, x);
        proof {
            old_r.insert_ensures(p as int, x);
            lemma_insert_to_multiset(old_r, p as int, x);
            assert forall|i: int, j: int| 0 <= i < j < r@.len() implies !text_lt(
                #[trigger] r@[j].key_of(),
                #[trigger] r@[i].key_of(),
            ) by {
                let pi = p as int;
                if i < pi && j == pi {
                    lemma_text_lt_asymmetric(old_r[i].key_of(), x.key_of());
                } else if i == pi && j > pi {
                    let y = old_r[j - 1].key_of();
                    if pi < old_r.len() {
                        let z = old_r[pi].key_of();
                        assert(!text_lt(z, x.key_of()));
                        if text_lt(y, x.key_of()) {
                            if z == x.key_of() {
                            } else {
                                lemma_text_lt_total(z, x.key_of());
                                lemma_text_lt_transitive(y, x.key_of(), z);
                            }
                            if j - 1 > pi {
                                assert(!text_lt(old_r[j - 1].key_of(), old_r[pi].key_of()));
                            } else {
                                lemma_text_lt_irreflexive(z);
                            }
                        }
                    }
                } else if i < pi && j > pi {
                    assert(!text_lt(old_r[j - 1].key_of(), old_r[i].key_of()));
                } else if j < pi {
                } else {
                    assert(!text_lt(old_r[j - 1].key_of(), old_r[i - 1].key_of()));
                }
            }
            assert(r@.to_multiset().add(rest@.to_multiset()) =~= orig.to_multiset());
        }
    }
    proof {
        rest@.to_multiset_ensures();
        assert(rest@.to_multiset() =~= vstd::multiset::Multiset::empty());
        assert(r@.to_multiset() =~= orig.to_multiset());
        r@.to_multiset_ensures();
    }
    r
}


/// The texts of `s`, each strictly before the next.
pub open spec fn strictly_sorted(s: Seq<Seq<char>>) -> bool {
    forall|i: int, j: int| 0 <= i < j < s.len() ==> text_lt(#[trigger] s[i], #[trigger] s[j])
}

/// The texts held by the strings of `s`.
pub open spec fn texts(s: Seq<String>) -> Seq<Seq<char>> {
    s.map_values(|x: String| x@)
}

/// Adds `x` to the strictly sorted `v`, unless it holds it already.
pub fn insert_sorted_unique(v: &mut Vec<String>, x: &str)
    requires
        strictly_sorted(texts(old(v)@)),
    ensures
        strictly_sorted(texts(final(v)@)),
        texts(final(v)@).to_set() == texts(old(v)@).to_set().insert(x@),
{
    let ghost old_t = texts(v@);
    let mut p: usize = 0;
    while p < v.len() && str_lt(v[p].as_str(), x)
        invariant
            p <= v@.len(),
            texts(v@) == old_t,
            forall|j: int| 0 <= j < p ==> text_lt(#[trigger] old_t[j], x@),
        decreases v@.len() - p,
    {
        p = p + 1;
    }
    if p < v.len() && !str_lt(x, v[p].as_str()) {
        proof {
            if old_t[p as int] != x@ {
                lemma_text_lt_total(old_t[p as int], x@);
            }
            assert(old_t[p as int] == x@);
            assert(old_t.to_set().insert(x@) =~= old_t.to_set());
        }
        return;
    }
    v.insert(p, x.to_owned());
    proof {
        let t = texts(v@);
        assert(t =~= old_t.insert(p as int, x@));
        assert forall|i: int, j: int| 0 <= i < j < t.len() implies text_lt(#[trigger] t[i], #[trigger] t[j]) by {
            let pi = p as int;
            if i < pi && j == pi {
            } else if i == pi && j > pi {
                assert(text_lt(x@, old_t[pi]));
                if j - 1 > pi {
                    lemma_text_lt_transitive(x@, old_t[pi], old_t[j - 1]);
                }
            } else if i < pi && j > pi {
                assert(text_lt(old_t[i], old_t[j - 1]));
            } else if j < pi {
                assert(text_lt(old_t[i], old_t[j]));
            } else {
                assert(text_lt(old_t[i - 1], old_t[j - 1]));
            }
        }
        assert forall|y: Seq<char>| t.to_set().contains(y) <==> old_t.to_set().insert(x@).contains(y) by {
            if t.contains(y) {
                let k = choose|k: int| 0 <= k < t.len() && t[k] == y;
                if k < p {
                    assert(old_t[k] == y);
                } else if k > p {
                    assert(old_t[k - 1] == y);
                }
            }
            if old_t.contains(y) {
                let k = choose|k: int| 0 <= k < old_t.len() && old_t[k] == y;
                if k < p {
                    assert(t[k] == y);
                } else {
                    assert(t[k + 1] == y);
                }
            }
            if y == x@ {
                assert(t[p as int] == y);
            }
        }
        assert(t.to_set() =~= old_t.to_set().insert(x@));
    }
}

/// The texts of `s` without repetition, in increasing order.
pub fn distinct_sorted(s: &Vec<String>) -> (r: Vec<String>)
    ensures
        strictly_sorted(texts(r@)),
        texts(r@).to_set() == texts(s@).to_set(),
{
    let mut r: Vec<String> = Vec::new();
    let mut i: usize = 0;
    proof {
        assert(texts(r@).to_set() =~= texts(s@.take(0)).to_set());
    }
    while i < s.len()
        invariant
            i <= s@.len(),
            strictly_sorted(texts(r@)),
            texts(r@).to_set() == texts(s@.take(i as int)).to_set(),
        decreases s@.len() - i,
    {
        insert_sorted_unique(&mut r, s[i].as_str());
        proof {
            assert(texts(s@.take(i + 1)) =~= texts(s@.take(i as int)).push(s@[i as int]@));
            texts(s@.take(i as int)).lemma_push_to_set_commute(s@[i as int]@);
        }
        i = i + 1;
    }
    assert(s@.take(s@.len() as int) =~= s@);
    r
}


/// Two sequences with the same elements keep them when each is mapped by `f`.
pub proof fn lemma_map_keeps_multiset<A, B>(a: Seq<A>, b: Seq<A>, f: spec_fn(A) -> B)
    requires
        a.to_multiset() == b.to_multiset(),
    ensures
        a.map_values(f).to_multiset() == b.map_values(f).to_multiset(),
    decreases a.len(),
{
    broadcast use vstd::seq_lib::to_multiset_build, vstd::seq_lib::to_multiset_remove,
        vstd::seq_lib::to_multiset_insert, vstd::seq_lib::to_multiset_len, vstd::seq_lib::to_multiset_contains;

    if a.len() == 0 {
        assert(a.to_multiset().len() == 0);
        assert(b.to_multiset().len() == b.len());
        assert(b.len() == 0);
        assert(a.map_values(f) =~= b.map_values(f));
    } else {
        let x = a.last();
        let a1 = a.drop_last();
        assert(a =~= a1.push(x));
        assert(a.to_multiset().contains(x));
        assert(b.contains(x));
        let k = choose|k: int| 0 <= k < b.len() && b[k] == x;
        let b1 = b.remove(k);
        assert(a1.to_multiset() =~= b1.to_multiset());
        lemma_map_keeps_multiset(a1, b1, f);
        assert(a.map_values(f) =~= a1.map_values(f).push(f(x)));
        assert(b1.len() == b.len() - 1);
        assert(b.map_values(f) =~= b1.map_values(f).insert(k, f(x)));
    }
}

} // verus!
