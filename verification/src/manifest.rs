//! Manifests of chunked uploads: the checks on their chunk lists and the
//! Merkle root over their chunks.
use vstd::prelude::*;
use crate::text::{decimal, u64_to_text, trim_text, trimmed, str_eq};
use crate::digest::{blake3_hex, hash_bytes, hash_text};
use crate::order::{texts, lemma_push_to_multiset, lemma_insert_to_multiset, lemma_map_keeps_multiset};

verus! {

/// One chunk of a manifest: its position, the hash of its bytes and their number.
#[derive(Debug)]
pub struct ManifestChunk {
    pub i: u32,
    pub chunk_hash: String,
    pub size: u64,
}

impl Clone for ManifestChunk {
    fn clone(&self) -> (r: Self)
        ensures
            r == *self,
    {
        ManifestChunk { i: self.i, chunk_hash: self.chunk_hash.clone(), size: self.size }
    }
}

/// What the service answers to a manifest it accepted.
#[derive(Debug)]
pub struct CreateManifestResponse {
    pub manifest_hash: String,
    pub merkle_root: String,
    pub chunk_count: usize,
    pub created: bool,
}

pub open spec fn colon() -> Seq<char> {
    seq![':']
}

/// The text that the leaf of a chunk hashes: `{i}:{chunk_hash}:{size}`.
pub open spec fn leaf_text(c: ManifestChunk) -> Seq<char> {
    decimal(c.i as nat) + colon() + c.chunk_hash@ + colon() + decimal(c.size as nat)
}

pub open spec fn hash_of_text(t: Seq<char>) -> Seq<char> {
    blake3_hex(vstd::utf8::encode_utf8(t))
}

/// The leaves of the tree: the hash of each chunk's leaf text.
pub open spec fn leaves(chunks: Seq<ManifestChunk>) -> Seq<Seq<char>> {
    chunks.map_values(|c: ManifestChunk| hash_of_text(leaf_text(c)))
}

/// The level above `level`: each pair hashed together, a last node without a
/// partner hashed with itself.
pub open spec fn next_level(level: Seq<Seq<char>>) -> Seq<Seq<char>> {
    Seq::new(
        ((level.len() + 1) / 2) as nat,
        |k: int|
            hash_of_text(
                level[2 * k] + if 2 * k + 1 < level.len() {
                    level[2 * k + 1]
                } else {
                    level[2 * k]
                },
            ),
    )
}

/// The level that has at most one node, reached from `level` upwards.
pub open spec fn top_level(level: Seq<Seq<char>>) -> Seq<Seq<char>>
    decreases level.len(),
{
    if level.len() <= 1 {
        level
    } else {
        top_level(next_level(level))
    }
}

/// The Merkle root of the chunks: the single node at the top of the tree
/// over their leaves, or the hash of nothing when there are no chunks.
pub open spec fn merkle_root_of(chunks: Seq<ManifestChunk>) -> Seq<char> {
    if chunks.len() == 0 {
        blake3_hex(Seq::empty())
    } else {
        top_level(leaves(chunks))[0]
    }
}

proof fn lemma_top_level_single(level: Seq<Seq<char>>)
    requires
        level.len() >= 1,
    ensures
        top_level(level).len() == 1,
    decreases level.len(),
{
    if level.len() > 1 {
        lemma_top_level_single(next_level(level));
    }
}

fn leaf_hash(c: &ManifestChunk) -> (r: String)
    ensures
        r@ == hash_of_text(leaf_text(*c)),
{
    proof {
        reveal_strlit(":");
    }
    let mut t = u64_to_text(c.i as u64);
    t.append(":");
    t.append(c.chunk_hash.as_str());
    t.append(":");
    t.append(u64_to_text(c.size).as_str());
    assert(t@ =~= leaf_text(*c));
    hash_text(t.as_str())
}

fn pair_hash(left: &String, right: &String) -> (r: String)
    ensures
        r@ == hash_of_text(left@ + right@),
{
    let mut t = left.clone();
    t.append(right.as_str());
    hash_text(t.as_str())
}

/// The Merkle root of the chunks, in their order.
pub fn merkle_root(chunks: &Vec<ManifestChunk>) -> (r: String)
    ensures
        r@ == merkle_root_of(chunks@),
{
    if chunks.len() == 0 {
        let empty: Vec<u8> = Vec::new();
        return hash_bytes(empty.as_slice());
    }
    let mut level: Vec<String> = Vec::new();
    let mut i: usize = 0;
    while i < chunks.len()
        invariant
            i <= chunks@.len(),
            texts(level@) == leaves(chunks@.take(i as int)),
        decreases chunks@.len() - i,
    {
        let h = leaf_hash(&chunks[i]);
        let ghost before = level@;
        level.push(h);
        proof {
            assert(texts(level@) =~= texts(before).push(h@));
            assert(leaves(chunks@.take(i + 1)) =~= leaves(chunks@.take(i as int)).push(
                hash_of_text(leaf_text(chunks@[i as int])),
            ));
        }
        i = i + 1;
    }
    proof {
        assert(chunks@.take(chunks@.len() as int) =~= chunks@);
    }
    while level.len() > 1
        invariant
            level@.len() >= 1,
            top_level(texts(level@)) == top_level(leaves(chunks@)),
        decreases level@.len(),
    {
        let ghost cur = texts(level@);
        let mut next: Vec<String> = Vec::new();
        let mut k: usize = 0;
        let n = level.len();
        let half = n / 2 + n % 2;
        while k < half
            invariant
                n == level@.len(),
                n > 1,
                half == (n + 1) / 2,
                cur == texts(level@),
                k <= half,
                texts(next@) == next_level(cur).take(k as int),
            decreases half - k,
        {
            let left = &level[2 * k];
            let h = if 2 * k + 1 < n {
                pair_hash(left, &level[2 * k + 1])
            } else {
                pair_hash(left, left)
            };
            let ghost before = next@;
            next.push(h);
            proof {
                assert(texts(next@) =~= texts(before).push(h@));
                assert(next_level(cur).take(k + 1) =~= next_level(cur).take(k as int).push(next_level(cur)[k as int]));
            }
            k = k + 1;
        }
        proof {
            assert(next_level(cur).take(((n + 1) / 2) as int) =~= next_level(cur));
            assert(texts(next@) == next_level(cur));
        }
        level = next;
    }
    proof {
        lemma_top_level_single(leaves(chunks@));
        assert(texts(level@) == top_level(texts(level@)));
    }
    level[0].clone()
}

/// The positions of the chunks, in their order.
pub open spec fn chunk_positions(chunks: Seq<ManifestChunk>) -> Seq<u32> {
    chunks.map_values(|c: ManifestChunk| c.i)
}

/// The chunks in strictly increasing order of position.
pub open spec fn strictly_by_position(chunks: Seq<ManifestChunk>) -> bool {
    forall|a: int, b: int| 0 <= a < b < chunks.len() ==> #[trigger] chunks[a].i < #[trigger] chunks[b].i
}

/// The chunks in increasing order of position.
pub open spec fn by_position(chunks: Seq<ManifestChunk>) -> bool {
    forall|a: int, b: int| 0 <= a < b < chunks.len() ==> #[trigger] chunks[a].i <= #[trigger] chunks[b].i
}

/// Why a manifest's chunk list is refused, if it is.
pub open spec fn chunk_list_error(chunks: Seq<ManifestChunk>, chunk_size_policy: Seq<char>) -> Option<Seq<char>> {
    if chunks.len() == 0 {
        Some("chunks must not be empty"@)
    } else if trimmed(chunk_size_policy).len() == 0 {
        Some("chunk_size_policy is required"@)
    } else if !chunk_positions(chunks).no_duplicates() {
        Some("duplicate chunk index is not allowed"@)
    } else {
        None
    }
}

/// The chunks sorted by position.
fn sort_by_position(v: Vec<ManifestChunk>) -> (r: Vec<ManifestChunk>)
    ensures
        r@.to_multiset() == v@.to_multiset(),
        by_position(r@),
{
    let ghost orig = v@;
    let mut rest = v;
    let mut r: Vec<ManifestChunk> = Vec::new();
    proof {
        orig.to_multiset_ensures();
        r@.to_multiset_ensures();
        assert(r@.to_multiset() =~= vstd::multiset::Multiset::empty());
        assert(r@.to_multiset().add(rest@.to_multiset()) =~= orig.to_multiset());
    }
    while rest.len() > 0
        invariant
            r@.to_multiset().add(rest@.to_multiset()) == orig.to_multiset(),
            by_position(r@),
        decreases rest@.len(),
    {
        let ghost before = rest@;
        let x = rest.pop().unwrap();
        proof {
            assert(before =~= rest@.push(x));
            lemma_push_to_multiset(rest@, x);
        }
        let mut p: usize = 0;
        while p < r.len() && r[p].i <= x.i
            invariant
                p <= r@.len(),
                forall|j: int| 0 <= j < p ==> #[trigger] r@[j].i <= x.i,
            decreases r@.len() - p,
        {
            p = p + 1;
        }
        let ghost old_r = r@;
        r.insert(p, x);
        proof {
            old_r.insert_ensures(p as int, x);
            lemma_insert_to_multiset(old_r, p as int, x);
            assert forall|a: int, b: int| 0 <= a < b < r@.len() implies #[trigger] r@[a].i <= #[trigger] r@[b].i by {
                let pi = p as int;
                if a < pi && b == pi {
                } else if a == pi && b > pi {
                    assert(old_r[pi].i > x.i);
                    assert(old_r[pi].i <= old_r[b - 1].i);
                } else if a < pi && b > pi {
                    assert(old_r[a].i <= old_r[b - 1].i);
                } else if b < pi {
                    assert(old_r[a].i <= old_r[b].i);
                } else {
                    assert(old_r[a - 1].i <= old_r[b - 1].i);
                }
            }
            assert(r@.to_multiset().add(rest@.to_multiset()) =~= orig.to_multiset());
        }
    }
    proof {
        rest@.to_multiset_ensures();
        assert(rest@.to_multiset() =~= vstd::multiset::Multiset::empty());
        assert(r@.to_multiset() =~= orig.to_multiset());
    }
    r
}

/// The chunk list of a manifest, checked and sorted by position: it must not
/// be empty, the chunk size policy must not be blank, and no two chunks may
/// share a position.
pub fn prepare_chunks(chunks: Vec<ManifestChunk>, chunk_size_policy: &str) -> (r: Result<Vec<ManifestChunk>, String>)
    ensures
        match r {
            Ok(v) => {
                &&& chunk_list_error(chunks@, chunk_size_policy@) is None
                &&& v@.to_multiset() == chunks@.to_multiset()
                &&& strictly_by_position(v@)
            },
            Err(e) => chunk_list_error(chunks@, chunk_size_policy@) == Some(e@),
        },
{
    if chunks.len() == 0 {
        return Err("chunks must not be empty".to_owned());
    }
    let policy = trim_text(chunk_size_policy);
    if policy.as_str().is_empty() {
        return Err("chunk_size_policy is required".to_owned());
    }
    let ghost orig = chunks@;
    let v = sort_by_position(chunks);
    proof {
        broadcast use vstd::seq_lib::to_multiset_len;

        lemma_map_keeps_multiset(v@, orig, |c: ManifestChunk| c.i);
        assert(chunk_positions(v@) =~= v@.map_values(|c: ManifestChunk| c.i));
        assert(chunk_positions(orig) =~= orig.map_values(|c: ManifestChunk| c.i));
        assert(v@.len() == v@.to_multiset().len());
        assert(orig.len() == orig.to_multiset().len());
    }
    let last = v.len() - 1;
    let mut k: usize = 0;
    while k < last
        invariant
            last + 1 == v@.len(),
            k <= last,
            orig == chunks@,
            orig.len() > 0,
            trimmed(chunk_size_policy@).len() != 0,
            chunk_positions(v@).to_multiset() == chunk_positions(orig).to_multiset(),
            by_position(v@),
            forall|a: int| 0 <= a < k ==> #[trigger] v@[a].i < v@[a + 1].i,
        decreases v@.len() - k,
    {
        if v[k].i == v[k + 1].i {
            proof {
                let ps = chunk_positions(v@);
                assert(ps[k as int] == ps[k + 1]);
                if chunk_positions(orig).no_duplicates() {
                    chunk_positions(orig).lemma_multiset_has_no_duplicates();
                    lemma_two_counted(ps, k as int, k + 1);
                    let x = ps[k as int];
                    assert(ps.to_multiset().count(x) >= 2);
                    assert(chunk_positions(orig).to_multiset().count(x) >= 2);
                    assert(chunk_positions(orig).to_multiset().contains(x));
                    assert(chunk_positions(orig).to_multiset().count(x) == 1);
                    assert(false);
                }
                assert(!chunk_positions(chunks@).no_duplicates());
            }
            return Err("duplicate chunk index is not allowed".to_owned());
        }
        k = k + 1;
    }
    proof {
        assert forall|a: int, b: int| 0 <= a < b < v@.len() implies #[trigger] v@[a].i < #[trigger] v@[b].i by {
            assert(v@[a].i < v@[a + 1].i);
            assert(v@[a + 1].i <= v@[b].i);
        }
        let ps = chunk_positions(v@);
        assert(ps.no_duplicates());
        ps.lemma_multiset_has_no_duplicates();
        assert forall|x: u32| chunk_positions(orig).to_multiset().contains(x) implies chunk_positions(
            orig,
        ).to_multiset().count(x) == 1 by {
        }
        chunk_positions(orig).lemma_multiset_has_no_duplicates_conv();
    }
    Ok(v)
}

proof fn lemma_two_counted(s: Seq<u32>, a: int, b: int)
    requires
        0 <= a < b < s.len(),
        s[a] == s[b],
    ensures
        s.to_multiset().count(s[a]) >= 2,
{
    broadcast use vstd::seq_lib::to_multiset_remove, vstd::seq_lib::to_multiset_contains;

    let t = s.remove(a);
    assert(t[b - 1] == s[b]);
    assert(t.contains(s[a]));
    assert(t.to_multiset().count(s[a]) >= 1);
    assert(s.to_multiset().count(s[a]) == t.to_multiset().count(s[a]) + 1);
}

/// Whether `h` is among `existing`.
pub open spec fn known_hash(existing: Seq<String>, h: Seq<char>) -> bool {
    texts(existing).contains(h)
}

/// The hashes that are not among the known ones, in their order.
pub open spec fn missing_hashes(hashes: Seq<Seq<char>>, existing: Seq<String>) -> Seq<Seq<char>> {
    hashes.filter(|h: Seq<char>| !known_hash(existing, h))
}

fn is_known(existing: &Vec<String>, h: &str) -> (r: bool)
    ensures
        r == known_hash(existing@, h@),
{
    let mut i: usize = 0;
    while i < existing.len()
        invariant
            i <= existing@.len(),
            forall|j: int| 0 <= j < i ==> existing@[j]@ != h@,
        decreases existing@.len() - i,
    {
        if str_eq(existing[i].as_str(), h) {
            assert(texts(existing@)[i as int] == h@);
            return true;
        }
        i = i + 1;
    }
    assert(!texts(existing@).contains(h@));
    false
}

/// The chunk hashes of `chunks`, in their order.
pub open spec fn chunk_hashes(chunks: Seq<ManifestChunk>) -> Seq<Seq<char>> {
    chunks.map_values(|c: ManifestChunk| c.chunk_hash@)
}

/// The hashes of the chunks that the store does not hold, `existing` being
/// those it holds, in the order of the chunks.
pub fn missing_chunks(chunks: &Vec<ManifestChunk>, existing: &Vec<String>) -> (r: Vec<String>)
    ensures
        texts(r@) == missing_hashes(chunk_hashes(chunks@), existing@),
{
    let mut r: Vec<String> = Vec::new();
    let mut i: usize = 0;
    while i < chunks.len()
        invariant
            i <= chunks@.len(),
            texts(r@) == missing_hashes(chunk_hashes(chunks@.take(i as int)), existing@),
        decreases chunks@.len() - i,
    {
        proof {
            let hs = chunk_hashes(chunks@.take(i + 1));
            assert(hs.drop_last() =~= chunk_hashes(chunks@.take(i as int)));
            assert(hs.last() == chunks@[i as int].chunk_hash@);
            assert(hs =~= chunk_hashes(chunks@.take(i as int)).push(chunks@[i as int].chunk_hash@));
            chunk_hashes(chunks@.take(i as int)).lemma_filter_push(chunks@[i as int].chunk_hash@, |h: Seq<char>| !known_hash(existing@, h));
        }
        if !is_known(existing, chunks[i].chunk_hash.as_str()) {
            let ghost before = r@;
            r.push(chunks[i].chunk_hash.clone());
            proof {
                assert(texts(r@) =~= texts(before).push(chunks@[i as int].chunk_hash@));
            }
        }
        i = i + 1;
    }
    proof {
        assert(chunks@.take(chunks@.len() as int) =~= chunks@);
    }
    r
}

/// The texts joined with `,` between them.
pub open spec fn joined(parts: Seq<Seq<char>>) -> Seq<char>
    decreases parts.len(),
{
    if parts.len() == 0 {
        Seq::empty()
    } else if parts.len() == 1 {
        parts[0]
    } else {
        joined(parts.drop_last()) + seq![','] + parts.last()
    }
}

/// The refusal of a manifest whose chunks the store lacks.
pub fn missing_chunks_message(missing: &Vec<String>) -> (r: String)
    ensures
        r@ == "manifest references missing chunks: "@ + joined(texts(missing@)),
{
    proof {
        reveal_strlit(",");
    }
    let mut list = String::new();
    let mut i: usize = 0;
    while i < missing.len()
        invariant
            i <= missing@.len(),
            list@ == joined(texts(missing@).take(i as int)),
        decreases missing@.len() - i,
    {
        let ghost t = texts(missing@);
        let ghost before = list@;
        proof {
            reveal_strlit(",");
            assert(t.take(i + 1).drop_last() =~= t.take(i as int));
            assert(t.take(i + 1).last() == missing@[i as int]@);
        }
        if i > 0 {
            list.append(",");
        } else {
            assert(list@ =~= Seq::<char>::empty());
        }
        list.append(missing[i].as_str());
        proof {
            if i > 0 {
                assert(list@ =~= before + seq![','] + missing@[i as int]@);
            } else {
                assert(list@ =~= t.take(1)[0]);
            }
        }
        i = i + 1;
    }
    assert(texts(missing@).take(missing@.len() as int) =~= texts(missing@));
    let mut r = "manifest references missing chunks: ".to_owned();
    r.append(list.as_str());
    r
}

/// The answer to an accepted manifest whose canonical serialization is
/// `canonical_json`: the hash of that serialization, the Merkle root of the
/// chunks, their number, and whether the manifest is new.
pub fn manifest_response(canonical_json: &[u8], chunks: &Vec<ManifestChunk>, created: bool) -> (r: CreateManifestResponse)
    ensures
        r.manifest_hash@ == blake3_hex(canonical_json@),
        r.merkle_root@ == merkle_root_of(chunks@),
        r.chunk_count == chunks@.len(),
        r.created == created,
{
    CreateManifestResponse {
        manifest_hash: hash_bytes(canonical_json),
        merkle_root: merkle_root(chunks),
        chunk_count: chunks.len(),
        created,
    }
}


/// The Merkle root of a single chunk is the hash of its leaf text.
pub proof fn single_chunk_root_is_its_leaf(c: ManifestChunk)
    ensures
        merkle_root_of(seq![c]) == hash_of_text(leaf_text(c)),
{
    assert(leaves(seq![c])[0] == hash_of_text(leaf_text(c)));
}

/// One level up the tree: the level above has one node per pair, rounded up;
/// node `k` is the hash of the left child followed by the right child, and a
/// last node without a partner is hashed followed by itself.
pub proof fn level_above_pairs_left_then_right(level: Seq<Seq<char>>)
    ensures
        next_level(level).len() == (level.len() + 1) / 2,
        forall|k: int|
            0 <= k && 2 * k + 1 < level.len() ==> #[trigger] next_level(level)[k] == hash_of_text(
                level[2 * k] + level[2 * k + 1],
            ),
        level.len() % 2 == 1 ==> next_level(level)[(level.len() - 1) / 2] == hash_of_text(
            level[level.len() - 1] + level[level.len() - 1],
        ),
{
}

/// Above a level of two or more nodes, the root is the root of the level
/// above it.
pub proof fn root_is_root_of_level_above(level: Seq<Seq<char>>)
    requires
        level.len() >= 2,
    ensures
        top_level(level) == top_level(next_level(level)),
{
}

/// The Merkle root of four chunks: each pair of leaves hashed left then
/// right, then the two pair hashes hashed in order.
pub proof fn four_chunk_root(a: ManifestChunk, b: ManifestChunk, c: ManifestChunk, d: ManifestChunk)
    ensures
        ({
            let la = hash_of_text(leaf_text(a));
            let lb = hash_of_text(leaf_text(b));
            let lc = hash_of_text(leaf_text(c));
            let ld = hash_of_text(leaf_text(d));
            merkle_root_of(seq![a, b, c, d]) == hash_of_text(hash_of_text(la + lb) + hash_of_text(lc + ld))
        }),
{
    let l = leaves(seq![a, b, c, d]);
    assert(l.len() == 4);
    let n1 = next_level(l);
    assert(n1.len() == 2);
    assert(n1[0] == hash_of_text(l[0] + l[1]));
    assert(n1[1] == hash_of_text(l[2] + l[3]));
    let n2 = next_level(n1);
    assert(n2.len() == 1);
    assert(top_level(n2) == n2);
    assert(top_level(n1) == top_level(n2));
    assert(top_level(l) == top_level(n1));
}

/// The Merkle root of three chunks: the first two leaves hashed left then
/// right, the third hashed with itself, then the two hashed in order.
pub proof fn three_chunk_root(a: ManifestChunk, b: ManifestChunk, c: ManifestChunk)
    ensures
        ({
            let la = hash_of_text(leaf_text(a));
            let lb = hash_of_text(leaf_text(b));
            let lc = hash_of_text(leaf_text(c));
            merkle_root_of(seq![a, b, c]) == hash_of_text(hash_of_text(la + lb) + hash_of_text(lc + lc))
        }),
{
    let l = leaves(seq![a, b, c]);
    assert(l.len() == 3);
    let n1 = next_level(l);
    assert(n1.len() == 2);
    assert(n1[0] == hash_of_text(l[0] + l[1]));
    assert(n1[1] == hash_of_text(l[2] + l[2]));
    let n2 = next_level(n1);
    assert(n2.len() == 1);
    assert(top_level(n2) == n2);
    assert(top_level(n1) == top_level(n2));
    assert(top_level(l) == top_level(n1));
}

/// The Merkle root of two chunks is the hash of their two leaves one after the other.
pub proof fn two_chunk_root_pairs_its_leaves(a: ManifestChunk, b: ManifestChunk)
    ensures
        merkle_root_of(seq![a, b]) == hash_of_text(hash_of_text(leaf_text(a)) + hash_of_text(leaf_text(b))),
{
    let l = leaves(seq![a, b]);
    assert(l.len() == 2);
    let n = next_level(l);
    assert(n.len() == 1);
    assert(top_level(n) == n);
}

} // verus!
