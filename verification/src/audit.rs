//! The hash chain of the audit trail: each entry's hash covers the hash of
//! the entry before it.
use vstd::prelude::*;
use crate::text::{i64_to_text, signed_decimal};
use crate::digest::{blake3_hex, hash_bytes, hash_text};

verus! {

/// The hash that the first entry of the chain follows.
pub const GENESIS_HASH: &'static str = "GENESIS";

pub open spec fn bar() -> Seq<char> {
    seq!['|']
}

pub open spec fn text_or_empty(o: Option<&str>) -> Seq<char> {
    match o {
        Some(s) => s@,
        None => Seq::empty(),
    }
}

/// What an entry's hash covers: the previous hash (the genesis hash for the
/// first entry), the action, the actor, the repository and the target (empty
/// when absent), the hash of the payload's JSON bytes and the time in
/// milliseconds, separated by `|`.
pub open spec fn entry_material(
    prev_hash: Option<&str>,
    action: Seq<char>,
    actor_id: Seq<char>,
    repo_id: Option<&str>,
    target_id: Option<&str>,
    payload_json: Seq<u8>,
    created_at_millis: i64,
) -> Seq<char> {
    (match prev_hash {
        Some(p) => p@,
        None => GENESIS_HASH@,
    }) + bar() + action + bar() + actor_id + bar() + text_or_empty(repo_id) + bar() + text_or_empty(target_id) + bar()
        + blake3_hex(payload_json) + bar() + signed_decimal(created_at_millis as int)
}

/// The hash of a new entry of the chain, which follows the entry whose hash
/// is `prev_hash` (none for the first entry).
pub fn audit_entry_hash(
    prev_hash: Option<&str>,
    action: &str,
    actor_id: &str,
    repo_id: Option<&str>,
    target_id: Option<&str>,
    payload_json: &[u8],
    created_at_millis: i64,
) -> (r: String)
    ensures
        r@ == blake3_hex(
            vstd::utf8::encode_utf8(
                entry_material(prev_hash, action@, actor_id@, repo_id, target_id, payload_json@, created_at_millis),
            ),
        ),
{
    proof {
        reveal_strlit("|");
    }
    let mut m = match prev_hash {
        Some(p) => p.to_owned(),
        None => GENESIS_HASH.to_owned(),
    };
    m.append("|");
    m.append(action);
    m.append("|");
    m.append(actor_id);
    m.append("|");
    match repo_id {
        Some(s) => m.append(s),
        None => {},
    }
    m.append("|");
    match target_id {
        Some(s) => m.append(s),
        None => {},
    }
    m.append("|");
    m.append(hash_bytes(payload_json).as_str());
    m.append("|");
    m.append(i64_to_text(created_at_millis).as_str());
    assert(m@ =~= entry_material(prev_hash, action@, actor_id@, repo_id, target_id, payload_json@, created_at_millis));
    hash_text(m.as_str())
}

} // verus!
