//! Where the client keeps its state: the `.hypertide` directory of the
//! directory it runs in, its three records and its cache of objects.
use vstd::prelude::*;
use crate::path::{join_path, joined};
use crate::text::{chars_of, text_concat};

verus! {

/// The name of the client's state directory.
pub const STATE_DIR_NAME: &'static str = ".hypertide";

/// The file of the profile.
pub const PROFILE_FILE: &'static str = "profile.json";

/// The file of the staging area.
pub const STAGE_FILE: &'static str = "stage.json";

/// The file of the checked-out workspace.
pub const WORKSPACE_FILE: &'static str = "workspace.json";

/// The file that names the current session.
pub const SESSION_FILE: &'static str = "session.json";

/// The directory of the cache, and of the objects inside it.
pub const CACHE_DIR: &'static str = "cache";
pub const OBJECTS_DIR: &'static str = "objects";

/// The paths of the client's state.
#[derive(Debug, Clone)]
pub struct StatePaths {
    pub state_dir: String,
    pub profile_path: String,
    pub stage_path: String,
    pub workspace_path: String,
    pub cache_dir: String,
}

/// The paths of the client's state under `base_dir`.
pub open spec fn state_paths_spec(base_dir: Seq<char>) -> (Seq<char>, Seq<char>, Seq<char>, Seq<char>, Seq<char>) {
    let state_dir = joined(base_dir, STATE_DIR_NAME@);
    (
        state_dir,
        joined(state_dir, PROFILE_FILE@),
        joined(state_dir, STAGE_FILE@),
        joined(state_dir, WORKSPACE_FILE@),
        joined(joined(state_dir, CACHE_DIR@), OBJECTS_DIR@),
    )
}

/// The paths of the client's state in the directory `base_dir`.
pub fn state_paths_from(base_dir: &str) -> (r: StatePaths)
    ensures
        (r.state_dir@, r.profile_path@, r.stage_path@, r.workspace_path@, r.cache_dir@) == state_paths_spec(
            base_dir@,
        ),
{
    let state_dir = join_path(base_dir, STATE_DIR_NAME);
    let profile_path = join_path(state_dir.as_str(), PROFILE_FILE);
    let stage_path = join_path(state_dir.as_str(), STAGE_FILE);
    let workspace_path = join_path(state_dir.as_str(), WORKSPACE_FILE);
    let cache = join_path(state_dir.as_str(), CACHE_DIR);
    let cache_dir = join_path(cache.as_str(), OBJECTS_DIR);
    StatePaths { state_dir, profile_path, stage_path, workspace_path, cache_dir }
}

/// The path under which the cache keeps the object with hash `hash`.
pub fn cache_object_path(paths: &StatePaths, hash: &str) -> (r: String)
    ensures
        r@ == joined(paths.cache_dir@, hash@),
{
    join_path(paths.cache_dir.as_str(), hash)
}

/// The file that names the client's current session.
pub fn session_state_path(paths: &StatePaths) -> (r: String)
    ensures
        r@ == joined(paths.state_dir@, SESSION_FILE@),
{
    join_path(paths.state_dir.as_str(), SESSION_FILE)
}

/// Whether `c` separates the parts of a path, as `/` does, and `\\` on
/// Windows.
pub open spec fn is_separator(c: char) -> bool {
    c == '/' || c == '\\'
}

/// Whether `c` is an ASCII letter.
pub open spec fn is_ascii_letter(c: char) -> bool {
    (97 <= c as u32 && c as u32 <= 122) || (65 <= c as u32 && c as u32 <= 90)
}

/// Whether `p` names a place of its own rather than one under a workspace:
/// it starts with a separator or with a drive (`C:`).
pub open spec fn is_rooted(p: Seq<char>) -> bool {
    ||| (p.len() >= 1 && is_separator(p[0]))
    ||| (p.len() >= 2 && is_ascii_letter(p[0]) && p[1] == ':')
}

/// Whether a `..` part of `p` starts at `i`.
pub open spec fn parent_at(p: Seq<char>, i: int) -> bool {
    &&& 0 <= i
    &&& i + 2 <= p.len()
    &&& p[i] == '.'
    &&& p[i + 1] == '.'
    &&& (i == 0 || is_separator(p[i - 1]))
    &&& (i + 2 == p.len() || is_separator(p[i + 2]))
}

/// Whether `p` has a `..` part, which climbs out of the directory it starts
/// from.
pub open spec fn climbs_out(p: Seq<char>) -> bool {
    exists|i: int| parent_at(p, i)
}

/// Where in the workspace at `root` the asset at `asset_path` lives, or why
/// the path cannot be in it.
pub open spec fn workspace_target(root: Seq<char>, asset_path: Seq<char>) -> Result<Seq<char>, Seq<char>> {
    if is_rooted(asset_path) {
        Err("checkpoint asset path must be relative: "@ + asset_path)
    } else if climbs_out(asset_path) {
        Err("checkpoint asset path escapes workspace: "@ + asset_path)
    } else {
        Ok(joined(root, asset_path))
    }
}

fn char_is_ascii_letter(c: char) -> (r: bool)
    ensures
        r == is_ascii_letter(c),
{
    let v = c as u32;
    (97 <= v && v <= 122) || (65 <= v && v <= 90)
}

fn char_is_separator(c: char) -> (r: bool)
    ensures
        r == is_separator(c),
{
    c == '/' || c == '\\'
}

/// The file under the workspace at `workspace_root` that holds the asset at
/// `asset_path`; refused for a path that starts at a root or a drive, or
/// that has a `..` part, whichever separator it uses.
pub fn resolve_workspace_target(workspace_root: &str, asset_path: &str) -> (r: Result<String, String>)
    ensures
        match r {
            Ok(t) => workspace_target(workspace_root@, asset_path@) == Ok::<Seq<char>, Seq<char>>(t@),
            Err(e) => workspace_target(workspace_root@, asset_path@) == Err::<Seq<char>, Seq<char>>(e@),
        },
{
    let p = chars_of(asset_path);
    let n = p.len();
    let rooted = (n >= 1 && char_is_separator(p[0])) || (n >= 2 && char_is_ascii_letter(p[0]) && p[1] == ':');
    if rooted {
        return Err(text_concat("checkpoint asset path must be relative: ", asset_path));
    }
    let mut i: usize = 0;
    while i < n && n - i >= 2
        invariant
            p@ == asset_path@,
            n == p@.len(),
            !is_rooted(asset_path@),
            forall|j: int| 0 <= j < i ==> !parent_at(p@, j),
        decreases n - i,
    {
        if p[i] == '.' && p[i + 1] == '.' && (i == 0 || char_is_separator(p[i - 1])) && (i + 2 == n
            || char_is_separator(p[i + 2])) {
            assert(parent_at(asset_path@, i as int));
            return Err(text_concat("checkpoint asset path escapes workspace: ", asset_path));
        }
        i = i + 1;
    }
    assert(!climbs_out(p@)) by {
        assert forall|j: int| !parent_at(p@, j) by {
            if j >= i {
                assert(!(j + 2 <= p@.len()));
            }
        }
        assert forall|j: int| !parent_at(asset_path@, j) by {
            assert(!parent_at(p@, j));
        }
    }
    Ok(join_path(workspace_root, asset_path))
}

/// An asset path that resolves names a file under the workspace: the target
/// is the workspace root followed by the path, which starts at no root and
/// has no `..` part.
pub proof fn resolved_target_stays_inside(root: Seq<char>, asset_path: Seq<char>)
    requires
        workspace_target(root, asset_path) is Ok,
    ensures
        ({
            let t = workspace_target(root, asset_path)->Ok_0;
            &&& t.len() >= root.len() + asset_path.len()
            &&& t.subrange(0, root.len() as int) == root
            &&& t.skip(t.len() - asset_path.len()) == asset_path
            &&& !is_rooted(asset_path)
            &&& !climbs_out(asset_path)
        }),
{
    let t = workspace_target(root, asset_path)->Ok_0;
    assert(t.subrange(0, root.len() as int) =~= root);
    assert(t.skip(t.len() - asset_path.len()) =~= asset_path);
}

} // verus!
