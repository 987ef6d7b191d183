//! The rules that the HTTP handlers apply to what requests carry.
use vstd::prelude::*;
use crate::auth::Permission;
use crate::error::{HyperTideError, error_code_spec, error_message_spec};
use crate::text::{str_eq, text_concat, push_text, str_eq_ignore_ascii_case, eq_ignore_ascii_case, find_char, first_index_of};
use crate::versioning::model::{ChangesetKind, VersioningError, VersioningErrorView, opt_str};

verus! {

/// What `str::to_lowercase` gives for a string: its Unicode lower case.
pub uninterp spec fn unicode_lowercase(s: Seq<char>) -> Seq<char>;

/// Calls `str::to_lowercase`; the result is named, not described.
#[verifier::external_body]
pub(crate) fn to_lowercase_text(s: &str) -> (r: String)
    ensures
        r@ == unicode_lowercase(s@),
{
    s.to_lowercase()
}

/// What `format!("{:?}", o)` gives for an optional string.
pub uninterp spec fn debug_text_of(o: Option<Seq<char>>) -> Seq<char>;

/// Calls `format!` with `{:?}` on an optional string; the result is named, not described.
#[verifier::external_body]
pub(crate) fn debug_text(o: &Option<String>) -> (r: String)
    ensures
        r@ == debug_text_of(opt_str(*o)),
{
    format!("{:?}", o)
}

/// The permission that a name stands for, whatever its case.
pub open spec fn permission_named(lower: Seq<char>) -> Option<Permission> {
    if lower == "lock"@ {
        Some(Permission::Lock)
    } else if lower == "upload"@ {
        Some(Permission::Upload)
    } else if lower == "download"@ {
        Some(Permission::Download)
    } else if lower == "admin"@ {
        Some(Permission::Admin)
    } else {
        None
    }
}

pub fn parse_permission(s: &str) -> (r: Option<Permission>)
    ensures
        r == permission_named(unicode_lowercase(s@)),
{
    proof {
        reveal_strlit("lock");
        reveal_strlit("upload");
        reveal_strlit("download");
        reveal_strlit("admin");
    }
    let lower = to_lowercase_text(s);
    if str_eq(lower.as_str(), "lock") {
        Some(Permission::Lock)
    } else if str_eq(lower.as_str(), "upload") {
        Some(Permission::Upload)
    } else if str_eq(lower.as_str(), "download") {
        Some(Permission::Download)
    } else if str_eq(lower.as_str(), "admin") {
        Some(Permission::Admin)
    } else {
        None
    }
}

/// The name of a permission, as the API writes it.
pub open spec fn permission_name(p: Permission) -> Seq<char> {
    match p {
        Permission::Lock => "lock"@,
        Permission::Upload => "upload"@,
        Permission::Download => "download"@,
        Permission::Admin => "admin"@,
    }
}

pub fn permission_to_string(p: &Permission) -> (r: String)
    ensures
        r@ == permission_name(*p),
{
    proof {
        reveal_strlit("lock");
        reveal_strlit("upload");
        reveal_strlit("download");
        reveal_strlit("admin");
    }
    match p {
        Permission::Lock => "lock".to_owned(),
        Permission::Upload => "upload".to_owned(),
        Permission::Download => "download".to_owned(),
        Permission::Admin => "admin".to_owned(),
    }
}

/// The permission names of a list, in order.
pub fn permissions_to_strings(ps: &Vec<Permission>) -> (r: Vec<String>)
    ensures
        r@.len() == ps@.len(),
        forall|i: int| 0 <= i < ps@.len() ==> (#[trigger] r@[i])@ == permission_name(ps@[i]),
{
    let mut r: Vec<String> = Vec::new();
    let mut i: usize = 0;
    while i < ps.len()
        invariant
            i <= ps@.len(),
            r@.len() == i,
            forall|j: int| 0 <= j < i ==> (#[trigger] r@[j])@ == permission_name(ps@[j]),
        decreases ps@.len() - i,
    {
        r.push(permission_to_string(&ps[i]));
        i = i + 1;
    }
    r
}

/// The permissions that the names stand for, in order, skipping unknown names.
pub open spec fn parsed_permissions(names: Seq<Seq<char>>) -> Seq<Permission>
    decreases names.len(),
{
    if names.len() == 0 {
        Seq::empty()
    } else {
        let rest = parsed_permissions(names.drop_last());
        match permission_named(unicode_lowercase(names.last())) {
            Some(p) => rest.push(p),
            None => rest,
        }
    }
}

pub fn parse_permissions(names: &Vec<String>) -> (r: Vec<Permission>)
    ensures
        r@ == parsed_permissions(names@.map_values(|s: String| s@)),
{
    let mut r: Vec<Permission> = Vec::new();
    let mut i: usize = 0;
    while i < names.len()
        invariant
            i <= names@.len(),
            r@ == parsed_permissions(names@.subrange(0, i as int).map_values(|s: String| s@)),
        decreases names@.len() - i,
    {
        let p = parse_permission(names[i].as_str());
        proof {
            let a = names@.subrange(0, i + 1).map_values(|s: String| s@);
            assert(a.drop_last() =~= names@.subrange(0, i as int).map_values(|s: String| s@));
            assert(a.last() == names@[i as int]@);
        }
        match p {
            Some(q) => r.push(q),
            None => {},
        }
        i = i + 1;
    }
    assert(names@.subrange(0, names@.len() as int) =~= names@);
    r
}

/// The token of an `Authorization` header: what follows the first space, when
/// what precedes it is `Bearer` in any case and the token is not empty.
pub open spec fn bearer_token(h: Seq<char>) -> Option<Seq<char>> {
    match first_index_of(h, ' ') {
        None => None,
        Some(i) => if eq_ignore_ascii_case(h.subrange(0, i), "bearer"@) && i + 1 < h.len() {
            Some(h.subrange(i + 1, h.len() as int))
        } else {
            None
        },
    }
}

pub fn parse_bearer_token(header_value: &str) -> (r: Option<&str>)
    ensures
        match r {
            Some(t) => bearer_token(header_value@) == Some(t@),
            None => bearer_token(header_value@) is None,
        },
{
    proof {
        reveal_strlit("bearer");
    }
    let n = header_value.unicode_len();
    match find_char(header_value, ' ') {
        None => None,
        Some(i) => {
            let scheme = header_value.substring_char(0, i);
            let token = header_value.substring_char(i + 1, n);
            if str_eq_ignore_ascii_case(scheme, "bearer") && i + 1 < n {
                Some(token)
            } else {
                None
            }
        },
    }
}

/// The kind that a request names, `normal` when it names none.
pub open spec fn kind_named(lower: Seq<char>) -> Option<ChangesetKind> {
    if lower == "normal"@ {
        Some(ChangesetKind::Normal)
    } else if lower == "rollback"@ {
        Some(ChangesetKind::Rollback)
    } else {
        None
    }
}

pub fn parse_kind(value: Option<&str>) -> (r: Result<ChangesetKind, String>)
    ensures
        match r {
            Ok(k) => kind_named(unicode_lowercase(match value {
                Some(v) => v@,
                None => "normal"@,
            })) == Some(k),
            Err(e) => kind_named(unicode_lowercase(match value {
                Some(v) => v@,
                None => "normal"@,
            })) is None && e@ == "kind must be normal|rollback"@,
        },
{
    proof {
        reveal_strlit("normal");
        reveal_strlit("rollback");
        reveal_strlit("kind must be normal|rollback");
    }
    let raw = match value {
        Some(v) => v,
        None => "normal",
    };
    let lower = to_lowercase_text(raw);
    if str_eq(lower.as_str(), "normal") {
        Ok(ChangesetKind::Normal)
    } else if str_eq(lower.as_str(), "rollback") {
        Ok(ChangesetKind::Rollback)
    } else {
        Err("kind must be normal|rollback".to_owned())
    }
}

/// The kind that the database stores: `rollback`, or `normal` for anything else.
pub fn parse_stored_kind(value: &str) -> (r: ChangesetKind)
    ensures
        r == if value@ == "rollback"@ {
            ChangesetKind::Rollback
        } else {
            ChangesetKind::Normal
        },
{
    proof {
        reveal_strlit("rollback");
    }
    if str_eq(value, "rollback") {
        ChangesetKind::Rollback
    } else {
        ChangesetKind::Normal
    }
}

/// The HTTP status and message with which the API answers a versioning error.
pub open spec fn versioning_error_response(e: VersioningErrorView) -> (u16, Seq<char>) {
    match e {
        VersioningErrorView::RepoNotFound { repo_id } => (404, "Repo not found: "@ + repo_id),
        VersioningErrorView::BranchNotFound { repo_id, branch } => (
            404,
            "Branch not found: "@ + repo_id + "/"@ + branch,
        ),
        VersioningErrorView::BranchAlreadyExists { repo_id, branch } => (
            409,
            "Branch already exists: "@ + repo_id + "/"@ + branch,
        ),
        VersioningErrorView::ChangesetNotFound { repo_id, changeset_id } => (
            404,
            "Changeset not found: "@ + repo_id + "/"@ + changeset_id,
        ),
        VersioningErrorView::BaseChangesetRequired => (
            400,
            "base_changeset_id is required. use ROOT for first commit"@,
        ),
        VersioningErrorView::BaseChangesetMismatch { repo_id, branch, expected, got } => (
            409,
            "base_changeset_id mismatch for "@ + repo_id + "/"@ + branch + ", expected="@
                + debug_text_of(expected) + ", got="@ + debug_text_of(got),
        ),
        VersioningErrorView::InvalidRollbackTarget { repo_id, branch, target_changeset_id } => (
            409,
            "Rollback target invalid: "@ + repo_id + "/"@ + branch + "/"@ + target_changeset_id,
        ),
    }
}

pub fn map_versioning_error(error: VersioningError) -> (r: (u16, String))
    ensures
        (r.0, r.1@) == versioning_error_response(error@),
{
    proof {
        reveal_strlit("Repo not found: ");
        reveal_strlit("Branch not found: ");
        reveal_strlit("Branch already exists: ");
        reveal_strlit("Changeset not found: ");
        reveal_strlit("base_changeset_id is required. use ROOT for first commit");
        reveal_strlit("base_changeset_id mismatch for ");
        reveal_strlit(", expected=");
        reveal_strlit(", got=");
        reveal_strlit("Rollback target invalid: ");
        reveal_strlit("/");
    }
    match error {
        VersioningError::RepoNotFound { repo_id } => (404, text_concat("Repo not found: ", repo_id.as_str())),
        VersioningError::BranchNotFound { repo_id, branch } => {
            let mut m = text_concat("Branch not found: ", repo_id.as_str());
            push_text(&mut m, "/");
            push_text(&mut m, branch.as_str());
            (404, m)
        },
        VersioningError::BranchAlreadyExists { repo_id, branch } => {
            let mut m = text_concat("Branch already exists: ", repo_id.as_str());
            push_text(&mut m, "/");
            push_text(&mut m, branch.as_str());
            (409, m)
        },
        VersioningError::ChangesetNotFound { repo_id, changeset_id } => {
            let mut m = text_concat("Changeset not found: ", repo_id.as_str());
            push_text(&mut m, "/");
            push_text(&mut m, changeset_id.as_str());
            (404, m)
        },
        VersioningError::BaseChangesetRequired => (
            400,
            "base_changeset_id is required. use ROOT for first commit".to_owned(),
        ),
        VersioningError::BaseChangesetMismatch { repo_id, branch, expected, got } => {
            let mut m = text_concat("base_changeset_id mismatch for ", repo_id.as_str());
            push_text(&mut m, "/");
            push_text(&mut m, branch.as_str());
            push_text(&mut m, ", expected=");
            push_text(&mut m, debug_text(&expected).as_str());
            push_text(&mut m, ", got=");
            push_text(&mut m, debug_text(&got).as_str());
            proof {
                assert(m@ =~= versioning_error_response(error@).1);
            }
            (409, m)
        },
        VersioningError::InvalidRollbackTarget { repo_id, branch, target_changeset_id } => {
            let mut m = text_concat("Rollback target invalid: ", repo_id.as_str());
            push_text(&mut m, "/");
            push_text(&mut m, branch.as_str());
            push_text(&mut m, "/");
            push_text(&mut m, target_changeset_id.as_str());
            (409, m)
        },
    }
}

/// The HTTP status with which the API answers each kind of error.
pub open spec fn error_status(e: HyperTideError) -> u16 {
    match e {
        HyperTideError::Authentication(_) => 401,
        HyperTideError::PermissionDenied(_) => 403,
        HyperTideError::Conflict(_) => 409,
        HyperTideError::NotFound(_) => 404,
        HyperTideError::Persistence(_) => 500,
        HyperTideError::Configuration(_) => 500,
        HyperTideError::Validation(_) => 400,
        HyperTideError::Internal(_) => 500,
    }
}

/// What the API answers for an error: its status, its code and its message.
pub struct ErrorResponse {
    pub status: u16,
    pub code: String,
    pub message: String,
}

pub fn map_error(error: HyperTideError) -> (r: ErrorResponse)
    ensures
        r.status == error_status(error),
        r.code@ == error_code_spec(error),
        r.message@ == error_message_spec(error),
{
    let status: u16 = match &error {
        HyperTideError::Authentication(_) => 401,
        HyperTideError::PermissionDenied(_) => 403,
        HyperTideError::Conflict(_) => 409,
        HyperTideError::NotFound(_) => 404,
        HyperTideError::Persistence(_) => 500,
        HyperTideError::Configuration(_) => 500,
        HyperTideError::Validation(_) => 400,
        HyperTideError::Internal(_) => 500,
    };
    ErrorResponse { status, code: error.code().to_owned(), message: error.message().to_owned() }
}

} // verus!
