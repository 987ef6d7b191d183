//! The retention policy of the audit trail, the event store and checkpoints.
use vstd::prelude::*;
use crate::text::{parse_i64, parsed_i64, ascii_lowercase_text, ascii_lowercase, str_eq};

verus! {

/// How long records are kept, in days, and whether clean-ups only report.
#[derive(Debug)]
pub struct RetentionPolicy {
    pub audit_retention_days: i64,
    pub event_retention_days: i64,
    pub checkpoint_retention_days: i64,
    pub dry_run_only: bool,
}

/// A day count read from a setting: its number, or `default` when the
/// setting is absent or not a number.
pub open spec fn days_setting(value: Option<String>, default: i64) -> i64 {
    match value {
        Some(v) => match parsed_i64(v@) {
            Some(n) => n,
            None => default,
        },
        None => default,
    }
}

/// A flag read from a setting: `1`, `true` or `yes` turn it on and `0`,
/// `false` or `no` turn it off, in any case of letters; anything else, or no
/// setting, leaves `default`.
pub open spec fn flag_setting(value: Option<String>, default: bool) -> bool {
    match value {
        Some(v) => {
            let l = ascii_lowercase(v@);
            if l == "1"@ || l == "true"@ || l == "yes"@ {
                true
            } else if l == "0"@ || l == "false"@ || l == "no"@ {
                false
            } else {
                default
            }
        },
        None => default,
    }
}

/// The day count of a setting.
pub fn read_days(value: Option<String>, default: i64) -> (r: i64)
    ensures
        r == days_setting(value, default),
{
    match value {
        Some(v) => match parse_i64(v.as_str()) {
            Some(n) => n,
            None => default,
        },
        None => default,
    }
}

/// The flag of a setting.
pub fn read_flag(value: Option<String>, default: bool) -> (r: bool)
    ensures
        r == flag_setting(value, default),
{
    match value {
        Some(v) => {
            let l = ascii_lowercase_text(v.as_str());
            let s = l.as_str();
            if str_eq(s, "1") || str_eq(s, "true") || str_eq(s, "yes") {
                true
            } else if str_eq(s, "0") || str_eq(s, "false") || str_eq(s, "no") {
                false
            } else {
                default
            }
        },
        None => default,
    }
}

impl RetentionPolicy {
    /// The policy that the settings `RETENTION_AUDIT_DAYS`,
    /// `RETENTION_EVENT_DAYS`, `RETENTION_CHECKPOINT_DAYS` and
    /// `RETENTION_DRY_RUN_ONLY` describe, given their values (`None` for one
    /// that is not set): by default audit entries are kept 3650 days, events
    /// and checkpoints 365, and clean-ups only report.
    pub fn from_env(
        audit_days: Option<String>,
        event_days: Option<String>,
        checkpoint_days: Option<String>,
        dry_run_only: Option<String>,
    ) -> (r: RetentionPolicy)
        ensures
            r.audit_retention_days == days_setting(audit_days, 3650),
            r.event_retention_days == days_setting(event_days, 365),
            r.checkpoint_retention_days == days_setting(checkpoint_days, 365),
            r.dry_run_only == flag_setting(dry_run_only, true),
    {
        RetentionPolicy {
            audit_retention_days: read_days(audit_days, 3650),
            event_retention_days: read_days(event_days, 365),
            checkpoint_retention_days: read_days(checkpoint_days, 365),
            dry_run_only: read_flag(dry_run_only, true),
        }
    }
}

} // verus!
