//! Paths held as text and joined as `std::path::Path::join` joins them with
//! `/` as the separator: an absolute segment replaces the base, and a
//! separator is put between the two unless the base is empty or already ends
//! in one.
use vstd::prelude::*;
use crate::text::{chars_of, push_char, push_text, text_concat};

verus! {

/// The separator of the parts of a path.
pub const SEPARATOR: char = '/';

/// Whether `p` is an absolute path: one that starts with the separator.
pub open spec fn is_absolute(p: Seq<char>) -> bool {
    p.len() > 0 && p[0] == SEPARATOR
}

/// `segment` joined onto `base`.
pub open spec fn joined(base: Seq<char>, segment: Seq<char>) -> Seq<char> {
    if is_absolute(segment) {
        segment
    } else if base.len() == 0 || base.last() == SEPARATOR {
        base + segment
    } else {
        base + seq![SEPARATOR] + segment
    }
}

/// `segment` joined onto `base`.
pub fn join_path(base: &str, segment: &str) -> (r: String)
    ensures
        r@ == joined(base@, segment@),
{
    let seg = chars_of(segment);
    if seg.len() > 0 && seg[0] == SEPARATOR {
        return segment.to_owned();
    }
    let b = chars_of(base);
    if b.len() == 0 || b[b.len() - 1] == SEPARATOR {
        return text_concat(base, segment);
    }
    let mut r = base.to_owned();
    push_char(&mut r, SEPARATOR);
    push_text(&mut r, segment);
    r
}

} // verus!
