//! Metadata comparisons behind the overwrite policy.

use vstd::prelude::*;

verus! {

/// What the overwrite policy reads of a tree entry: its own (not followed)
/// modification time, in nanoseconds from the Unix epoch when it could be read,
/// and its length in bytes.
#[derive(Clone, Copy, Debug)]
pub struct EntryMeta {
    pub modified: Option<i128>,
    pub len: u64,
}

/// Both entries exist, both timestamps are known, and the first is strictly later.
pub open spec fn spec_is_newer(a: Option<EntryMeta>, b: Option<EntryMeta>) -> bool {
    match (a, b) {
        (Some(ma), Some(mb)) => match (ma.modified, mb.modified) {
            (Some(ta), Some(tb)) => ta > tb,
            _ => false,
        },
        _ => false,
    }
}

/// Both entries exist and their lengths differ.
pub open spec fn spec_size_differs(a: Option<EntryMeta>, b: Option<EntryMeta>) -> bool {
    match (a, b) {
        (Some(ma), Some(mb)) => ma.len != mb.len,
        _ => false,
    }
}

/// Whether entry `file_a` was modified strictly later than `file_b`; an
/// entry or a timestamp that could not be read counts as not newer.
pub fn is_file_newer(file_a: Option<EntryMeta>, file_b: Option<EntryMeta>) -> (r: bool)
    ensures
        r == spec_is_newer(file_a, file_b),
{
    match (file_a, file_b) {
        (Some(ma), Some(mb)) => match (ma.modified, mb.modified) {
            (Some(ta), Some(tb)) => ta > tb,
            _ => false,
        },
        _ => false,
    }
}

/// Whether the lengths of `file_a` and `file_b` differ; false when either could not be read.
pub fn is_filesize_different(file_a: Option<EntryMeta>, file_b: Option<EntryMeta>) -> (r: bool)
    ensures
        r == spec_size_differs(file_a, file_b),
{
    match (file_a, file_b) {
        (Some(ma), Some(mb)) => ma.len != mb.len,
        _ => false,
    }
}

} // verus!
