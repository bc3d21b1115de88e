//! Substring filters that decide which paths of a tree are copied.

use vstd::prelude::*;
use crate::text::{is_substring, contains_str};

verus! {

/// The character sequences held by a list of filter strings.
pub open spec fn filter_views(filters: Seq<String>) -> Seq<Seq<char>> {
    filters.map_values(|f: String| f@)
}

/// Some filter occurs in the path's text.
pub open spec fn any_filter_matches(path: Seq<char>, filters: Seq<Seq<char>>) -> bool {
    exists|i: int| 0 <= i < filters.len() && is_substring(#[trigger] filters[i], path)
}

/// A path is excluded when any exclude filter occurs in its text.
pub open spec fn spec_excluded(path: Seq<char>, excludes: Seq<Seq<char>>) -> bool {
    any_filter_matches(path, excludes)
}

/// A path is included when there are no include filters, or one of them occurs in its text.
pub open spec fn spec_included(path: Seq<char>, includes: Seq<Seq<char>>) -> bool {
    includes.len() == 0 || any_filter_matches(path, includes)
}

/// A path passes the filters when it is included and not excluded.
pub open spec fn spec_passes(path: Seq<char>, includes: Seq<Seq<char>>, excludes: Seq<Seq<char>>) -> bool {
    !spec_excluded(path, excludes) && spec_included(path, includes)
}

/// Whether any of `filters` occurs in `path`.
pub fn matches_any(path: &str, filters: &Vec<String>) -> (r: bool)
    ensures
        r == any_filter_matches(path@, filter_views(filters@)),
{
    let ghost fv = filter_views(filters@);
    let mut i: usize = 0;
    while i < filters.len()
        invariant
            i <= filters@.len(),
            fv == filter_views(filters@),
            forall|k: int| 0 <= k < i ==> !is_substring(#[trigger] fv[k], path@),
        decreases filters@.len() - i,
    {
        if contains_str(path, filters[i].as_str()) {
            assert(is_substring(fv[i as int], path@));
            return true;
        }
        i += 1;
    }
    false
}

/// Whether `path` is excluded by any of `excludes`.
pub fn is_excluded(path: &str, excludes: &Vec<String>) -> (r: bool)
    ensures
        r == spec_excluded(path@, filter_views(excludes@)),
{
    matches_any(path, excludes)
}

/// Whether `path` is included: always when `includes` is empty, else when one of them occurs in it.
pub fn is_included(path: &str, includes: &Vec<String>) -> (r: bool)
    ensures
        r == spec_included(path@, filter_views(includes@)),
{
    includes.len() == 0 || matches_any(path, includes)
}

/// Whether `path` is copied under the given include and exclude filters.
pub fn passes_filters(path: &str, includes: &Vec<String>, excludes: &Vec<String>) -> (r: bool)
    ensures
        r == spec_passes(path@, filter_views(includes@), filter_views(excludes@)),
{
    !is_excluded(path, excludes) && is_included(path, includes)
}

/// With no filters at all, every path is included and none is excluded.
pub proof fn lemma_empty_filters_pass_everything(path: Seq<char>)
    ensures
        !spec_excluded(path, Seq::empty()),
        spec_included(path, Seq::empty()),
        spec_passes(path, Seq::empty(), Seq::empty()),
{
}

/// A path that matches both an include filter and an exclude filter is not copied.
pub proof fn lemma_exclude_wins(path: Seq<char>, includes: Seq<Seq<char>>, excludes: Seq<Seq<char>>, i: int, j: int)
    requires
        0 <= i < includes.len(),
        is_substring(includes[i], path),
        0 <= j < excludes.len(),
        is_substring(excludes[j], path),
    ensures
        spec_included(path, includes),
        !spec_passes(path, includes, excludes),
{
}

} // verus!
