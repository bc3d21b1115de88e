//! Decisions of a sysroot build that come before and after the copy.

use vstd::prelude::*;
use crate::text::{chars_of, string_of, seq_eq};
use crate::paths::{rooted_at, strip_root_exec, join_path_exec};
use crate::relative::is_absolute;
use crate::copier::CopyBuilder;

verus! {

/// Why a destination is refused.
#[derive(Clone, Copy, Debug, PartialEq, Eq, Structural)]
pub enum DestinationError {
    /// The destination is the filesystem root and the operation was not forced.
    FilesystemRoot,
}

/// Why the filter configuration is refused.
#[derive(Clone, Copy, Debug, PartialEq, Eq, Structural)]
pub enum ConfigError {
    /// An include path does not start at the root.
    IncludeNotAbsolute,
    /// An exclude path does not start at the root.
    ExcludeNotAbsolute,
}

/// How a configured path is shown in a preview.
#[derive(Clone, Copy, Debug, PartialEq, Eq, Structural)]
pub enum PreviewMark {
    Included,
    Excluded,
    Unmarked,
}

/// Refuses the canonical destination `canonical` when it is the filesystem
/// root, unless `force` is set.
pub fn check_destination(canonical: &str, force: bool) -> (r: Result<(), DestinationError>)
    ensures
        r is Err <==> (!force && canonical@ == seq!['/']),
        r is Err ==> r == Err::<(), DestinationError>(DestinationError::FilesystemRoot),
{
    if force {
        return Ok(());
    }
    let c = chars_of(canonical);
    let mut root: Vec<char> = Vec::new();
    root.push('/');
    assert(root@ =~= seq!['/']);
    if seq_eq(&c, &root) {
        Err(DestinationError::FilesystemRoot)
    } else {
        Ok(())
    }
}

/// The absolute path `p` placed below `root`; `None` when `p` is not absolute.
pub fn rooted_path(root: &str, p: &str) -> (r: Option<String>)
    ensures
        r is Some <==> is_absolute(p@),
        r matches Some(s) ==> s@ == rooted_at(root@, p@),
{
    let pc = chars_of(p);
    if pc.len() == 0 || pc[0] != '/' {
        return None;
    }
    let rc = chars_of(root);
    let stripped = strip_root_exec(&pc);
    Some(string_of(&join_path_exec(&rc, &stripped)))
}

/// Every path of `paths` is absolute.
pub open spec fn all_absolute(paths: Seq<String>) -> bool {
    forall|i: int| 0 <= i < paths.len() ==> is_absolute(#[trigger] paths[i]@)
}

/// `out` holds each path of `paths` placed below `root`, in order.
pub open spec fn rooted_all(root: Seq<char>, paths: Seq<String>, out: Seq<String>) -> bool {
    &&& out.len() == paths.len()
    &&& forall|i: int| 0 <= i < paths.len() ==> #[trigger] out[i]@ == rooted_at(root, paths[i]@)
}

/// Each of `paths` placed below `root`; `None` when one of them is not absolute.
pub fn rooted_paths(root: &str, paths: &Vec<String>) -> (r: Option<Vec<String>>)
    ensures
        r is Some <==> all_absolute(paths@),
        r matches Some(v) ==> rooted_all(root@, paths@, v@),
{
    let mut out: Vec<String> = Vec::new();
    let mut i: usize = 0;
    while i < paths.len()
        invariant
            i <= paths@.len(),
            out@.len() == i,
            forall|k: int| 0 <= k < i ==> is_absolute(#[trigger] paths@[k]@),
            forall|k: int| 0 <= k < i ==> #[trigger] out@[k]@ == rooted_at(root@, paths@[k]@),
        decreases paths@.len() - i,
    {
        match rooted_path(root, paths[i].as_str()) {
            None => {
                return None;
            },
            Some(s) => {
                out.push(s);
            },
        }
        i += 1;
    }
    Some(out)
}

/// The copy of `src` into `dst` that a sysroot build runs: overwriting entries
/// whose source is newer, with each include and exclude path placed below `src`
/// as a filter. Include paths are checked before exclude paths.
pub fn build_copier(src: &str, dst: &str, includes: &Vec<String>, excludes: &Vec<String>) -> (r: Result<CopyBuilder, ConfigError>)
    ensures
        r matches Err(e) ==> e == (if !all_absolute(includes@) {
            ConfigError::IncludeNotAbsolute
        } else {
            ConfigError::ExcludeNotAbsolute
        }),
        r is Ok <==> (all_absolute(includes@) && all_absolute(excludes@)),
        r matches Ok(b) ==> {
            &&& b.spec_source() == src@
            &&& b.spec_destination() == dst@
            &&& !b.spec_overwrite_all()
            &&& b.spec_overwrite_if_newer()
            &&& !b.spec_overwrite_if_size_differs()
            &&& b.spec_includes().len() == includes@.len()
            &&& b.spec_excludes().len() == excludes@.len()
            &&& forall|i: int| 0 <= i < includes@.len() ==> #[trigger] b.spec_includes()[i] == rooted_at(src@, includes@[i]@)
            &&& forall|i: int| 0 <= i < excludes@.len() ==> #[trigger] b.spec_excludes()[i] == rooted_at(src@, excludes@[i]@)
        },
{
    let inc = match rooted_paths(src, includes) {
        None => {
            return Err(ConfigError::IncludeNotAbsolute);
        },
        Some(v) => v,
    };
    let exc = match rooted_paths(src, excludes) {
        None => {
            return Err(ConfigError::ExcludeNotAbsolute);
        },
        Some(v) => v,
    };
    let mut b = CopyBuilder::new(src, dst).overwrite_if_newer(true);
    let mut i: usize = 0;
    while i < inc.len()
        invariant
            i <= inc@.len(),
            rooted_all(src@, includes@, inc@),
            b.spec_source() == src@,
            b.spec_destination() == dst@,
            !b.spec_overwrite_all(),
            b.spec_overwrite_if_newer(),
            !b.spec_overwrite_if_size_differs(),
            b.spec_excludes().len() == 0,
            b.spec_includes().len() == i,
            forall|k: int| 0 <= k < i ==> #[trigger] b.spec_includes()[k] == inc@[k]@,
        decreases inc@.len() - i,
    {
        b = b.with_include_filter(inc[i].as_str());
        i += 1;
    }
    let mut j: usize = 0;
    while j < exc.len()
        invariant
            j <= exc@.len(),
            rooted_all(src@, includes@, inc@),
            rooted_all(src@, excludes@, exc@),
            b.spec_source() == src@,
            b.spec_destination() == dst@,
            !b.spec_overwrite_all(),
            b.spec_overwrite_if_newer(),
            !b.spec_overwrite_if_size_differs(),
            b.spec_includes().len() == inc@.len(),
            forall|k: int| 0 <= k < inc@.len() ==> #[trigger] b.spec_includes()[k] == inc@[k]@,
            b.spec_excludes().len() == j,
            forall|k: int| 0 <= k < j ==> #[trigger] b.spec_excludes()[k] == exc@[k]@,
        decreases exc@.len() - j,
    {
        b = b.with_exclude_filter(exc[j].as_str());
        j += 1;
    }
    Ok(b)
}

/// Whether `path` is one of `paths`.
pub fn listed(path: &str, paths: &Vec<String>) -> (r: bool)
    ensures
        r == (exists|i: int| 0 <= i < paths@.len() && #[trigger] paths@[i]@ == path@),
{
    let pc = chars_of(path);
    let mut i: usize = 0;
    while i < paths.len()
        invariant
            i <= paths@.len(),
            pc@ == path@,
            forall|k: int| 0 <= k < i ==> #[trigger] paths@[k]@ != path@,
        decreases paths@.len() - i,
    {
        let c = chars_of(paths[i].as_str());
        if seq_eq(&c, &pc) {
            return true;
        }
        i += 1;
    }
    false
}

/// How a configured path is shown in a preview: marked as included when it is an
/// include path, else as excluded when it is an exclude path.
pub fn preview_mark(path: &str, includes: &Vec<String>, excludes: &Vec<String>) -> (r: PreviewMark)
    ensures
        r == (if exists|i: int| 0 <= i < includes@.len() && #[trigger] includes@[i]@ == path@ {
            PreviewMark::Included
        } else if exists|i: int| 0 <= i < excludes@.len() && #[trigger] excludes@[i]@ == path@ {
            PreviewMark::Excluded
        } else {
            PreviewMark::Unmarked
        }),
{
    if listed(path, includes) {
        PreviewMark::Included
    } else if listed(path, excludes) {
        PreviewMark::Excluded
    } else {
        PreviewMark::Unmarked
    }
}

} // verus!
