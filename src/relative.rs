//! Rewriting absolute symlink targets inside a tree as relative ones.

use vstd::prelude::*;
use crate::text::{chars_of, string_of};
use crate::paths::{
    components, dot_dot, no_dots, no_sep, lemma_file_name_no_sep, lemma_components_join_name,
    lemma_components_split, lemma_join_absolute, lemma_parent_absolute, lemma_parent_no_dots, join_path, parent_of, file_name_of, rooted_at, strip_root_exec, join_path_exec,
    parent_of_exec, file_name_of_exec,
};

verus! {

/// The relative path that `pathdiff::diff_paths` computes from the directory
/// `base` to `path`, or `None` when it finds none.
pub uninterp spec fn path_diff(path: Seq<char>, base: Seq<char>) -> Option<Seq<char>>;

/// The characters of an optional string.
pub open spec fn opt_view(s: Option<String>) -> Option<Seq<char>> {
    match s {
        Some(t) => Some(t@),
        None => None,
    }
}

/// `m` parent-directory components.
pub open spec fn dots(m: nat) -> Seq<Seq<char>> {
    Seq::new(m, |i: int| dot_dot())
}

/// The number of leading components that `a` and `b` share.
pub open spec fn common_len(a: Seq<Seq<char>>, b: Seq<Seq<char>>) -> nat
    decreases a.len(),
{
    if a.len() > 0 && b.len() > 0 && a[0] == b[0] {
        1 + common_len(a.drop_first(), b.drop_first())
    } else {
        0
    }
}

/// The components of the relative path from directory `base` to `path`, both
/// absolute and free of `.` and `..`: one `..` for each component of `base`
/// past the shared prefix, then the rest of `path`.
pub open spec fn relative_components(path: Seq<Seq<char>>, base: Seq<Seq<char>>) -> Seq<Seq<char>> {
    let k = common_len(path, base);
    dots((base.len() - k) as nat) + path.subrange(k as int, path.len() as int)
}

/// The directory reached from directory `dir` by following the components `rel`.
pub open spec fn resolve(dir: Seq<Seq<char>>, rel: Seq<Seq<char>>) -> Seq<Seq<char>>
    decreases rel.len(),
{
    if rel.len() == 0 {
        dir
    } else if rel[0] == dot_dot() {
        resolve(if dir.len() > 0 { dir.drop_last() } else { dir }, rel.drop_first())
    } else {
        resolve(dir.push(rel[0]), rel.drop_first())
    }
}

/// The shared prefix is a prefix of both.
pub proof fn lemma_common_len(a: Seq<Seq<char>>, b: Seq<Seq<char>>)
    ensures
        common_len(a, b) <= a.len(),
        common_len(a, b) <= b.len(),
        a.subrange(0, common_len(a, b) as int) == b.subrange(0, common_len(a, b) as int),
    decreases a.len(),
{
    if a.len() > 0 && b.len() > 0 && a[0] == b[0] {
        lemma_common_len(a.drop_first(), b.drop_first());
        let k = common_len(a, b) as int;
        assert(a.subrange(0, k) =~= seq![a[0]] + a.drop_first().subrange(0, k - 1));
        assert(b.subrange(0, k) =~= seq![b[0]] + b.drop_first().subrange(0, k - 1));
    } else {
        assert(a.subrange(0, 0) =~= b.subrange(0, 0));
    }
}

/// Leading `..` components climb out of the directory.
pub proof fn lemma_resolve_up(dir: Seq<Seq<char>>, m: nat, rest: Seq<Seq<char>>)
    requires
        m <= dir.len(),
    ensures
        resolve(dir, dots(m) + rest) == resolve(dir.subrange(0, dir.len() - m), rest),
    decreases m,
{
    if m == 0 {
        assert(dots(0) + rest =~= rest);
        assert(dir.subrange(0, dir.len() as int) =~= dir);
    } else {
        let rel = dots(m) + rest;
        assert(rel[0] == dot_dot());
        assert(rel.drop_first() =~= dots((m - 1) as nat) + rest);
        lemma_resolve_up(dir.drop_last(), (m - 1) as nat, rest);
        assert(dir.drop_last().subrange(0, dir.drop_last().len() - (m - 1)) =~= dir.subrange(0, dir.len() - m));
    }
}

/// Components other than `..` descend one by one.
pub proof fn lemma_resolve_down(dir: Seq<Seq<char>>, rest: Seq<Seq<char>>)
    requires
        forall|i: int| 0 <= i < rest.len() ==> #[trigger] rest[i] != dot_dot(),
    ensures
        resolve(dir, rest) == dir + rest,
    decreases rest.len(),
{
    if rest.len() == 0 {
        assert(dir + rest =~= dir);
    } else {
        assert(rest[0] != dot_dot());
        lemma_resolve_down(dir.push(rest[0]), rest.drop_first());
        assert(dir.push(rest[0]) + rest.drop_first() =~= dir + rest);
    }
}

/// Relies on `pathdiff::diff_paths`: the relative path from `base` to `path`,
/// which depends on the two paths alone. For two absolute paths it skips the
/// shared leading components, then emits `..` for each component left in `base`
/// and the components left in `path`; with no `.` or `..` among them it never
/// returns `None`. The result is assembled from components of the two UTF-8
/// arguments, so reading it back as text loses nothing.
#[verifier::external_body]
fn diff_paths(path: &str, base: &str) -> (r: Option<String>)
    ensures
        opt_view(r) == path_diff(path@, base@),
        is_absolute(path@) && is_absolute(base@) && no_dots(components(path@)) && no_dots(components(base@))
            ==> r is Some && components(r->0@) == relative_components(components(path@), components(base@))
            && !is_absolute(r->0@),
{
    pathdiff::diff_paths(path, base).map(|p| p.to_string_lossy().into_owned())
}

/// Why a symlink target could not be rewritten.
#[derive(Clone, Copy, Debug, PartialEq, Eq, Structural)]
pub enum RelativizeError {
    /// No relative path leads from the link's directory to its target's directory.
    NoRelativePath,
}

/// A target is absolute when it starts with a separator.
pub open spec fn is_absolute(p: Seq<char>) -> bool {
    p.len() > 0 && p[0] == '/'
}

/// The target, read below `root`, that an absolute symlink target `target` denotes.
pub open spec fn rooted_target(root: Seq<char>, target: Seq<char>) -> Seq<char> {
    rooted_at(root, target)
}

/// The rewrite of the symlink at `link` with target `target` in the tree at `root`:
/// `Ok(None)` leaves a relative target as it is; an absolute one becomes the path
/// from the link's directory to the directory of its rooted target, followed by the
/// target's last component.
pub open spec fn spec_relative_target(
    root: Seq<char>,
    link: Seq<char>,
    target: Seq<char>,
) -> Result<Option<Seq<char>>, RelativizeError> {
    if !is_absolute(target) {
        Ok(None)
    } else {
        let resolved = rooted_target(root, target);
        match path_diff(parent_of(resolved), parent_of(link)) {
            None => Err(RelativizeError::NoRelativePath),
            Some(d) => Ok(Some(join_path(d, file_name_of(resolved)))),
        }
    }
}

/// The rewrite, given the already computed relative path `diff` (`None` when
/// there is none) from the link's directory to the directory of the rooted target.
pub open spec fn spec_finish_target(
    root: Seq<char>,
    target: Seq<char>,
    diff: Option<Seq<char>>,
) -> Result<Option<Seq<char>>, RelativizeError> {
    if !is_absolute(target) {
        Ok(None)
    } else {
        match diff {
            None => Err(RelativizeError::NoRelativePath),
            Some(d) => Ok(Some(join_path(d, file_name_of(rooted_target(root, target))))),
        }
    }
}

/// The rewrite of a symlink is well defined when the tree root, the link and its
/// target are absolute, the link and its rooted target have a last component,
/// and neither has a `.` or `..` component.
pub open spec fn clean_rewrite(root: Seq<char>, link: Seq<char>, target: Seq<char>) -> bool {
    let resolved = rooted_target(root, target);
    &&& is_absolute(root)
    &&& is_absolute(link)
    &&& is_absolute(target)
    &&& no_dots(components(resolved))
    &&& no_dots(components(link))
    &&& file_name_of(resolved).len() > 0
    &&& file_name_of(link).len() > 0
}

/// The components of the rewritten target: the way from the link's directory to
/// the rooted target's directory, then the target's last component.
pub open spec fn rewritten_components(root: Seq<char>, link: Seq<char>, target: Seq<char>) -> Seq<Seq<char>> {
    let resolved = rooted_target(root, target);
    relative_components(components(parent_of(resolved)), components(parent_of(link))).push(file_name_of(resolved))
}

/// Following the rewritten target from the link's directory leads to the path
/// that the absolute target denoted below the tree root.
pub proof fn lemma_rewrite_resolves(root: Seq<char>, link: Seq<char>, target: Seq<char>)
    requires
        clean_rewrite(root, link, target),
    ensures
        resolve(components(parent_of(link)), rewritten_components(root, link, target))
            == components(rooted_target(root, target)),
{
    let resolved = rooted_target(root, target);
    let ca = components(parent_of(resolved));
    let cb = components(parent_of(link));
    let name = file_name_of(resolved);
    lemma_components_split(resolved);
    assert(components(resolved) == ca.push(name));
    assert forall|i: int| 0 <= i < ca.len() implies #[trigger] ca[i] != dot_dot() by {
        assert(components(resolved)[i] == ca[i]);
    }
    assert(components(resolved)[ca.len() as int] == name);
    lemma_common_len(ca, cb);
    let k = common_len(ca, cb);
    let m = (cb.len() - k) as nat;
    let tail = ca.subrange(k as int, ca.len() as int).push(name);
    assert(rewritten_components(root, link, target) =~= dots(m) + tail);
    lemma_resolve_up(cb, m, tail);
    assert(cb.subrange(0, cb.len() - m) =~= cb.subrange(0, k as int));
    assert forall|i: int| 0 <= i < tail.len() implies #[trigger] tail[i] != dot_dot() by {
        if i < tail.len() - 1 {
            assert(tail[i] == ca[k + i]);
        }
    }
    lemma_resolve_down(cb.subrange(0, k as int), tail);
    assert(ca.subrange(0, k as int) + tail =~= ca.push(name));
}

pub open spec fn result_view(r: Result<Option<String>, RelativizeError>) -> Result<Option<Seq<char>>, RelativizeError> {
    match r {
        Ok(o) => Ok(opt_view(o)),
        Err(e) => Err(e),
    }
}

/// The absolute target `target` read below `root`.
pub fn rooted_target_exec(root: &str, target: &str) -> (r: String)
    ensures
        r@ == rooted_target(root@, target@),
{
    let rc = chars_of(root);
    let tc = chars_of(target);
    let stripped = strip_root_exec(&tc);
    let joined = join_path_exec(&rc, &stripped);
    string_of(&joined)
}

/// Finishes the rewrite of an absolute target from the relative path `diff`
/// between the two directories.
pub fn finish_target(root: &str, target: &str, diff: Option<String>) -> (r: Result<Option<String>, RelativizeError>)
    ensures
        result_view(r) == spec_finish_target(root@, target@, opt_view(diff)),
        is_absolute(target@) && diff is Some && file_name_of(rooted_target(root@, target@)).len() > 0
            ==> (r matches Ok(Some(s)) && components(s@) == components(diff->0@).push(
            file_name_of(rooted_target(root@, target@)))
            && (!is_absolute(diff->0@) ==> !is_absolute(s@))),
{
    let tc = chars_of(target);
    if tc.len() == 0 || tc[0] != '/' {
        return Ok(None);
    }
    match diff {
        None => Err(RelativizeError::NoRelativePath),
        Some(d) => {
            let resolved = chars_of(rooted_target_exec(root, target).as_str());
            let name = file_name_of_exec(&resolved);
            let dc = chars_of(d.as_str());
            let joined = join_path_exec(&dc, &name);
            proof {
                if name@.len() > 0 {
                    lemma_file_name_no_sep(resolved@);
                    lemma_components_join_name(d@, name@);
                    assert(no_sep(name@));
                    if d@.len() == 0 {
                        assert(name@[0] != '/');
                    }
                }
            }
            Ok(Some(string_of(&joined)))
        },
    }
}

/// The new target of the symlink at `link`, whose target is `target`, inside the
/// tree rooted at `root`: `Ok(None)` when the target is relative and stays.
pub fn relative_target(root: &str, link: &str, target: &str) -> (r: Result<Option<String>, RelativizeError>)
    ensures
        result_view(r) == spec_relative_target(root@, link@, target@),
        clean_rewrite(root@, link@, target@) ==> (r matches Ok(Some(s))
            && components(s@) == rewritten_components(root@, link@, target@) && !is_absolute(s@)),
{
    let tc = chars_of(target);
    if tc.len() == 0 || tc[0] != '/' {
        return Ok(None);
    }
    let resolved = chars_of(rooted_target_exec(root, target).as_str());
    let real_dir = string_of(&parent_of_exec(&resolved));
    let link_dir = string_of(&parent_of_exec(&chars_of(link)));
    proof {
        if clean_rewrite(root@, link@, target@) {
            lemma_join_absolute(root@, crate::paths::strip_root(target@));
            lemma_parent_absolute(resolved@);
            lemma_parent_absolute(link@);
            lemma_parent_no_dots(resolved@);
            lemma_parent_no_dots(link@);
        }
    }
    let diff = diff_paths(real_dir.as_str(), link_dir.as_str());
    finish_target(root, target, diff)
}

} // verus!
