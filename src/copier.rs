//! Configuration of a filtered tree copy, and the decision taken for each entry.

use vstd::prelude::*;
use crate::filter::{filter_views, spec_passes, passes_filters};
use crate::policy::{EntryMeta, spec_is_newer, spec_size_differs, is_file_newer, is_filesize_different};

verus! {

/// Recursively copy a directory from a source to a destination.
#[derive(Debug, Clone)]
pub struct CopyBuilder {
    /// The source directory
    pub source: String,
    /// The destination directory
    pub destination: String,
    /// Overwrite all existing destination entries
    overwrite_all: bool,
    /// Overwrite an existing destination entry when the source is newer
    overwrite_if_newer: bool,
    /// Overwrite an existing destination entry when the sizes differ
    overwrite_if_size_differs: bool,
    /// Paths holding any of these are not copied
    exclude_filters: Vec<String>,
    /// When not empty, only paths holding one of these are copied
    include_filters: Vec<String>,
}

/// The kind of an entry met while walking the source tree (symlinks not followed).
#[derive(Clone, Copy, Debug, PartialEq, Eq, Structural)]
pub enum EntryKind {
    File,
    Directory,
    Symlink,
    Other,
}

/// What is done for one entry of the source tree.
#[derive(Clone, Copy, Debug, PartialEq, Eq, Structural)]
pub enum EntryAction {
    /// Leave the destination as it is.
    Skip,
    /// Copy the file's bytes to the destination.
    CopyFile,
    /// Create a symlink at the destination with the same literal target.
    CopySymlink,
    /// Create the directory at the destination.
    CreateDir,
    /// An entry of a kind that is not copied; it is reported and skipped.
    Unsupported,
}

impl CopyBuilder {
    pub closed spec fn spec_source(&self) -> Seq<char> {
        self.source@
    }

    pub closed spec fn spec_destination(&self) -> Seq<char> {
        self.destination@
    }

    pub closed spec fn spec_overwrite_all(&self) -> bool {
        self.overwrite_all
    }

    pub closed spec fn spec_overwrite_if_newer(&self) -> bool {
        self.overwrite_if_newer
    }

    pub closed spec fn spec_overwrite_if_size_differs(&self) -> bool {
        self.overwrite_if_size_differs
    }

    pub closed spec fn spec_excludes(&self) -> Seq<Seq<char>> {
        filter_views(self.exclude_filters@)
    }

    pub closed spec fn spec_includes(&self) -> Seq<Seq<char>> {
        filter_views(self.include_filters@)
    }

    /// The overwrite policy: a missing destination is always written; an existing
    /// one only under `overwrite_all`, or when an enabled finer check signals it.
    pub open spec fn spec_should_copy(&self, src: Option<EntryMeta>, dst: Option<EntryMeta>) -> bool {
        if dst is None {
            true
        } else if self.spec_overwrite_all() {
            true
        } else {
            (self.spec_overwrite_if_newer() && spec_is_newer(src, dst))
                || (self.spec_overwrite_if_size_differs() && spec_size_differs(src, dst))
        }
    }

    /// The action for an entry at source path `path` of kind `kind`, with the
    /// source's metadata `src`, the destination's metadata `dst` (`None` when
    /// nothing is there) and whether the destination is a directory.
    pub open spec fn spec_plan(
        &self,
        path: Seq<char>,
        kind: EntryKind,
        src: Option<EntryMeta>,
        dst: Option<EntryMeta>,
        dst_is_dir: bool,
    ) -> EntryAction {
        if kind == EntryKind::Directory {
            if dst_is_dir { EntryAction::Skip } else { EntryAction::CreateDir }
        } else if src is None {
            EntryAction::Skip
        } else if !spec_passes(path, self.spec_includes(), self.spec_excludes()) {
            EntryAction::Skip
        } else if !self.spec_should_copy(src, dst) {
            EntryAction::Skip
        } else {
            match kind {
                EntryKind::File => EntryAction::CopyFile,
                EntryKind::Symlink => EntryAction::CopySymlink,
                _ => EntryAction::Unsupported,
            }
        }
    }

    /// Construct a new CopyBuilder with `source` and `dest`, no overwriting and no filters.
    pub fn new(source: &str, dest: &str) -> (r: CopyBuilder)
        ensures
            r.spec_source() == source@,
            r.spec_destination() == dest@,
            !r.spec_overwrite_all(),
            !r.spec_overwrite_if_newer(),
            !r.spec_overwrite_if_size_differs(),
            r.spec_excludes() == Seq::<Seq<char>>::empty(),
            r.spec_includes() == Seq::<Seq<char>>::empty(),
    {
        let r = CopyBuilder {
            source: source.to_owned(),
            destination: dest.to_owned(),
            overwrite_all: false,
            overwrite_if_newer: false,
            overwrite_if_size_differs: false,
            exclude_filters: Vec::new(),
            include_filters: Vec::new(),
        };
        assert(r.spec_excludes() =~= Seq::<Seq<char>>::empty());
        assert(r.spec_includes() =~= Seq::<Seq<char>>::empty());
        r
    }

    /// Overwrite target files (off by default)
    pub fn overwrite(self, overwrite: bool) -> (r: CopyBuilder)
        ensures
            r.spec_overwrite_all() == overwrite,
            r.spec_overwrite_if_newer() == self.spec_overwrite_if_newer(),
            r.spec_overwrite_if_size_differs() == self.spec_overwrite_if_size_differs(),
            r.spec_source() == self.spec_source(),
            r.spec_destination() == self.spec_destination(),
            r.spec_excludes() == self.spec_excludes(),
            r.spec_includes() == self.spec_includes(),
    {
        CopyBuilder { overwrite_all: overwrite, ..self }
    }

    /// Overwrite if the source is newer (off by default)
    pub fn overwrite_if_newer(self, overwrite_only_newer: bool) -> (r: CopyBuilder)
        ensures
            r.spec_overwrite_all() == self.spec_overwrite_all(),
            r.spec_overwrite_if_newer() == overwrite_only_newer,
            r.spec_overwrite_if_size_differs() == self.spec_overwrite_if_size_differs(),
            r.spec_source() == self.spec_source(),
            r.spec_destination() == self.spec_destination(),
            r.spec_excludes() == self.spec_excludes(),
            r.spec_includes() == self.spec_includes(),
    {
        CopyBuilder { overwrite_if_newer: overwrite_only_newer, ..self }
    }

    /// Overwrite if size between source and dest differs (off by default)
    pub fn overwrite_if_size_differs(self, overwrite_if_size_differs: bool) -> (r: CopyBuilder)
        ensures
            r.spec_overwrite_all() == self.spec_overwrite_all(),
            r.spec_overwrite_if_newer() == self.spec_overwrite_if_newer(),
            r.spec_overwrite_if_size_differs() == overwrite_if_size_differs,
            r.spec_source() == self.spec_source(),
            r.spec_destination() == self.spec_destination(),
            r.spec_excludes() == self.spec_excludes(),
            r.spec_includes() == self.spec_includes(),
    {
        CopyBuilder { overwrite_if_size_differs, ..self }
    }

    /// Do not copy files that contain this string
    pub fn with_exclude_filter(self, f: &str) -> (r: CopyBuilder)
        ensures
            r.spec_overwrite_all() == self.spec_overwrite_all(),
            r.spec_overwrite_if_newer() == self.spec_overwrite_if_newer(),
            r.spec_overwrite_if_size_differs() == self.spec_overwrite_if_size_differs(),
            r.spec_source() == self.spec_source(),
            r.spec_destination() == self.spec_destination(),
            r.spec_excludes() == self.spec_excludes().push(f@),
            r.spec_includes() == self.spec_includes(),
    {
        let mut filters = self.exclude_filters;
        let ghost before = filters@;
        filters.push(f.to_owned());
        assert(filter_views(filters@) =~= filter_views(before).push(f@));
        CopyBuilder { exclude_filters: filters, ..self }
    }

    /// Only copy files that contain this string.
    pub fn with_include_filter(self, f: &str) -> (r: CopyBuilder)
        ensures
            r.spec_overwrite_all() == self.spec_overwrite_all(),
            r.spec_overwrite_if_newer() == self.spec_overwrite_if_newer(),
            r.spec_overwrite_if_size_differs() == self.spec_overwrite_if_size_differs(),
            r.spec_source() == self.spec_source(),
            r.spec_destination() == self.spec_destination(),
            r.spec_excludes() == self.spec_excludes(),
            r.spec_includes() == self.spec_includes().push(f@),
    {
        let mut filters = self.include_filters;
        let ghost before = filters@;
        filters.push(f.to_owned());
        assert(filter_views(filters@) =~= filter_views(before).push(f@));
        CopyBuilder { include_filters: filters, ..self }
    }

    /// Whether an entry whose source metadata is `src` is written over the
    /// destination entry `dst` (`None` when nothing is there).
    pub fn should_copy(&self, src: Option<EntryMeta>, dst: Option<EntryMeta>) -> (r: bool)
        ensures
            r == self.spec_should_copy(src, dst),
    {
        if dst.is_none() {
            true
        } else if self.overwrite_all {
            true
        } else {
            (self.overwrite_if_newer && is_file_newer(src, dst))
                || (self.overwrite_if_size_differs && is_filesize_different(src, dst))
        }
    }

    /// Whether the path `path` (in the source tree) passes this copy's filters.
    pub fn passes(&self, path: &str) -> (r: bool)
        ensures
            r == spec_passes(path@, self.spec_includes(), self.spec_excludes()),
    {
        passes_filters(path, &self.include_filters, &self.exclude_filters)
    }

    /// The action for the source entry at `path` of kind `kind`, with source
    /// metadata `src` (`None` when it could not be read), destination metadata
    /// `dst` (`None` when nothing is there) and whether the destination is a directory.
    pub fn plan_entry(
        &self,
        path: &str,
        kind: EntryKind,
        src: Option<EntryMeta>,
        dst: Option<EntryMeta>,
        dst_is_dir: bool,
    ) -> (r: EntryAction)
        ensures
            r == self.spec_plan(path@, kind, src, dst, dst_is_dir),
    {
        match kind {
            EntryKind::Directory => {
                return if dst_is_dir { EntryAction::Skip } else { EntryAction::CreateDir };
            },
            _ => {},
        }
        if src.is_none() {
            return EntryAction::Skip;
        }
        // an existing destination with every overwrite switched off is left alone
        if dst.is_some() && !self.overwrite_all && !self.overwrite_if_newer
            && !self.overwrite_if_size_differs {
            return EntryAction::Skip;
        }
        if !self.passes(path) || !self.should_copy(src, dst) {
            return EntryAction::Skip;
        }
        match kind {
            EntryKind::File => EntryAction::CopyFile,
            EntryKind::Symlink => EntryAction::CopySymlink,
            _ => EntryAction::Unsupported,
        }
    }
}

/// Whether the walk descends into `path`: never into the destination itself,
/// which may lie inside the source.
pub fn descends_into(path: &str, destination: &str) -> (r: bool)
    ensures
        r == (path@ != destination@),
{
    let p = crate::text::chars_of(path);
    let d = crate::text::chars_of(destination);
    !crate::text::seq_eq(&p, &d)
}

/// With `overwrite_all` set, every entry is written, whatever the destination holds.
pub proof fn lemma_overwrite_all_always_copies(b: CopyBuilder, src: Option<EntryMeta>, dst: Option<EntryMeta>)
    requires
        b.spec_overwrite_all(),
    ensures
        b.spec_should_copy(src, dst),
{
}

/// A second pass over an unchanged source leaves alone every file or symlink
/// that the first pass wrote: its copy has the source's length and is not older
/// than the source, so no overwrite switch but `overwrite_all` writes it again,
/// and `overwrite_all` writes the same bytes once more.
pub proof fn lemma_second_pass_keeps_copies(
    b: CopyBuilder,
    path: Seq<char>,
    kind: EntryKind,
    src: EntryMeta,
    dst: EntryMeta,
    dst_is_dir: bool,
)
    requires
        kind != EntryKind::Directory,
        !b.spec_overwrite_all(),
        dst.len == src.len,
        src.modified is Some,
        dst.modified is Some,
        src.modified->0 <= dst.modified->0,
    ensures
        b.spec_plan(path, kind, Some(src), Some(dst), dst_is_dir) == EntryAction::Skip,
{
}

/// A directory that the first pass created is not created again.
pub proof fn lemma_second_pass_keeps_dirs(
    b: CopyBuilder,
    path: Seq<char>,
    src: Option<EntryMeta>,
    dst: Option<EntryMeta>,
)
    ensures
        b.spec_plan(path, EntryKind::Directory, src, dst, true) == EntryAction::Skip,
{
}

} // verus!
