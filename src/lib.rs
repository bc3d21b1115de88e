//! Building sysroots: filtered tree copies and symlink relativization.

pub mod text;
pub mod paths;
pub mod filter;
pub mod policy;
pub mod copier;
pub mod relative;
pub mod sysroot;

pub use copier::{CopyBuilder, EntryAction, EntryKind};
pub use policy::{EntryMeta, is_file_newer, is_filesize_different};
pub use relative::{RelativizeError, relative_target};
pub use sysroot::{ConfigError, DestinationError, PreviewMark, build_copier, check_destination, preview_mark, rooted_path};
