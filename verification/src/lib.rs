//! Sandboxed filesystem path layer: path normalization, two permitted root
//! directories, a whitelist decision over them, and `Directory`/`File` value
//! types whose queries and gated operations are specified and verified.

pub mod construct;
pub mod directory;
pub mod errors;
pub mod file;
pub mod has_parent;
pub mod has_path;
pub mod has_relative_path;
pub mod has_root;
pub mod path_filter;
pub mod roots;
pub mod fsops;
pub mod paths;

pub use directory::Directory;
pub use errors::FsError;
pub use file::File;
pub use has_parent::HasParent;
pub use has_path::HasPath;
pub use has_relative_path::HasRelativePath;
pub use has_root::HasRoot;
pub use path_filter::PathFilter;
pub use roots::{RootResolver, Roots, UserProfile};
