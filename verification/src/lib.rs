//! Detection of package ecosystems in a directory tree and grouping of the
//! files found into update targets.
//!
//! A scan takes the paths that a walk of the tree came upon, classifies each
//! by its file name (`classify`), and groups the files that signal an
//! ecosystem by ecosystem and directory (`targets`). The patterns are
//! matched by the `globset` crate (`glob`, `registry`).

pub mod classify;
pub mod ecosystem;
pub mod glob;
pub mod path;
pub mod registry;
pub mod report;
pub mod targets;
pub mod targets_lemmas;
pub mod text;

pub use crate::classify::{classify, default_ignored_dirs, find_ecosystem, is_ignored, Hit};
pub use crate::ecosystem::Ecosystem;
pub use crate::glob::{patterns_to_globset, PatternError};
pub use crate::registry::{all_ecosystems, patterns_for, Registry, RegistryError};
pub use crate::report::{found_managers, found_values};
pub use crate::targets::{find_targets, FoundTarget};
