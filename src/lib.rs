//! Finding which packages own a file, over per-repository indexes of package
//! file lists.
//!
//! - `package_file`: Index Lines `name-version-release/path` and their decoding.
//! - `manifest`: package manifests from a repository archive's entry events.
//! - `builder`: Index Lines of manifests, and the decisions of an index build.
//! - `query`: user queries as matcher patterns; grouping of the matcher's results.
//! - `list`: listing the files of named packages.
//! - `installed`: versions of the locally installed packages.
//! - `render`: the text of output lines.
//! - `matcher`: command lines, exit codes and file names of the outside tools.
//! - `text`: character-level helpers.

pub mod text;
pub mod package_file;
pub mod installed;
pub mod query;
pub mod manifest;
pub mod builder;
pub mod render;
pub mod list;
pub mod matcher;
