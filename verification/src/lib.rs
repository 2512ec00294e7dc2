//! Discovery and selection of documentation files in GitHub repositories.
//!
//! The library validates repository identifiers, reads GitHub tree URLs,
//! decides which files count as documentation, and computes the summaries
//! and reports that the command-line tool prints.

pub mod cli;
pub mod downloader;
pub mod error;
pub mod github;
pub mod order;
pub mod size;
pub mod summary;
pub mod text;
pub mod types;
pub mod weburl;

pub use error::{GitHubDocsError, Result};
pub use types::{
    DocsDirectory, DocumentationFile, DownloadUrl, FileName, FilePath, FileSizeBytes, RepoName,
    RepoOwner, RepoSpec,
};

use vstd::prelude::*;

verus! {

/// The version of this library and of the tool built on it.
pub const VERSION: &'static str = "0.1.0";

} // verus!
