//! Errors of the documentation downloader.

use vstd::prelude::*;

verus! {

/// `url::ParseError`, the reason a URL could not be parsed; carried as is.
#[verifier::external_type_specification]
#[verifier::external_body]
pub struct ExUrlParseError(url::ParseError);

/// `std::io::Error`, a failed file-system operation; carried as is.
#[verifier::external_type_specification]
#[verifier::external_body]
pub struct ExIoError(std::io::Error);

/// `std::path::StripPrefixError`, a failed path manipulation; carried as is.
#[verifier::external_type_specification]
#[verifier::external_body]
pub struct ExStripPrefixError(std::path::StripPrefixError);

/// `walkdir::Error`, a failed directory traversal; carried as is.
#[verifier::external_type_specification]
#[verifier::external_body]
pub struct ExWalkDirError(walkdir::Error);

/// Every way an operation of the downloader can fail.
#[derive(Debug)]
pub enum GitHubDocsError {
    /// The repository was given in a form that is not accepted; `input`
    /// says what was given or what was expected.
    InvalidRepoFormat { input: String },
    /// The repository does not exist or cannot be read.
    RepositoryNotFound { owner: String, repo: String },
    /// No documentation directory was found in the repository.
    NoDocumentationFound { owner: String, repo: String },
    /// A file could not be downloaded.
    DownloadFailed { path: String, reason: String },
    /// A git command failed; `stderr` is what it wrote to standard error.
    GitOperationFailed { command: String, stderr: String },
    /// A URL was not acceptable.
    InvalidUrl { url: String },
    /// A file-system operation failed.
    FileSystemError(std::io::Error),
    /// A URL could not be parsed.
    UrlParseError(url::ParseError),
    /// A path could not be made relative.
    PathError(std::path::StripPrefixError),
    /// Walking a directory tree failed.
    WalkDirError(walkdir::Error),
    /// The repository owner is not a valid owner name.
    RepoOwnerValidationError(RepoOwnerError),
    /// The repository name is not a valid repository name.
    RepoNameValidationError(RepoNameError),
}

impl GitHubDocsError {
    /// The error for a repository that does not exist or cannot be read.
    pub fn repository_not_found(owner: String, repo: String) -> (e: Self)
        ensures
            e matches GitHubDocsError::RepositoryNotFound { owner: o, repo: r } && o == owner && r
                == repo,
    {
        GitHubDocsError::RepositoryNotFound { owner, repo }
    }

    /// The error for a repository in which no documentation was found.
    pub fn no_documentation_found(owner: String, repo: String) -> (e: Self)
        ensures
            e matches GitHubDocsError::NoDocumentationFound { owner: o, repo: r } && o == owner && r
                == repo,
    {
        GitHubDocsError::NoDocumentationFound { owner, repo }
    }

    /// The error for a file that could not be downloaded.
    pub fn download_failed(path: String, reason: String) -> (e: Self)
        ensures
            e matches GitHubDocsError::DownloadFailed { path: p, reason: r } && p == path && r
                == reason,
    {
        GitHubDocsError::DownloadFailed { path, reason }
    }

    /// The error for a git command that failed.
    pub fn git_operation_failed(command: String, stderr: String) -> (e: Self)
        ensures
            e matches GitHubDocsError::GitOperationFailed { command: c, stderr: s } && c == command
                && s == stderr,
    {
        GitHubDocsError::GitOperationFailed { command, stderr }
    }
}

impl From<std::io::Error> for GitHubDocsError {
    fn from(e: std::io::Error) -> (r: Self)
        ensures
            r == GitHubDocsError::FileSystemError(e),
    {
        GitHubDocsError::FileSystemError(e)
    }
}

impl vstd::std_specs::convert::FromSpecImpl<std::io::Error> for GitHubDocsError {
    open spec fn obeys_from_spec() -> bool {
        true
    }

    open spec fn from_spec(e: std::io::Error) -> Self {
        GitHubDocsError::FileSystemError(e)
    }
}

impl From<url::ParseError> for GitHubDocsError {
    fn from(e: url::ParseError) -> (r: Self)
        ensures
            r == GitHubDocsError::UrlParseError(e),
    {
        GitHubDocsError::UrlParseError(e)
    }
}

impl vstd::std_specs::convert::FromSpecImpl<url::ParseError> for GitHubDocsError {
    open spec fn obeys_from_spec() -> bool {
        true
    }

    open spec fn from_spec(e: url::ParseError) -> Self {
        GitHubDocsError::UrlParseError(e)
    }
}

impl From<std::path::StripPrefixError> for GitHubDocsError {
    fn from(e: std::path::StripPrefixError) -> (r: Self)
        ensures
            r == GitHubDocsError::PathError(e),
    {
        GitHubDocsError::PathError(e)
    }
}

impl vstd::std_specs::convert::FromSpecImpl<std::path::StripPrefixError> for GitHubDocsError {
    open spec fn obeys_from_spec() -> bool {
        true
    }

    open spec fn from_spec(e: std::path::StripPrefixError) -> Self {
        GitHubDocsError::PathError(e)
    }
}

impl From<walkdir::Error> for GitHubDocsError {
    fn from(e: walkdir::Error) -> (r: Self)
        ensures
            r == GitHubDocsError::WalkDirError(e),
    {
        GitHubDocsError::WalkDirError(e)
    }
}

impl vstd::std_specs::convert::FromSpecImpl<walkdir::Error> for GitHubDocsError {
    open spec fn obeys_from_spec() -> bool {
        true
    }

    open spec fn from_spec(e: walkdir::Error) -> Self {
        GitHubDocsError::WalkDirError(e)
    }
}

impl From<RepoOwnerError> for GitHubDocsError {
    fn from(e: RepoOwnerError) -> (r: Self)
        ensures
            r == GitHubDocsError::RepoOwnerValidationError(e),
    {
        GitHubDocsError::RepoOwnerValidationError(e)
    }
}

impl vstd::std_specs::convert::FromSpecImpl<RepoOwnerError> for GitHubDocsError {
    open spec fn obeys_from_spec() -> bool {
        true
    }

    open spec fn from_spec(e: RepoOwnerError) -> Self {
        GitHubDocsError::RepoOwnerValidationError(e)
    }
}

impl From<RepoNameError> for GitHubDocsError {
    fn from(e: RepoNameError) -> (r: Self)
        ensures
            r == GitHubDocsError::RepoNameValidationError(e),
    {
        GitHubDocsError::RepoNameValidationError(e)
    }
}

impl vstd::std_specs::convert::FromSpecImpl<RepoNameError> for GitHubDocsError {
    open spec fn obeys_from_spec() -> bool {
        true
    }

    open spec fn from_spec(e: RepoNameError) -> Self {
        GitHubDocsError::RepoNameValidationError(e)
    }
}

/// The result of an operation of the downloader.
pub type Result<T> = core::result::Result<T, GitHubDocsError>;

/// Why a text is not a valid repository owner.
#[derive(Debug)]
pub enum RepoOwnerError {
    /// The owner is empty.
    Empty,
    /// The owner holds a character other than a letter, a digit or `-`.
    InvalidCharacters { owner: String },
    /// The owner is longer than 39 bytes; `len` is its length in bytes.
    TooLong { len: usize },
}

/// Why a text is not a valid repository name.
#[derive(Debug)]
pub enum RepoNameError {
    /// The name is empty.
    Empty,
    /// The name holds a character other than a letter, a digit, `-`, `_` or `.`.
    InvalidCharacters { name: String },
    /// The name is longer than 100 bytes; `len` is its length in bytes.
    TooLong { len: usize },
}

} // verus!
