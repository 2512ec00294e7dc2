//! The command line: its arguments, how a GitHub tree URL is read, and what
//! the tool decides before any git work.

use vstd::prelude::*;
use vstd::string::*;
use crate::downloader::{DownloadConfig, GitHubDocsDownloader};
use crate::error::GitHubDocsError;
use crate::text::{join_slash, join_slash_from, text_eq};
use crate::types::{valid_name, valid_owner, DocsDirectory, RepoName, RepoOwner, RepoSpec};
use crate::weburl::{parse_url, url_host, url_parses, url_path_segments};

verus! {

/// The arguments of the command line.
#[derive(Debug)]
pub struct Args {
    /// GitHub tree URL (e.g., "<https://github.com/owner/repo/tree/branch/path>")
    pub repo: String,
    /// Output directory for downloaded files
    pub output: String,
    /// Only list files without downloading
    pub list_only: bool,
    /// Include subdirectories recursively
    pub recursive: bool,
}

/// The message given with a URL that is not of the tree form.
pub open spec fn tree_format_message(input: Seq<char>) -> Seq<char> {
    "Expected GitHub tree URL format: https://github.com/owner/repo/tree/branch/path, got: "@
        + input
}

/// The message given for an empty output directory.
pub open spec fn empty_output_message() -> Seq<char> {
    "Output directory cannot be empty"@
}

/// `e` refuses the repository format, with the text `text`.
pub open spec fn refuses_format(e: GitHubDocsError, text: Seq<char>) -> bool {
    e matches GitHubDocsError::InvalidRepoFormat { input } && input@ == text
}

/// A URL with host `host` and path segments `segs` is a tree URL of a valid
/// repository: host `github.com`, path `owner/repo/tree/branch/...` with at
/// least five segments, a valid owner and a valid repository name.
pub open spec fn tree_url_accepts(host: Option<Seq<char>>, segs: Option<Seq<Seq<char>>>) -> bool {
    &&& host == Some("github.com"@)
    &&& segs is Some
    &&& segs->0.len() >= 5
    &&& segs->0[2] == "tree"@
    &&& valid_owner(segs->0[0])
    &&& valid_name(segs->0[1])
}

/// The error that reading the tree URL `input`, whose parsed host is `host`
/// and whose path segments are `segs`, gives when it is not accepted: a
/// GitHub URL whose path is not of the form `owner/repo/tree/branch/...` is
/// refused with the expected format; any other URL (another host, no path,
/// an invalid owner or repository name) is refused with the URL itself.
pub open spec fn tree_url_error(
    e: GitHubDocsError,
    input: Seq<char>,
    host: Option<Seq<char>>,
    segs: Option<Seq<Seq<char>>>,
) -> bool {
    if host == Some("github.com"@) && segs is Some && (segs->0.len() < 5 || segs->0[2] != "tree"@) {
        refuses_format(e, tree_format_message(input))
    } else {
        refuses_format(e, input)
    }
}

/// What reading the tree URL `input` (parsed host `host`, path segments
/// `segs`) gives: the repository of the first two segments, the branch of
/// the fourth, and the path made of the fifth segment on joined with `/`;
/// or the error that [`tree_url_error`] says.
pub open spec fn tree_url_outcome(
    r: Result<(RepoSpec, String, String), GitHubDocsError>,
    input: Seq<char>,
    host: Option<Seq<char>>,
    segs: Option<Seq<Seq<char>>>,
) -> bool {
    if tree_url_accepts(host, segs) {
        &&& r is Ok
        &&& r->Ok_0.0.owner@ == segs->0[0]
        &&& r->Ok_0.0.name@ == segs->0[1]
        &&& r->Ok_0.1@ == segs->0[3]
        &&& r->Ok_0.2@ == join_slash(segs->0.skip(4))
    } else {
        r matches Err(e) && tree_url_error(e, input, host, segs)
    }
}

/// `repo` parses as a URL and is a tree URL of a valid repository.
pub open spec fn reads_as_tree_url(repo: Seq<char>) -> bool {
    url_parses(repo) && tree_url_accepts(url_host(repo), url_path_segments(repo))
}

/// The path segments of the URL `repo`.
pub open spec fn tree_segments(repo: Seq<char>) -> Seq<Seq<char>> {
    url_path_segments(repo)->0
}

/// The error that reading `repo` as a tree URL gives when it does not read
/// as one: a text that does not parse as a URL is refused with the text
/// itself; else see [`tree_url_error`].
pub open spec fn repo_url_error(e: GitHubDocsError, repo: Seq<char>) -> bool {
    if url_parses(repo) {
        tree_url_error(e, repo, url_host(repo), url_path_segments(repo))
    } else {
        refuses_format(e, repo)
    }
}

/// What reading the tree URL `repo` gives: its repository, branch and path
/// (see [`tree_url_outcome`]), or the error that [`repo_url_error`] says.
pub open spec fn read_outcome(repo: Seq<char>, r: Result<(RepoSpec, String, String), GitHubDocsError>) -> bool {
    if reads_as_tree_url(repo) {
        let segs = tree_segments(repo);
        &&& r is Ok
        &&& r->Ok_0.0.owner@ == segs[0]
        &&& r->Ok_0.0.name@ == segs[1]
        &&& r->Ok_0.1@ == segs[3]
        &&& r->Ok_0.2@ == join_slash(segs.skip(4))
    } else {
        r matches Err(e) && repo_url_error(e, repo)
    }
}

/// What parsing the tree URL `repo` into a repository and a path gives: as
/// [`read_outcome`], without the branch.
pub open spec fn parse_outcome(repo: Seq<char>, r: Result<(RepoSpec, String), GitHubDocsError>) -> bool {
    if reads_as_tree_url(repo) {
        let segs = tree_segments(repo);
        &&& r is Ok
        &&& r->Ok_0.0.owner@ == segs[0]
        &&& r->Ok_0.0.name@ == segs[1]
        &&& r->Ok_0.1@ == join_slash(segs.skip(4))
    } else {
        r matches Err(e) && repo_url_error(e, repo)
    }
}

/// What validating arguments with repository URL `repo` and output
/// directory `output` gives: the error of reading the URL if there is one,
/// else an error if `output` is empty, else success.
pub open spec fn validate_outcome(repo: Seq<char>, output: Seq<char>, r: Result<(), GitHubDocsError>) -> bool {
    if !reads_as_tree_url(repo) {
        r matches Err(e) && repo_url_error(e, repo)
    } else if output.len() == 0 {
        r matches Err(e) && refuses_format(e, empty_output_message())
    } else {
        r is Ok
    }
}

/// Validation agrees with reading the tree URL: arguments are valid exactly
/// when their URL reads as a tree URL and their output directory is not
/// empty, and when the URL does not read, both refuse the repository format
/// with the same text.
pub proof fn lemma_validate_agrees_with_parse(
    repo: Seq<char>,
    output: Seq<char>,
    parsed: Result<(RepoSpec, String), GitHubDocsError>,
    validated: Result<(), GitHubDocsError>,
)
    requires
        parse_outcome(repo, parsed),
        validate_outcome(repo, output, validated),
    ensures
        validated is Ok <==> (parsed is Ok && output.len() > 0),
        parsed matches Err(e1) ==> (validated matches Err(e2) && e1 is InvalidRepoFormat
            && e2 is InvalidRepoFormat && e1->input@ == e2->input@),
{
}

/// Read a tree URL from its parsed parts: `input` is the URL as given,
/// `host` its host and `segments` its path segments. Gives the repository,
/// the branch and the documentation path.
pub fn tree_url_from_parts(input: &str, host: Option<String>, segments: Option<Vec<String>>) -> (r:
    Result<(RepoSpec, String, String), GitHubDocsError>)
    ensures
        tree_url_outcome(r, input@, host.deep_view(), segments.deep_view()),
{
    let host_ok = match &host {
        Some(h) => text_eq(h.as_str(), "github.com"),
        None => false,
    };
    if !host_ok {
        return Err(GitHubDocsError::InvalidRepoFormat { input: input.to_owned() });
    }
    let segs = match segments {
        Some(s) => s,
        None => {
            return Err(GitHubDocsError::InvalidRepoFormat { input: input.to_owned() });
        },
    };
    let not_tree = if segs.len() < 5 {
        true
    } else {
        assert(segs.deep_view()[2] == segs[2]@);
        !text_eq(segs[2].as_str(), "tree")
    };
    if not_tree {
        let mut msg = String::from_str(
            "Expected GitHub tree URL format: https://github.com/owner/repo/tree/branch/path, got: ",
        );
        msg.append(input);
        return Err(GitHubDocsError::InvalidRepoFormat { input: msg });
    }
    assert(segs.deep_view()[0] == segs[0]@);
    assert(segs.deep_view()[1] == segs[1]@);
    assert(segs.deep_view()[3] == segs[3]@);
    let owner = match RepoOwner::new(segs[0].as_str()) {
        Ok(o) => o,
        Err(_) => {
            return Err(GitHubDocsError::InvalidRepoFormat { input: input.to_owned() });
        },
    };
    let name = match RepoName::new(segs[1].as_str()) {
        Ok(n) => n,
        Err(_) => {
            return Err(GitHubDocsError::InvalidRepoFormat { input: input.to_owned() });
        },
    };
    let repo_spec = RepoSpec::new(owner, name);
    let branch = segs[3].clone();
    let doc_path = join_slash_from(&segs, 4);
    Ok((repo_spec, branch, doc_path))
}

impl Args {
    /// Read the GitHub tree URL into the repository, the branch (or tag)
    /// and the documentation path.
    ///
    /// The URL must parse; then its host must be `github.com` and its path
    /// `owner/repo/tree/branch/path...` with a valid owner and repository
    /// name; the path returned is made of the segments after the branch
    /// joined with `/`. Any other text is refused as an invalid repository
    /// format.
    pub fn read_tree_url(&self) -> (r: Result<(RepoSpec, String, String), GitHubDocsError>)
        ensures
            read_outcome(self.repo@, r),
    {
        match parse_url(self.repo.as_str()) {
            Ok(p) => tree_url_from_parts(self.repo.as_str(), p.host, p.path_segments),
            Err(_) => Err(GitHubDocsError::InvalidRepoFormat { input: self.repo.clone() }),
        }
    }

    /// Parse a GitHub tree URL into the repository and the documentation path.
    ///
    /// Expected format: `https://github.com/owner/repo/tree/branch/path`; any
    /// text that is not a valid GitHub tree URL is refused as an invalid
    /// repository format (see [`parse_outcome`]).
    pub fn parse_repo_spec(&self) -> (r: Result<(RepoSpec, String), GitHubDocsError>)
        ensures
            parse_outcome(self.repo@, r),
    {
        match self.read_tree_url() {
            Ok((repo_spec, _branch, doc_path)) => Ok((repo_spec, doc_path)),
            Err(e) => Err(e),
        }
    }

    /// Validate the arguments: the repository URL must read as a tree URL
    /// and the output directory must not be empty.
    pub fn validate(&self) -> (r: Result<(), GitHubDocsError>)
        ensures
            validate_outcome(self.repo@, self.output@, r),
    {
        match self.parse_repo_spec() {
            Ok(_) => {},
            Err(e) => {
                return Err(e);
            },
        }
        if self.output.as_str().is_empty() {
            return Err(
                GitHubDocsError::InvalidRepoFormat {
                    input: String::from_str("Output directory cannot be empty"),
                },
            );
        }
        Ok(())
    }
}

/// CLI application runner.
pub struct CliApp {
    args: Args,
}

impl CliApp {
    /// The arguments this application runs with.
    pub closed spec fn spec_args(&self) -> Args {
        self.args
    }

    /// Create a new CLI application with the given arguments.
    pub fn new(args: Args) -> (r: Self)
        ensures
            r.spec_args() == args,
    {
        CliApp { args }
    }

    /// The arguments.
    pub fn args(&self) -> (r: &Args)
        ensures
            *r == self.spec_args(),
    {
        &self.args
    }

    /// What running the application decides before any git work: validate
    /// the arguments, read the tree URL, configure the downloader from the
    /// arguments, the branch and the path, and find the directories to scan.
    pub fn prepare(&self) -> (r: Result<(GitHubDocsDownloader, Vec<DocsDirectory>), GitHubDocsError>)
        ensures
            !reads_as_tree_url(self.spec_args().repo@) ==> (r matches Err(e) && repo_url_error(
                e,
                self.spec_args().repo@,
            )),
            reads_as_tree_url(self.spec_args().repo@) && self.spec_args().output@.len() == 0 ==> (
            r matches Err(e) && refuses_format(e, empty_output_message())),
            ({
                let a = self.spec_args();
                let segs = tree_segments(a.repo@);
                reads_as_tree_url(a.repo@) && a.output@.len() > 0 ==> {
                    &&& r is Ok
                    &&& r->Ok_0.0.spec_repo().owner@ == segs[0]
                    &&& r->Ok_0.0.spec_repo().name@ == segs[1]
                    &&& r->Ok_0.0.spec_config().output_dir@ == a.output@
                    &&& r->Ok_0.0.spec_config().list_only == a.list_only
                    &&& r->Ok_0.0.spec_config().recursive == a.recursive
                    &&& r->Ok_0.0.spec_config().target_path@ == join_slash(segs.skip(4))
                    &&& r->Ok_0.0.spec_config().branch.deep_view() == Some(segs[3])
                    &&& r->Ok_0.1@.len() == 1
                    &&& r->Ok_0.1@[0]@ == join_slash(segs.skip(4))
                }
            }),
    {
        match self.args.validate() {
            Ok(()) => {},
            Err(e) => {
                return Err(e);
            },
        }
        let (repo_spec, branch, doc_path) = match self.args.read_tree_url() {
            Ok(p) => p,
            Err(e) => {
                return Err(e);
            },
        };
        let config = DownloadConfig {
            output_dir: self.args.output.clone(),
            list_only: self.args.list_only,
            recursive: self.args.recursive,
            target_path: doc_path,
            branch: Some(branch),
        };
        let downloader = GitHubDocsDownloader::new(repo_spec, config);
        let docs_dirs = match downloader.find_docs_directories() {
            Ok(d) => d,
            Err(e) => {
                return Err(e);
            },
        };
        if docs_dirs.len() == 0 {
            let owner = String::from_str(downloader.repo().owner.as_str());
            let name = String::from_str(downloader.repo().name.as_str());
            return Err(GitHubDocsError::no_documentation_found(owner, name));
        }
        Ok((downloader, docs_dirs))
    }
}

} // verus!
