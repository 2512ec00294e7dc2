use gh_docs_download::cli::{Args, CliApp};
use gh_docs_download::downloader::{CheckoutAction, CheckoutEvent, CheckoutStep};
use gh_docs_download::error::GitHubDocsError;

fn args_for(repo: &str) -> Args {
    Args {
        repo: repo.to_string(),
        output: "test".to_string(),
        list_only: false,
        recursive: true,
    }
}

#[test]
fn test_parse_repo_spec_tree_url() {
    let args = args_for("https://github.com/rust-lang/rust/tree/main/docs");
    let (repo_spec, path) = args.parse_repo_spec().unwrap();
    assert_eq!(repo_spec.owner.as_str(), "rust-lang");
    assert_eq!(repo_spec.name.as_str(), "rust");
    assert_eq!(path, "docs");
}

#[test]
fn test_parse_repo_spec_tree_url_nested_path() {
    let args = args_for("https://github.com/TanStack/router/tree/main/docs/router/eslint");
    let (repo_spec, path) = args.parse_repo_spec().unwrap();
    assert_eq!(repo_spec.owner.as_str(), "TanStack");
    assert_eq!(repo_spec.name.as_str(), "router");
    assert_eq!(path, "docs/router/eslint");
}

#[test]
fn test_parse_repo_spec_invalid_url() {
    let args = args_for("https://notgithub.com/owner/repo/tree/main/docs");
    assert!(args.parse_repo_spec().is_err());
}

#[test]
fn test_parse_repo_spec_missing_tree_structure() {
    let args = args_for("https://github.com/owner/repo");
    assert!(args.parse_repo_spec().is_err());
}

#[test]
fn test_parse_repo_spec_invalid_format() {
    let args = args_for("invalid-repo-format");
    assert!(args.parse_repo_spec().is_err());
}

fn refused_with(repo: &str) -> String {
    match args_for(repo).parse_repo_spec() {
        Err(GitHubDocsError::InvalidRepoFormat { input }) => input,
        other => panic!("unexpected {:?}", other),
    }
}

#[test]
fn parse_error_kinds() {
    assert_eq!(refused_with("invalid-repo-format"), "invalid-repo-format");
    assert_eq!(refused_with("owner/repo"), "owner/repo");
    assert_eq!(
        refused_with("https://notgithub.com/owner/repo/tree/main/docs"),
        "https://notgithub.com/owner/repo/tree/main/docs"
    );
    assert_eq!(
        refused_with("https://github.com/owner/repo"),
        "Expected GitHub tree URL format: https://github.com/owner/repo/tree/branch/path, got: https://github.com/owner/repo"
    );
    assert_eq!(
        refused_with("https://github.com/owner/repo/docs"),
        "Expected GitHub tree URL format: https://github.com/owner/repo/tree/branch/path, got: https://github.com/owner/repo/docs"
    );
    assert!(refused_with("https://github.com/owner/repo/blob/main/docs").starts_with("Expected GitHub tree URL"));
    assert_eq!(
        refused_with("https://github.com/bad_owner/repo/tree/main/docs"),
        "https://github.com/bad_owner/repo/tree/main/docs"
    );
    assert_eq!(
        refused_with("https://github.com/owner/bad%20name/tree/main/docs"),
        "https://github.com/owner/bad%20name/tree/main/docs"
    );
    match args_for("owner/repo").validate() {
        Err(GitHubDocsError::InvalidRepoFormat { input }) => assert_eq!(input, "owner/repo"),
        other => panic!("unexpected {:?}", other),
    }
}

#[test]
fn tree_url_names_the_branch() {
    let (spec, branch, path) =
        args_for("https://github.com/owner/repo/tree/feature-branch/docs/api").read_tree_url().unwrap();
    assert_eq!(spec.full_name(), "owner/repo");
    assert_eq!(branch, "feature-branch");
    assert_eq!(path, "docs/api");
    for b in ["main", "develop", "v1.0", "feature-new-docs"] {
        let url = format!("https://github.com/owner/repo/tree/{}/docs", b);
        let (_, branch, path) = args_for(&url).read_tree_url().unwrap();
        assert_eq!(branch, b);
        assert_eq!(path, "docs");
        assert_eq!(args_for(&url).parse_repo_spec().unwrap().1, "docs");
    }
}

#[test]
fn tree_url_with_branch_only_gives_empty_path() {
    let (spec, path) = args_for("https://github.com/o/r/tree/main/").parse_repo_spec().unwrap();
    assert_eq!(spec.full_name(), "o/r");
    assert_eq!(path, "");
}

#[test]
fn validate_checks_output() {
    let mut args = args_for("https://github.com/rust-lang/rust/tree/main/src/doc");
    assert!(args.validate().is_ok());
    args.output = String::new();
    match args.validate() {
        Err(GitHubDocsError::InvalidRepoFormat { input }) => {
            assert_eq!(input, "Output directory cannot be empty")
        }
        other => panic!("unexpected {:?}", other),
    }
    let bad = args_for("https://gitlab.com/a/b/tree/main/x");
    assert!(matches!(bad.validate(), Err(GitHubDocsError::InvalidRepoFormat { .. })));
}

#[test]
fn prepare_configures_downloader() {
    let mut args = args_for("https://github.com/TanStack/router/tree/main/docs/router");
    args.list_only = true;
    args.output = "out".to_string();
    let app = CliApp::new(args);
    assert_eq!(app.args().output, "out");
    let (downloader, dirs) = app.prepare().unwrap();
    assert_eq!(downloader.repo().full_name(), "TanStack/router");
    assert_eq!(dirs.len(), 1);
    assert_eq!(dirs[0].as_str(), "docs/router");
    assert_eq!(downloader.copy_target(&dirs[0], "a.md"), None);
    let (_, action) = downloader
        .checkout_step(&dirs[0], CheckoutStep::Start, CheckoutEvent::Begin)
        .unwrap();
    match action {
        CheckoutAction::RunGit { args, in_clone } => {
            assert!(!in_clone);
            assert_eq!(
                args,
                vec![
                    "clone",
                    "--no-checkout",
                    "--depth",
                    "1",
                    "--branch",
                    "main",
                    "https://github.com/TanStack/router.git"
                ]
            );
        }
        other => panic!("unexpected {:?}", other),
    }
}

#[test]
fn prepare_refuses_bad_input() {
    let mut args = args_for("https://github.com/a/b/tree/main/docs");
    args.output = String::new();
    assert!(CliApp::new(args).prepare().is_err());
    assert!(CliApp::new(args_for("nonsense")).prepare().is_err());
}
