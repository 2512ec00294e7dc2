use gh_docs_download::downloader::{
    is_documentation_name, CheckoutAction, CheckoutEvent, CheckoutStep, DownloadConfig,
    GitHubDocsDownloader,
};
use gh_docs_download::error::GitHubDocsError;
use gh_docs_download::summary::{file_summary_text, summarize_files};
use gh_docs_download::types::{DocsDirectory, DocumentationFile, RepoName, RepoOwner, RepoSpec};

fn downloader(list_only: bool) -> GitHubDocsDownloader {
    let repo = RepoSpec::new(RepoOwner::new("rust-lang").unwrap(), RepoName::new("rust").unwrap());
    let config = DownloadConfig {
        output_dir: "docs-out".to_string(),
        list_only,
        recursive: true,
        target_path: "src/doc".to_string(),
        branch: None,
    };
    GitHubDocsDownloader::new(repo, config)
}

fn downloader_on(branch: &str) -> GitHubDocsDownloader {
    let repo = RepoSpec::new(RepoOwner::new("rust-lang").unwrap(), RepoName::new("rust").unwrap());
    let config = DownloadConfig {
        output_dir: "docs-out".to_string(),
        list_only: false,
        recursive: true,
        target_path: "src/doc".to_string(),
        branch: Some(branch.to_string()),
    };
    GitHubDocsDownloader::new(repo, config)
}

#[test]
fn default_config() {
    let c = DownloadConfig::default();
    assert_eq!(c.output_dir, "downloads");
    assert!(!c.list_only);
    assert!(c.recursive);
    assert_eq!(c.target_path, "docs");
    assert_eq!(c.branch, None);
    let copy = c.clone();
    assert_eq!(copy.output_dir, "downloads");
    assert_eq!(copy.branch, None);
    let on = DownloadConfig { branch: Some("v1.0".to_string()), ..DownloadConfig::default() };
    assert_eq!(on.clone().branch, Some("v1.0".to_string()));
}

#[test]
fn documentation_file_detection() {
    for name in [
        "README", "README.md", "readme_first", "README-IMPORTANT", "guide.MDX", "notes.txt",
        "book.pdf", "index.HTML", "a.htm", "x.xml", "Changelog", "LICENSE", "CONTRIBUTORS.txt",
        "api", "docs-intro", "paper.tex", "x.adoc", "y.asciidoc", "z.org", "w.rst", "v.markdown",
    ] {
        assert!(GitHubDocsDownloader::is_documentation_file(name), "{}", name);
    }
    for name in ["main.rs", "readmeish", "Cargo.toml", "image.png", "apis", "md", "x.md.bak", ""] {
        assert!(!GitHubDocsDownloader::is_documentation_file(name), "{}", name);
    }
    for s in ["notes", "ÄÖ", "", "x.y"] {
        for ext in [".md", ".MD", ".PDF", ".Txt", ".HtMl"] {
            let name = format!("{}{}", s, ext);
            assert!(GitHubDocsDownloader::is_documentation_file(&name), "{}", name);
        }
        for n in ["README", "Changelog", "faq", "DOCUMENTATION"] {
            for sep in [".", "_", "-"] {
                let name = format!("{}{}{}", n, sep, s);
                assert!(GitHubDocsDownloader::is_documentation_file(&name), "{}", name);
            }
        }
    }
    assert!(is_documentation_name("faq.x"));
    assert!(!is_documentation_name("FAQ.x"));
}

#[test]
fn find_docs_directories_is_target() {
    let d = downloader(false);
    let dirs = d.find_docs_directories().unwrap();
    assert_eq!(dirs.len(), 1);
    assert_eq!(dirs[0].as_str(), "src/doc");
    assert_eq!(d.repo().full_name(), "rust-lang/rust");
    assert_eq!(d.clone_url(), "https://github.com/rust-lang/rust.git");
}

fn git_args(a: &CheckoutAction) -> (Vec<String>, bool) {
    match a {
        CheckoutAction::RunGit { args, in_clone } => (args.clone(), *in_clone),
        other => panic!("unexpected {:?}", other),
    }
}

#[test]
fn checkout_steps_in_order() {
    let d = downloader(false);
    let dir = DocsDirectory::new("src/doc".to_string());
    let (s, a) = d.checkout_step(&dir, CheckoutStep::Start, CheckoutEvent::Begin).unwrap();
    assert_eq!(s, CheckoutStep::Cloning);
    assert_eq!(
        git_args(&a),
        (
            vec![
                "clone".to_string(),
                "--no-checkout".to_string(),
                "--depth".to_string(),
                "1".to_string(),
                "https://github.com/rust-lang/rust.git".to_string()
            ],
            false
        )
    );
    let ok = || CheckoutEvent::GitFinished { success: true, stderr: String::new() };
    let (s, a) = d.checkout_step(&dir, s, ok()).unwrap();
    assert_eq!(s, CheckoutStep::EnablingSparse);
    assert_eq!(
        git_args(&a),
        (vec!["config".to_string(), "core.sparseCheckout".to_string(), "true".to_string()], true)
    );
    let (s, a) = d.checkout_step(&dir, s, ok()).unwrap();
    assert_eq!(s, CheckoutStep::WritingPaths);
    match a {
        CheckoutAction::WriteSparsePaths { contents } => assert_eq!(contents, "src/doc/*\n"),
        other => panic!("unexpected {:?}", other),
    }
    let (s, a) = d.checkout_step(&dir, s, CheckoutEvent::PathsWritten).unwrap();
    assert_eq!(s, CheckoutStep::CheckingOut);
    assert_eq!(git_args(&a), (vec!["checkout".to_string()], true));
    let (s, a) = d.checkout_step(&dir, s, ok()).unwrap();
    assert_eq!(s, CheckoutStep::Done);
    match a {
        CheckoutAction::ScanDirectory { path } => assert_eq!(path, "src/doc"),
        other => panic!("unexpected {:?}", other),
    }
}

#[test]
fn checkout_failures_name_the_command() {
    let d = downloader(false);
    let dir = DocsDirectory::new("docs".to_string());
    let fail = || CheckoutEvent::GitFinished { success: false, stderr: "boom".to_string() };
    for (step, command) in [
        (CheckoutStep::Cloning, "git clone --no-checkout --depth 1 https://github.com/rust-lang/rust.git"),
        (CheckoutStep::EnablingSparse, "git config core.sparseCheckout true"),
        (CheckoutStep::CheckingOut, "git checkout"),
    ] {
        match d.checkout_step(&dir, step, fail()) {
            Err(GitHubDocsError::GitOperationFailed { command: c, stderr }) => {
                assert_eq!(c, command);
                assert_eq!(stderr, "boom");
            }
            other => panic!("unexpected {:?}", other),
        }
    }
}

#[test]
fn checkout_honours_the_branch() {
    let d = downloader_on("feature-branch");
    let dir = DocsDirectory::new("docs".to_string());
    let (s, a) = d.checkout_step(&dir, CheckoutStep::Start, CheckoutEvent::Begin).unwrap();
    assert_eq!(s, CheckoutStep::Cloning);
    assert_eq!(
        git_args(&a),
        (
            vec![
                "clone".to_string(),
                "--no-checkout".to_string(),
                "--depth".to_string(),
                "1".to_string(),
                "--branch".to_string(),
                "feature-branch".to_string(),
                "https://github.com/rust-lang/rust.git".to_string()
            ],
            false
        )
    );
    let fail = CheckoutEvent::GitFinished { success: false, stderr: "not found".to_string() };
    match d.checkout_step(&dir, CheckoutStep::Cloning, fail) {
        Err(GitHubDocsError::GitOperationFailed { command, stderr }) => {
            assert_eq!(
                command,
                "git clone --no-checkout --depth 1 --branch feature-branch https://github.com/rust-lang/rust.git"
            );
            assert_eq!(stderr, "not found");
        }
        other => panic!("unexpected {:?}", other),
    }
}

#[test]
fn scanning_decides_per_file() {
    let d = downloader(false);
    let dir = DocsDirectory::new("docs".to_string());
    assert!(d.scan_entry(&dir, "src/main.rs", "main.rs", Ok(3)).unwrap().is_none());
    let missing = || Err(GitHubDocsError::download_failed("x".to_string(), "gone".to_string()));
    assert!(d.scan_entry(&dir, "image.png", "image.png", missing()).unwrap().is_none());
    match d.scan_entry(&dir, "guide/README.md", "README.md", missing()) {
        Err(GitHubDocsError::DownloadFailed { path, reason }) => {
            assert_eq!((path.as_str(), reason.as_str()), ("x", "gone"))
        }
        other => panic!("unexpected {:?}", other),
    }
    let (f, target) = d.scan_entry(&dir, "guide/README.md", "README.md", Ok(12)).unwrap().unwrap();
    assert_eq!(f.name.as_str(), "README.md");
    assert_eq!(f.path.as_path(), "docs/guide/README.md");
    assert_eq!(f.size.bytes(), 12);
    assert_eq!(f.docs_directory.as_str(), "docs");
    assert_eq!(target, Some("docs-out/docs/guide/README.md".to_string()));
    let (g, none) = downloader(true).scan_entry(&dir, "CHANGELOG", "CHANGELOG", Ok(1)).unwrap().unwrap();
    assert_eq!(g.path.as_path(), "docs/CHANGELOG");
    assert_eq!(none, None);
}

fn file(name: &str, dir: &str, size: u64, d: &GitHubDocsDownloader) -> DocumentationFile {
    d.documentation_entry(&DocsDirectory::new(dir.to_string()), name, name, size).unwrap()
}

#[test]
fn entries_and_copy_destination() {
    let d = downloader(false);
    let dir = DocsDirectory::new("docs".to_string());
    let f = d.documentation_entry(&dir, "guide/README.md", "README.md", 12).unwrap();
    assert_eq!(f.name.as_str(), "README.md");
    assert_eq!(f.path.as_path(), "docs/guide/README.md");
    assert_eq!(f.download_url.as_str(), "file://downloaded/");
    assert_eq!(f.size.bytes(), 12);
    assert_eq!(f.docs_directory.as_str(), "docs");
    let top = DocsDirectory::new(String::new());
    assert_eq!(d.documentation_entry(&top, "a.md", "a.md", 1).unwrap().path.as_path(), "a.md");
    let slash = DocsDirectory::new("docs/".to_string());
    assert_eq!(d.documentation_entry(&slash, "a.md", "a.md", 1).unwrap().path.as_path(), "docs/a.md");
    assert_eq!(
        d.copy_target(&dir, "guide/README.md"),
        Some("docs-out/docs/guide/README.md".to_string())
    );
    assert_eq!(downloader(true).copy_target(&dir, "a.md"), None);
    assert_eq!(d.scan_depth_limit(), None);
    let flat = GitHubDocsDownloader::new(
        RepoSpec::new(RepoOwner::new("o").unwrap(), RepoName::new("r").unwrap()),
        DownloadConfig {
            output_dir: "x".to_string(),
            list_only: false,
            recursive: false,
            target_path: "docs".to_string(),
            branch: None,
        },
    );
    assert_eq!(flat.scan_depth_limit(), Some(1));
}

#[test]
fn summary_groups_by_directory() {
    let d = downloader(true);
    let files = vec![
        file("a.md", "docs", 10, &d),
        file("b.md", "guide", 5, &d),
        file("c.md", "docs", 7, &d),
    ];
    let s = summarize_files(&files);
    assert_eq!(s.total_files, 3);
    assert_eq!(s.total_bytes, 22);
    assert_eq!(s.by_directory.len(), 2);
    assert_eq!(s.by_directory[0].directory, "docs");
    assert_eq!(s.by_directory[0].files, 2);
    assert_eq!(s.by_directory[0].bytes, 17);
    assert_eq!(s.by_directory[1].directory, "guide");
    assert_eq!(s.by_directory[1].files, 1);
    assert_eq!(s.by_directory[1].bytes, 5);
    let group_files: usize = s.by_directory.iter().map(|g| g.files).sum();
    let group_bytes: u64 = s.by_directory.iter().map(|g| g.bytes).sum();
    assert_eq!(group_files, s.total_files);
    assert_eq!(group_bytes, s.total_bytes);
    assert_eq!(
        file_summary_text(&files),
        "\nTotal documentation files found: 3\nTotal size: 22 bytes\n\nFiles by directory:\n  docs: 2 files (17 bytes)\n  guide: 1 files (5 bytes)\n"
    );
    assert_eq!(d.download_files(&files), file_summary_text(&files));
    let loud = downloader(false);
    assert_eq!(
        loud.download_files(&files),
        format!("\nDownload complete!\n  Downloaded 3 files to docs-out\n{}", file_summary_text(&files))
    );
}

#[test]
fn empty_summary() {
    let files: Vec<DocumentationFile> = Vec::new();
    assert_eq!(
        file_summary_text(&files),
        "\nTotal documentation files found: 0\nTotal size: 0 bytes\n\nFiles by directory:\n"
    );
}

#[test]
fn error_constructors() {
    match GitHubDocsError::no_documentation_found("o".to_string(), "r".to_string()) {
        GitHubDocsError::NoDocumentationFound { owner, repo } => {
            assert_eq!((owner.as_str(), repo.as_str()), ("o", "r"))
        }
        other => panic!("unexpected {:?}", other),
    }
    match GitHubDocsError::repository_not_found("o".to_string(), "r".to_string()) {
        GitHubDocsError::RepositoryNotFound { owner, repo } => {
            assert_eq!((owner.as_str(), repo.as_str()), ("o", "r"))
        }
        other => panic!("unexpected {:?}", other),
    }
    match GitHubDocsError::download_failed("p".to_string(), "why".to_string()) {
        GitHubDocsError::DownloadFailed { path, reason } => {
            assert_eq!((path.as_str(), reason.as_str()), ("p", "why"))
        }
        other => panic!("unexpected {:?}", other),
    }
    match GitHubDocsError::git_operation_failed("git x".to_string(), "e".to_string()) {
        GitHubDocsError::GitOperationFailed { command, stderr } => {
            assert_eq!((command.as_str(), stderr.as_str()), ("git x", "e"))
        }
        other => panic!("unexpected {:?}", other),
    }
}
