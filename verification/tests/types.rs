use gh_docs_download::error::{RepoNameError, RepoOwnerError};
use gh_docs_download::types::{
    DocsDirectory, DownloadUrl, FileName, FilePath, FileSizeBytes, RepoName, RepoOwner, RepoSpec,
};

#[test]
fn owner_validation() {
    assert_eq!(RepoOwner::new("rust-lang").unwrap().as_str(), "rust-lang");
    assert!(matches!(RepoOwner::new(""), Err(RepoOwnerError::Empty)));
    let long = "a".repeat(40);
    assert!(matches!(RepoOwner::new(&long), Err(RepoOwnerError::TooLong { len: 40 })));
    assert!(RepoOwner::new(&"a".repeat(39)).is_ok());
    assert!(matches!(RepoOwner::new("a.b"), Err(RepoOwnerError::InvalidCharacters { .. })));
    // Unicode letters are letters; the limit counts bytes.
    assert!(RepoOwner::new("café").is_ok());
    assert!(matches!(RepoOwner::new(&"é".repeat(20)), Err(RepoOwnerError::TooLong { len: 40 })));
    assert_eq!(RepoOwner::new("x-1").unwrap().into_string(), "x-1");
}

#[test]
fn name_validation() {
    assert_eq!(RepoName::new("my_repo.rs-2").unwrap().as_str(), "my_repo.rs-2");
    assert!(matches!(RepoName::new(""), Err(RepoNameError::Empty)));
    assert!(RepoName::new(&"n".repeat(100)).is_ok());
    assert!(matches!(RepoName::new(&"n".repeat(101)), Err(RepoNameError::TooLong { len: 101 })));
    match RepoName::new("a/b") {
        Err(RepoNameError::InvalidCharacters { name }) => assert_eq!(name, "a/b"),
        other => panic!("unexpected {:?}", other),
    }
    assert_eq!(RepoName::new("r").unwrap().into_string(), "r");
}

#[test]
fn repo_spec_full_name() {
    let spec = RepoSpec::new(RepoOwner::new("rust-lang").unwrap(), RepoName::new("rust").unwrap());
    assert_eq!(spec.full_name(), "rust-lang/rust");
    let copy = spec.clone();
    assert_eq!(copy.owner.as_str(), "rust-lang");
    for (o, n) in [("rust-lang", "rust"), ("TanStack", "router.js"), ("a-b", "c_d.e")] {
        let full = RepoSpec::new(RepoOwner::new(o).unwrap(), RepoName::new(n).unwrap()).full_name();
        assert_eq!(full.matches('/').count(), 1);
        assert_eq!(full.split('/').collect::<Vec<_>>(), vec![o, n]);
    }
    assert!(RepoOwner::new("a/b").is_err());
    assert!(RepoName::new("a/b").is_err());
}

#[test]
fn plain_wrappers() {
    assert_eq!(FileName::new("README.md".to_string()).as_str(), "README.md");
    assert_eq!(FileName::new("a".to_string()).into_string(), "a");
    let p = FilePath::new("docs/a.md".to_string());
    assert_eq!(p.as_path(), "docs/a.md");
    assert_eq!(p.as_string_lossy(), "docs/a.md");
    assert_eq!(p.into_path_buf(), "docs/a.md");
    let d = DocsDirectory::new("docs".to_string());
    assert_eq!(d.as_str(), "docs");
    assert_eq!(d.into_string(), "docs");
    assert_eq!(FileSizeBytes::new(42).bytes(), 42);
}

#[test]
fn download_url_parse() {
    assert_eq!(DownloadUrl::parse("file://downloaded").unwrap().as_str(), "file://downloaded/");
    assert_eq!(DownloadUrl::parse("https://example.net").unwrap().as_str(), "https://example.net/");
    assert!(DownloadUrl::parse("not a url").is_err());
}

#[test]
fn human_readable_examples() {
    assert_eq!(FileSizeBytes::new(0).human_readable(), "0 B");
    assert_eq!(FileSizeBytes::new(1023).human_readable(), "1023 B");
    assert_eq!(FileSizeBytes::new(1024).human_readable(), "1.0 KB");
    assert_eq!(FileSizeBytes::new(1536).human_readable(), "1.5 KB");
    assert_eq!(FileSizeBytes::new(1280).human_readable(), "1.2 KB");
    assert_eq!(FileSizeBytes::new(1_258_291).human_readable(), "1.2 MB");
    assert_eq!(FileSizeBytes::new(1_048_575).human_readable(), "1024.0 KB");
    assert_eq!(FileSizeBytes::new(5 * 1024 * 1024 * 1024 * 1024 * 1024).human_readable(), "5120.0 TB");
}

fn float_reference(bytes: u64) -> String {
    let units = ["B", "KB", "MB", "GB", "TB"];
    let mut size = bytes as f64;
    let mut unit_index = 0;
    while size >= 1024.0 && unit_index < units.len() - 1 {
        size /= 1024.0;
        unit_index += 1;
    }
    if unit_index == 0 {
        format!("{} {}", bytes, units[unit_index])
    } else {
        format!("{:.1} {}", size, units[unit_index])
    }
}

#[test]
fn human_readable_matches_float_formatting() {
    let mut samples: Vec<u64> = Vec::new();
    for b in 0..5000u64 {
        samples.push(b);
    }
    for k in 1..=6u32 {
        let unit = 1024u64.pow(k.min(4)) * if k > 4 { 1024u64.pow(k - 4) } else { 1 };
        for frac in 0..2000u64 {
            samples.push(unit.saturating_mul(frac) / 1000 + unit);
            samples.push((unit / 20).saturating_mul(2 * frac + 1));
        }
    }
    let mut x: u64 = 0x9E37_79B9_7F4A_7C15;
    for _ in 0..20000 {
        x ^= x << 13;
        x ^= x >> 7;
        x ^= x << 17;
        samples.push(x >> (x % 60));
        samples.push(x);
    }
    samples.push(u64::MAX);
    samples.push(u64::MAX - 1024);
    samples.push((1u64 << 53) + 1);
    samples.push((1u64 << 54) + 2);
    for b in samples {
        assert_eq!(FileSizeBytes::new(b).human_readable(), float_reference(b), "bytes = {}", b);
    }
}
