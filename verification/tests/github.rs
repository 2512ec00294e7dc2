use gh_docs_download::github::{
    candidate_directories, count_documentation_files, deduplicate_docs_paths,
    find_docs_in_tree, is_documentation_directory, is_documentation_file,
    validate_docs_directories, TreeEntry,
};

fn strings(v: &[&str]) -> Vec<String> {
    v.iter().map(|s| s.to_string()).collect()
}

fn entry(path: &str, item_type: &str) -> TreeEntry {
    TreeEntry { path: path.to_string(), item_type: item_type.to_string() }
}

#[test]
fn directory_names() {
    for p in ["docs", "src/Doc", "GUIDES/intro", "my-wiki", "api-spec", "Books", "README"] {
        assert!(is_documentation_directory(p), "{}", p);
    }
    for p in ["src", "tests", "", "lib/core"] {
        assert!(!is_documentation_directory(p), "{}", p);
    }
}

#[test]
fn tree_paths() {
    for p in ["docs/intro.md", "a/b/README", "x/LICENSE-MIT", "guide.HTML", "notes.txt", "x/y/faq_v2"] {
        assert!(is_documentation_file(p), "{}", p);
    }
    for p in ["src/main.rs", "docs/intro.mdx", "readme/main.rs", ""] {
        assert!(!is_documentation_file(p), "{}", p);
    }
}

#[test]
fn dedup_keeps_top_level() {
    let out = deduplicate_docs_paths(strings(&["docs/api", "docs", "guide", "docs-old", "guide/x/y", "a/docs"]));
    assert_eq!(out, strings(&["a/docs", "docs", "docs-old", "guide"]));
    assert!(deduplicate_docs_paths(Vec::new()).is_empty());
    assert_eq!(deduplicate_docs_paths(strings(&["b", "a", "b"])), strings(&["a", "b"]));
    assert_eq!(deduplicate_docs_paths(strings(&["docs", "docs"])), strings(&["docs"]));
    assert_eq!(deduplicate_docs_paths(strings(&["docs/a", "docs", "docs/a", "docs"])), strings(&["docs"]));
}

#[test]
fn dedup_twice_is_dedup_once() {
    for input in [
        strings(&["docs/api", "docs", "guide", "docs-old", "guide/x/y", "a/docs"]),
        strings(&["b", "a", "b", "b/c", "c"]),
        strings(&[]),
    ] {
        let once = deduplicate_docs_paths(input);
        let twice = deduplicate_docs_paths(once.clone());
        assert_eq!(twice, once);
    }
}

#[test]
fn tree_discovery() {
    let tree = vec![
        entry("docs", "tree"),
        entry("docs/guide", "tree"),
        entry("docs/guide/intro.md", "blob"),
        entry("src", "tree"),
        entry("src/main.rs", "blob"),
        entry("manual/README", "blob"),
        entry("wiki", "tree"),
        entry("wiki/image.png", "blob"),
        entry("README.md", "blob"),
    ];
    assert_eq!(candidate_directories(&tree), strings(&["docs", "docs/guide", "manual", "wiki"]));
    assert_eq!(count_documentation_files(&tree, "docs"), 1);
    assert_eq!(count_documentation_files(&tree, "wiki"), 0);
    assert_eq!(
        validate_docs_directories(&strings(&["wiki", "manual", "docs"]), &tree),
        strings(&["manual", "docs"])
    );
    assert_eq!(find_docs_in_tree(&tree), strings(&["docs", "manual"]));
}
