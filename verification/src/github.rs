//! Discovery of documentation directories in a repository's file tree:
//! which directory names suggest documentation, which paths are
//! documentation files, and which directories to keep.

use vstd::prelude::*;
use vstd::relations::{sorted_by, total_ordering};
use crate::order::{lemma_prefix_le, lemma_text_order_total, sort_texts, text_le, text_order};
use vstd::string::*;
use crate::downloader::{doc_names, matches_doc_name, name_matches};
use crate::text::{
    chars_of, contains_text, has_infix, has_prefix, has_suffix, text_eq, to_lowercase,
    unicode_lowercase,
};

verus! {

broadcast use vstd::seq_lib::group_to_multiset_ensures;

/// The last component of `path`, as `std::path::Path::file_name` finds it.
pub uninterp spec fn path_file_name(path: Seq<char>) -> Option<Seq<char>>;

/// `path` without its last component, as `std::path::Path::parent` finds it.
pub uninterp spec fn path_parent(path: Seq<char>) -> Option<Seq<char>>;

/// Calls `std::path::Path::file_name` on `path`. The contract names the
/// result [`path_file_name`] of the text and states nothing else of it: how
/// paths split into components is the standard library's, not stated here.
#[verifier::external_body]
pub(crate) fn file_name_of(path: &str) -> (r: Option<String>)
    ensures
        r.deep_view() == path_file_name(path@),
{
    std::path::Path::new(path).file_name().map(|n| n.to_string_lossy().into_owned())
}

/// Calls `std::path::Path::parent` on `path`. The contract names the result
/// [`path_parent`] of the text and states nothing else of it.
#[verifier::external_body]
pub(crate) fn parent_of(path: &str) -> (r: Option<String>)
    ensures
        r.deep_view() == path_parent(path@),
{
    std::path::Path::new(path).parent().map(|p| p.to_string_lossy().into_owned())
}

/// The words whose presence in a directory path suggests documentation.
pub open spec fn doc_dir_indicators() -> Seq<Seq<char>> {
    seq![
        "doc"@, "docs"@, "documentation"@, "guide"@, "guides"@, "manual"@, "wiki"@, "readme"@,
        "tutorial"@, "tutorials"@, "reference"@, "api"@, "book"@, "books"@,
    ]
}

/// A lowercase directory path that suggests documentation: it contains one
/// of the indicator words.
pub open spec fn is_doc_dir_name(lower: Seq<char>) -> bool {
    exists|i: int| 0 <= i < doc_dir_indicators().len() && contains_text(lower, #[trigger] doc_dir_indicators()[i])
}

/// The file extensions that mark a documentation file in a repository tree.
pub open spec fn tree_doc_extensions() -> Seq<Seq<char>> {
    seq![
        ".md"@, ".markdown"@, ".txt"@, ".rst"@, ".adoc"@, ".asciidoc"@, ".org"@, ".tex"@, ".pdf"@,
        ".html"@, ".htm"@, ".xml"@,
    ]
}

/// A lowercase path in a repository tree whose last component is
/// `file_name` (none for a path without one) is documentation: the path ends
/// with a documentation extension, or the last component is a documentation
/// name, alone or followed by `.`, `_` or `-`.
pub open spec fn is_doc_tree_path(lower: Seq<char>, file_name: Option<Seq<char>>) -> bool {
    ||| exists|i: int| 0 <= i < tree_doc_extensions().len() && #[trigger] tree_doc_extensions()[i].is_suffix_of(lower)
    ||| exists|i: int| 0 <= i < doc_names().len() && matches_doc_name(name_or_empty(file_name), #[trigger] doc_names()[i])
}

/// The name `n`, or the empty text for none.
pub open spec fn name_or_empty(n: Option<Seq<char>>) -> Seq<char> {
    match n {
        Some(t) => t,
        None => Seq::empty(),
    }
}

/// A path of a repository tree is documentation (see [`is_doc_tree_path`]),
/// judged on its lowercase.
pub open spec fn is_doc_path(path: Seq<char>) -> bool {
    is_doc_tree_path(unicode_lowercase(path), path_file_name(unicode_lowercase(path)))
}

/// A directory path suggests documentation (see [`is_doc_dir_name`]), judged
/// on its lowercase.
pub open spec fn is_doc_dir(path: Seq<char>) -> bool {
    is_doc_dir_name(unicode_lowercase(path))
}

/// `w` stands inside `s + w + t`.
proof fn lemma_inside(s: Seq<char>, w: Seq<char>, t: Seq<char>)
    ensures
        contains_text(s + w + t, w),
{
    let f = s + w + t;
    assert(f.subrange(s.len() as int, (s.len() + w.len()) as int) =~= w);
}

/// `e` ends `s + e`.
proof fn lemma_tree_ends_with(s: Seq<char>, e: Seq<char>)
    ensures
        e.is_suffix_of(s + e),
{
    assert(e =~= (s + e).subrange((s + e).len() - e.len(), (s + e).len() as int));
}

/// Which lowercase directory paths suggest documentation, by value:
/// exactly those containing one of `doc`, `docs`, `documentation`, `guide`,
/// `guides`, `manual`, `wiki`, `readme`, `tutorial`, `tutorials`,
/// `reference`, `api`, `book`, `books`.
pub proof fn lemma_doc_dir_words_listed(lower: Seq<char>)
    ensures
        is_doc_dir_name(lower) <==> (contains_text(lower, "doc"@) || contains_text(lower, "docs"@) || contains_text(lower, "documentation"@) || contains_text(lower, "guide"@) || contains_text(lower, "guides"@) || contains_text(lower, "manual"@) || contains_text(lower, "wiki"@) || contains_text(lower, "readme"@) || contains_text(lower, "tutorial"@) || contains_text(lower, "tutorials"@) || contains_text(lower, "reference"@) || contains_text(lower, "api"@) || contains_text(lower, "book"@) || contains_text(lower, "books"@)),
{
    assert(doc_dir_indicators()[0] == "doc"@);
    assert(doc_dir_indicators()[1] == "docs"@);
    assert(doc_dir_indicators()[2] == "documentation"@);
    assert(doc_dir_indicators()[3] == "guide"@);
    assert(doc_dir_indicators()[4] == "guides"@);
    assert(doc_dir_indicators()[5] == "manual"@);
    assert(doc_dir_indicators()[6] == "wiki"@);
    assert(doc_dir_indicators()[7] == "readme"@);
    assert(doc_dir_indicators()[8] == "tutorial"@);
    assert(doc_dir_indicators()[9] == "tutorials"@);
    assert(doc_dir_indicators()[10] == "reference"@);
    assert(doc_dir_indicators()[11] == "api"@);
    assert(doc_dir_indicators()[12] == "book"@);
    assert(doc_dir_indicators()[13] == "books"@);
    if is_doc_dir_name(lower) {
        let i = choose|i: int| 0 <= i < doc_dir_indicators().len() && contains_text(lower, #[trigger] doc_dir_indicators()[i]);
        if i == 0 {} else if i == 1 {} else if i == 2 {} else if i == 3 {} else if i == 4 {} else if i == 5 {} else if i == 6 {} else if i == 7 {} else if i == 8 {} else if i == 9 {} else if i == 10 {} else if i == 11 {} else if i == 12 {} else if i == 13 {}
    }
}

/// Whatever stands around it, each indicator word makes a directory path
/// that suggests documentation.
pub proof fn lemma_doc_dir_words_inside(s: Seq<char>, t: Seq<char>)
    ensures
        is_doc_dir_name(s + "doc"@ + t),
        is_doc_dir_name(s + "docs"@ + t),
        is_doc_dir_name(s + "documentation"@ + t),
        is_doc_dir_name(s + "guide"@ + t),
        is_doc_dir_name(s + "guides"@ + t),
        is_doc_dir_name(s + "manual"@ + t),
        is_doc_dir_name(s + "wiki"@ + t),
        is_doc_dir_name(s + "readme"@ + t),
        is_doc_dir_name(s + "tutorial"@ + t),
        is_doc_dir_name(s + "tutorials"@ + t),
        is_doc_dir_name(s + "reference"@ + t),
        is_doc_dir_name(s + "api"@ + t),
        is_doc_dir_name(s + "book"@ + t),
        is_doc_dir_name(s + "books"@ + t),
{
    lemma_inside(s, "doc"@, t);
    lemma_doc_dir_words_listed(s + "doc"@ + t);
    lemma_inside(s, "docs"@, t);
    lemma_doc_dir_words_listed(s + "docs"@ + t);
    lemma_inside(s, "documentation"@, t);
    lemma_doc_dir_words_listed(s + "documentation"@ + t);
    lemma_inside(s, "guide"@, t);
    lemma_doc_dir_words_listed(s + "guide"@ + t);
    lemma_inside(s, "guides"@, t);
    lemma_doc_dir_words_listed(s + "guides"@ + t);
    lemma_inside(s, "manual"@, t);
    lemma_doc_dir_words_listed(s + "manual"@ + t);
    lemma_inside(s, "wiki"@, t);
    lemma_doc_dir_words_listed(s + "wiki"@ + t);
    lemma_inside(s, "readme"@, t);
    lemma_doc_dir_words_listed(s + "readme"@ + t);
    lemma_inside(s, "tutorial"@, t);
    lemma_doc_dir_words_listed(s + "tutorial"@ + t);
    lemma_inside(s, "tutorials"@, t);
    lemma_doc_dir_words_listed(s + "tutorials"@ + t);
    lemma_inside(s, "reference"@, t);
    lemma_doc_dir_words_listed(s + "reference"@ + t);
    lemma_inside(s, "api"@, t);
    lemma_doc_dir_words_listed(s + "api"@ + t);
    lemma_inside(s, "book"@, t);
    lemma_doc_dir_words_listed(s + "book"@ + t);
    lemma_inside(s, "books"@, t);
    lemma_doc_dir_words_listed(s + "books"@ + t);
}

/// Which lowercase tree paths are documentation, by value: exactly those
/// that end with one of `.md`, `.markdown`, `.txt`, `.rst`, `.adoc`,
/// `.asciidoc`, `.org`, `.tex`, `.pdf`, `.html`, `.htm`, `.xml`, or whose
/// last component is a documentation name (`readme`, `changelog`, ...,
/// `documentation`), alone or followed by `.`, `_` or `-`.
pub proof fn lemma_doc_tree_paths_listed(lower: Seq<char>, file_name: Option<Seq<char>>)
    ensures
        is_doc_tree_path(lower, file_name) <==> (".md"@.is_suffix_of(lower) || ".markdown"@.is_suffix_of(lower) || ".txt"@.is_suffix_of(lower) || ".rst"@.is_suffix_of(lower) || ".adoc"@.is_suffix_of(lower) || ".asciidoc"@.is_suffix_of(lower) || ".org"@.is_suffix_of(lower) || ".tex"@.is_suffix_of(lower) || ".pdf"@.is_suffix_of(lower) || ".html"@.is_suffix_of(lower) || ".htm"@.is_suffix_of(lower) || ".xml"@.is_suffix_of(lower)
            || matches_doc_name(name_or_empty(file_name), "readme"@) || matches_doc_name(name_or_empty(file_name), "changelog"@) || matches_doc_name(name_or_empty(file_name), "changes"@) || matches_doc_name(name_or_empty(file_name), "news"@) || matches_doc_name(name_or_empty(file_name), "history"@) || matches_doc_name(name_or_empty(file_name), "license"@) || matches_doc_name(name_or_empty(file_name), "copying"@) || matches_doc_name(name_or_empty(file_name), "authors"@) || matches_doc_name(name_or_empty(file_name), "contributors"@) || matches_doc_name(name_or_empty(file_name), "todo"@) || matches_doc_name(name_or_empty(file_name), "install"@) || matches_doc_name(name_or_empty(file_name), "installation"@) || matches_doc_name(name_or_empty(file_name), "usage"@) || matches_doc_name(name_or_empty(file_name), "guide"@) || matches_doc_name(name_or_empty(file_name), "tutorial"@) || matches_doc_name(name_or_empty(file_name), "faq"@) || matches_doc_name(name_or_empty(file_name), "api"@) || matches_doc_name(name_or_empty(file_name), "reference"@) || matches_doc_name(name_or_empty(file_name), "manual"@) || matches_doc_name(name_or_empty(file_name), "docs"@) || matches_doc_name(name_or_empty(file_name), "documentation"@)),
{
    assert(tree_doc_extensions()[0] == ".md"@);
    assert(tree_doc_extensions()[1] == ".markdown"@);
    assert(tree_doc_extensions()[2] == ".txt"@);
    assert(tree_doc_extensions()[3] == ".rst"@);
    assert(tree_doc_extensions()[4] == ".adoc"@);
    assert(tree_doc_extensions()[5] == ".asciidoc"@);
    assert(tree_doc_extensions()[6] == ".org"@);
    assert(tree_doc_extensions()[7] == ".tex"@);
    assert(tree_doc_extensions()[8] == ".pdf"@);
    assert(tree_doc_extensions()[9] == ".html"@);
    assert(tree_doc_extensions()[10] == ".htm"@);
    assert(tree_doc_extensions()[11] == ".xml"@);
    assert(doc_names()[0] == "readme"@);
    assert(doc_names()[1] == "changelog"@);
    assert(doc_names()[2] == "changes"@);
    assert(doc_names()[3] == "news"@);
    assert(doc_names()[4] == "history"@);
    assert(doc_names()[5] == "license"@);
    assert(doc_names()[6] == "copying"@);
    assert(doc_names()[7] == "authors"@);
    assert(doc_names()[8] == "contributors"@);
    assert(doc_names()[9] == "todo"@);
    assert(doc_names()[10] == "install"@);
    assert(doc_names()[11] == "installation"@);
    assert(doc_names()[12] == "usage"@);
    assert(doc_names()[13] == "guide"@);
    assert(doc_names()[14] == "tutorial"@);
    assert(doc_names()[15] == "faq"@);
    assert(doc_names()[16] == "api"@);
    assert(doc_names()[17] == "reference"@);
    assert(doc_names()[18] == "manual"@);
    assert(doc_names()[19] == "docs"@);
    assert(doc_names()[20] == "documentation"@);
    let f = name_or_empty(file_name);
    if exists|i: int| 0 <= i < tree_doc_extensions().len() && #[trigger] tree_doc_extensions()[i].is_suffix_of(lower) {
        let i = choose|i: int| 0 <= i < tree_doc_extensions().len() && #[trigger] tree_doc_extensions()[i].is_suffix_of(lower);
        if i == 0 {} else if i == 1 {} else if i == 2 {} else if i == 3 {} else if i == 4 {} else if i == 5 {} else if i == 6 {} else if i == 7 {} else if i == 8 {} else if i == 9 {} else if i == 10 {} else if i == 11 {}
    }
    if exists|k: int| 0 <= k < doc_names().len() && matches_doc_name(f, #[trigger] doc_names()[k]) {
        let k = choose|k: int| 0 <= k < doc_names().len() && matches_doc_name(f, #[trigger] doc_names()[k]);
        if k == 0 {} else if k == 1 {} else if k == 2 {} else if k == 3 {} else if k == 4 {} else if k == 5 {} else if k == 6 {} else if k == 7 {} else if k == 8 {} else if k == 9 {} else if k == 10 {} else if k == 11 {} else if k == 12 {} else if k == 13 {} else if k == 14 {} else if k == 15 {} else if k == 16 {} else if k == 17 {} else if k == 18 {} else if k == 19 {} else if k == 20 {}
    }
}

/// Whatever comes before them, and whatever the last component, each
/// documentation extension makes a documentation tree path.
pub proof fn lemma_doc_tree_paths_extend(p: Seq<char>, file_name: Option<Seq<char>>)
    ensures
        is_doc_tree_path(p + ".md"@, file_name),
        is_doc_tree_path(p + ".markdown"@, file_name),
        is_doc_tree_path(p + ".txt"@, file_name),
        is_doc_tree_path(p + ".rst"@, file_name),
        is_doc_tree_path(p + ".adoc"@, file_name),
        is_doc_tree_path(p + ".asciidoc"@, file_name),
        is_doc_tree_path(p + ".org"@, file_name),
        is_doc_tree_path(p + ".tex"@, file_name),
        is_doc_tree_path(p + ".pdf"@, file_name),
        is_doc_tree_path(p + ".html"@, file_name),
        is_doc_tree_path(p + ".htm"@, file_name),
        is_doc_tree_path(p + ".xml"@, file_name),
{
    lemma_tree_ends_with(p, ".md"@);
    lemma_doc_tree_paths_listed(p + ".md"@, file_name);
    lemma_tree_ends_with(p, ".markdown"@);
    lemma_doc_tree_paths_listed(p + ".markdown"@, file_name);
    lemma_tree_ends_with(p, ".txt"@);
    lemma_doc_tree_paths_listed(p + ".txt"@, file_name);
    lemma_tree_ends_with(p, ".rst"@);
    lemma_doc_tree_paths_listed(p + ".rst"@, file_name);
    lemma_tree_ends_with(p, ".adoc"@);
    lemma_doc_tree_paths_listed(p + ".adoc"@, file_name);
    lemma_tree_ends_with(p, ".asciidoc"@);
    lemma_doc_tree_paths_listed(p + ".asciidoc"@, file_name);
    lemma_tree_ends_with(p, ".org"@);
    lemma_doc_tree_paths_listed(p + ".org"@, file_name);
    lemma_tree_ends_with(p, ".tex"@);
    lemma_doc_tree_paths_listed(p + ".tex"@, file_name);
    lemma_tree_ends_with(p, ".pdf"@);
    lemma_doc_tree_paths_listed(p + ".pdf"@, file_name);
    lemma_tree_ends_with(p, ".html"@);
    lemma_doc_tree_paths_listed(p + ".html"@, file_name);
    lemma_tree_ends_with(p, ".htm"@);
    lemma_doc_tree_paths_listed(p + ".htm"@, file_name);
    lemma_tree_ends_with(p, ".xml"@);
    lemma_doc_tree_paths_listed(p + ".xml"@, file_name);
}

/// Whether the lowercase directory path `lower` suggests documentation
/// (see [`is_doc_dir_name`]).
pub fn is_documentation_directory_name(lower: &str) -> (r: bool)
    ensures
        r == is_doc_dir_name(lower@),
{
    let f = chars_of(lower);
    let words: Vec<&str> = vec![
        "doc", "docs", "documentation", "guide", "guides", "manual", "wiki", "readme", "tutorial",
        "tutorials", "reference", "api", "book", "books",
    ];
    assert(words@.len() == doc_dir_indicators().len());
    let mut i: usize = 0;
    while i < words.len()
        invariant
            f@ == lower@,
            words@.len() == doc_dir_indicators().len(),
            forall|j: int| 0 <= j < words@.len() ==> #[trigger] words@[j]@ == doc_dir_indicators()[j],
            i <= words.len(),
            forall|j: int| 0 <= j < i ==> !contains_text(lower@, #[trigger] doc_dir_indicators()[j]),
        decreases words.len() - i,
    {
        let w = chars_of(words[i]);
        if has_infix(&f, &w) {
            assert(contains_text(lower@, doc_dir_indicators()[i as int]));
            return true;
        }
        i += 1;
    }
    false
}

/// Whether a directory path suggests documentation: its lowercase (as
/// `str::to_lowercase` makes it) contains an indicator word.
pub fn is_documentation_directory(path: &str) -> (r: bool)
    ensures
        r == is_doc_dir(path@),
{
    let lower = to_lowercase(path);
    is_documentation_directory_name(lower.as_str())
}

/// Whether the lowercase tree path `lower`, whose last component is
/// `file_name`, is documentation (see [`is_doc_tree_path`]).
pub fn is_documentation_tree_path(lower: &str, file_name: Option<String>) -> (r: bool)
    ensures
        r == is_doc_tree_path(lower@, file_name.deep_view()),
{
    let f = chars_of(lower);
    let exts: Vec<&str> = vec![
        ".md", ".markdown", ".txt", ".rst", ".adoc", ".asciidoc", ".org", ".tex", ".pdf", ".html",
        ".htm", ".xml",
    ];
    assert(exts@.len() == tree_doc_extensions().len());
    let mut i: usize = 0;
    while i < exts.len()
        invariant
            f@ == lower@,
            exts@.len() == tree_doc_extensions().len(),
            forall|j: int| 0 <= j < exts@.len() ==> #[trigger] exts@[j]@ == tree_doc_extensions()[j],
            i <= exts.len(),
            forall|j: int| 0 <= j < i ==> !(#[trigger] tree_doc_extensions()[j]).is_suffix_of(lower@),
        decreases exts.len() - i,
    {
        let e = chars_of(exts[i]);
        if has_suffix(&f, &e) {
            assert(tree_doc_extensions()[i as int].is_suffix_of(lower@));
            return true;
        }
        i += 1;
    }
    let base = match &file_name {
        Some(n) => chars_of(n.as_str()),
        None => Vec::new(),
    };
    let ghost fv = name_or_empty(file_name.deep_view());
    assert(base@ =~= fv);
    let names: Vec<&str> = vec![
        "readme", "changelog", "changes", "news", "history", "license", "copying", "authors",
        "contributors", "todo", "install", "installation", "usage", "guide", "tutorial", "faq",
        "api", "reference", "manual", "docs", "documentation",
    ];
    assert(names@.len() == doc_names().len());
    let mut k: usize = 0;
    while k < names.len()
        invariant
            base@ == fv,
            fv == name_or_empty(file_name.deep_view()),
            forall|j: int| 0 <= j < tree_doc_extensions().len() ==> !(#[trigger] tree_doc_extensions()[j]).is_suffix_of(lower@),
            names@.len() == doc_names().len(),
            forall|j: int| 0 <= j < names@.len() ==> #[trigger] names@[j]@ == doc_names()[j],
            k <= names.len(),
            forall|j: int| 0 <= j < k ==> !matches_doc_name(fv, #[trigger] doc_names()[j]),
        decreases names.len() - k,
    {
        let nm = chars_of(names[k]);
        if name_matches(&base, &nm) {
            assert(matches_doc_name(fv, doc_names()[k as int]));
            return true;
        }
        k += 1;
    }
    false
}

/// Whether a path of a repository tree is documentation: its lowercase (as
/// `str::to_lowercase` makes it) ends with a documentation extension, or its
/// last component (as `Path::file_name` finds it) is a documentation name.
pub fn is_documentation_file(path: &str) -> (r: bool)
    ensures
        r == is_doc_path(path@),
{
    let lower = to_lowercase(path);
    let name = file_name_of(lower.as_str());
    is_documentation_tree_path(lower.as_str(), name)
}

/// `q` is a directory above `p`: `p` starts with `q` followed by `/`.
pub open spec fn is_ancestor(q: Seq<char>, p: Seq<char>) -> bool {
    (q + seq!['/']).is_prefix_of(p)
}

/// Some path of `paths` is a directory above `p`.
pub open spec fn has_ancestor_in(paths: Seq<Seq<char>>, p: Seq<char>) -> bool {
    exists|q: Seq<char>| paths.contains(q) && #[trigger] is_ancestor(q, p)
}

/// The paths of `paths` that lie under no other path of `paths`, in
/// lexicographic order, a path given twice still twice.
pub open spec fn top_level_sorted(paths: Seq<Seq<char>>) -> Seq<Seq<char>> {
    paths.sort_by(text_order()).filter(|p: Seq<char>| !has_ancestor_in(paths, p))
}

/// `s` without each item that equals the item just before it.
pub open spec fn drop_repeats(s: Seq<Seq<char>>) -> Seq<Seq<char>>
    decreases s.len(),
{
    if s.len() == 0 {
        s
    } else {
        let rest = drop_repeats(s.drop_last());
        if s.len() >= 2 && s[s.len() - 2] == s.last() {
            rest
        } else {
            rest.push(s.last())
        }
    }
}

/// The paths of `paths` that lie under no other path of `paths`, each once,
/// in lexicographic order.
pub open spec fn top_level_paths(paths: Seq<Seq<char>>) -> Seq<Seq<char>> {
    drop_repeats(top_level_sorted(paths))
}

proof fn lemma_ancestor_transitive(a: Seq<char>, b: Seq<char>, c: Seq<char>)
    requires
        is_ancestor(a, b),
        is_ancestor(b, c),
    ensures
        is_ancestor(a, c),
{
    assert((a + seq!['/']) =~= c.subrange(0, (a.len() + 1) as int)) by {
        assert forall|k: int| 0 <= k < a.len() + 1 implies (a + seq!['/'])[k] == c[k] by {
            assert((a + seq!['/'])[k] == b[k]);
            assert(b[k] == (b + seq!['/'])[k]);
        }
    }
}

proof fn lemma_ancestor_before(q: Seq<char>, p: Seq<char>)
    requires
        is_ancestor(q, p),
    ensures
        text_le(q, p),
        q != p,
        q.len() < p.len(),
{
    assert(q.is_prefix_of(p)) by {
        assert(q =~= p.subrange(0, q.len() as int)) by {
            assert forall|k: int| 0 <= k < q.len() implies q[k] == p[k] by {
                assert(q[k] == (q + seq!['/'])[k]);
            }
        }
    }
    lemma_prefix_le(q, p);
}

proof fn lemma_root_ancestor(s: Seq<Seq<char>>, q: Seq<char>) -> (r: Seq<char>)
    requires
        s.contains(q),
    ensures
        s.contains(r),
        !has_ancestor_in(s, r),
        r == q || is_ancestor(r, q),
    decreases q.len(),
{
    if has_ancestor_in(s, q) {
        let q2 = choose|q2: Seq<char>| s.contains(q2) && #[trigger] is_ancestor(q2, q);
        lemma_ancestor_before(q2, q);
        let r = lemma_root_ancestor(s, q2);
        if r != q2 {
            lemma_ancestor_transitive(r, q2, q);
        }
        r
    } else {
        q
    }
}

proof fn lemma_filter_sorted(s: Seq<Seq<char>>, keep: spec_fn(Seq<char>) -> bool)
    requires
        sorted_by(s, text_order()),
    ensures
        sorted_by(s.filter(keep), text_order()),
    decreases s.len(),
{
    reveal(Seq::filter);
    if s.len() > 0 {
        let rest = s.drop_last();
        assert(sorted_by(rest, text_order())) by {
            assert forall|a: int, b: int| 0 <= a < b < rest.len() implies #[trigger] text_order()(rest[a], rest[b]) by {
                assert(text_order()(s[a], s[b]));
            }
        }
        lemma_filter_sorted(rest, keep);
        let f = rest.filter(keep);
        if keep(s.last()) {
            assert forall|a: int, b: int| 0 <= a < b < f.push(s.last()).len() implies #[trigger] text_order()(f.push(s.last())[a], f.push(s.last())[b]) by {
                if b == f.len() {
                    assert(f.contains(f[a]));
                    rest.lemma_filter_contains_rev(keep, f[a]);
                    let j = choose|j: int| 0 <= j < rest.len() && rest[j] == f[a];
                    assert(text_order()(s[j], s[s.len() - 1]));
                } else {
                    assert(text_order()(f[a], f[b]));
                }
            }
        }
    }
}

proof fn lemma_top_level_sorted(paths: Seq<Seq<char>>)
    ensures
        forall|i: int, j: int|
            0 <= i < top_level_sorted(paths).len() && 0 <= j < top_level_sorted(paths).len()
                ==> !is_ancestor(
                #[trigger] top_level_sorted(paths)[i],
                #[trigger] top_level_sorted(paths)[j],
            ),
        forall|k: int| 0 <= k < top_level_sorted(paths).len() ==> paths.contains(#[trigger] top_level_sorted(paths)[k]),
        forall|q: Seq<char>| #[trigger] paths.contains(q) ==> exists|k: int|
            0 <= k < top_level_sorted(paths).len() && (top_level_sorted(paths)[k] == q || is_ancestor(top_level_sorted(paths)[k], q)),
        forall|q: Seq<char>| #[trigger] top_level_sorted(paths).contains(q) <==> paths.contains(q) && !has_ancestor_in(paths, q),
        sorted_by(top_level_sorted(paths), text_order()),
{
    broadcast use vstd::seq_lib::group_filter_ensures;

    lemma_text_order_total();
    paths.lemma_sort_by_ensures(text_order());
    let sorted = paths.sort_by(text_order());
    let keep = |p: Seq<char>| !has_ancestor_in(paths, p);
    let r = top_level_sorted(paths);
    assert(r == sorted.filter(keep));
    assert forall|q: Seq<char>| paths.contains(q) <==> sorted.contains(q) by {
        assert(paths.to_multiset().count(q) == sorted.to_multiset().count(q));
    }
    assert forall|k: int| 0 <= k < r.len() implies paths.contains(#[trigger] r[k]) by {
        assert(r.contains(r[k]));
        sorted.lemma_filter_contains_rev(keep, r[k]);
    }
    assert forall|i: int, j: int| 0 <= i < r.len() && 0 <= j < r.len() implies !is_ancestor(
        #[trigger] r[i],
        #[trigger] r[j],
    ) by {
        assert(r.contains(r[i]));
        sorted.lemma_filter_contains_rev(keep, r[i]);
        assert(keep(r[j]));
    }
    assert forall|q: Seq<char>| #[trigger] paths.contains(q) implies exists|k: int|
        0 <= k < r.len() && (r[k] == q || is_ancestor(r[k], q)) by {
        let root = lemma_root_ancestor(paths, q);
        let j = choose|j: int| 0 <= j < sorted.len() && sorted[j] == root;
        sorted.lemma_filter_contains(keep, j);
        let k = choose|k: int| 0 <= k < r.len() && r[k] == root;
        assert(r[k] == q || is_ancestor(r[k], q));
    }
    assert forall|q: Seq<char>| #[trigger] r.contains(q) <==> paths.contains(q) && !has_ancestor_in(paths, q) by {
        if r.contains(q) {
            sorted.lemma_filter_contains_rev(keep, q);
        }
        if paths.contains(q) && !has_ancestor_in(paths, q) {
            let j = choose|j: int| 0 <= j < sorted.len() && sorted[j] == q;
            sorted.lemma_filter_contains(keep, j);
        }
    }
    lemma_filter_sorted(sorted, keep);
}

proof fn lemma_drop_repeats(s: Seq<Seq<char>>)
    ensures
        forall|x: Seq<char>|
            #![trigger drop_repeats(s).contains(x)]
            #![trigger s.contains(x)]
            drop_repeats(s).contains(x) <==> s.contains(x),
        s.len() > 0 ==> drop_repeats(s).len() > 0 && drop_repeats(s).last() == s.last(),
        sorted_by(s, text_order()) ==> sorted_by(drop_repeats(s), text_order()) && drop_repeats(
            s,
        ).no_duplicates(),
    decreases s.len(),
{
    if s.len() > 0 {
        let t = s.drop_last();
        let rest = drop_repeats(t);
        lemma_drop_repeats(t);
        if s.len() >= 2 && s[s.len() - 2] == s.last() {
            assert forall|x: Seq<char>| #[trigger] drop_repeats(s).contains(x) <==> s.contains(x) by {
                if s.contains(x) {
                    let k = choose|k: int| 0 <= k < s.len() && s[k] == x;
                    if k == s.len() - 1 {
                        assert(t[s.len() - 2] == x);
                    } else {
                        assert(t[k] == x);
                    }
                }
                if t.contains(x) {
                    let k = choose|k: int| 0 <= k < t.len() && t[k] == x;
                    assert(s[k] == x);
                }
            }
            if sorted_by(s, text_order()) {
                assert(sorted_by(t, text_order())) by {
                    assert forall|a: int, b: int| 0 <= a < b < t.len() implies #[trigger] text_order()(t[a], t[b]) by {
                        assert(text_order()(s[a], s[b]));
                    }
                }
            }
        } else {
            let d = rest.push(s.last());
            assert(drop_repeats(s) == d);
            assert forall|x: Seq<char>| #[trigger] d.contains(x) <==> s.contains(x) by {
                if s.contains(x) {
                    let k = choose|k: int| 0 <= k < s.len() && s[k] == x;
                    if k < s.len() - 1 {
                        assert(t[k] == x);
                        assert(t.contains(x));
                        let m = choose|m: int| 0 <= m < rest.len() && rest[m] == x;
                        assert(d[m] == x);
                    } else {
                        assert(d[rest.len() as int] == x);
                    }
                }
                if d.contains(x) {
                    let k = choose|k: int| 0 <= k < d.len() && d[k] == x;
                    if k < rest.len() {
                        assert(rest[k] == x);
                        assert(rest.contains(x));
                        let m = choose|m: int| 0 <= m < t.len() && t[m] == x;
                        assert(s[m] == x);
                    } else {
                        assert(s[s.len() - 1] == x);
                    }
                }
            }
            if sorted_by(s, text_order()) {
                lemma_text_order_total();
                assert(sorted_by(t, text_order())) by {
                    assert forall|a: int, b: int| 0 <= a < b < t.len() implies #[trigger] text_order()(t[a], t[b]) by {
                        assert(text_order()(s[a], s[b]));
                    }
                }
                assert forall|a: int| 0 <= a < rest.len() implies text_le(#[trigger] rest[a], s.last()) && rest[a] != s.last() by {
                    assert(rest.contains(rest[a]));
                    let m = choose|m: int| 0 <= m < t.len() && t[m] == rest[a];
                    assert(text_order()(s[m], s[s.len() - 1]));
                    if rest[a] == s.last() {
                        let l = rest.len() - 1;
                        if a < l {
                            assert(text_order()(rest[a], rest[l]));
                        }
                        assert(text_le(rest[a], s[s.len() - 2]));
                        assert(text_order()(s[s.len() - 2], s[s.len() - 1]));
                        assert(text_order()(s[s.len() - 1], s[s.len() - 2]));
                    }
                }
                assert(sorted_by(d, text_order())) by {
                    assert forall|a: int, b: int| 0 <= a < b < d.len() implies #[trigger] text_order()(d[a], d[b]) by {
                        if b < rest.len() {
                            assert(text_order()(rest[a], rest[b]));
                        } else {
                            assert(text_le(rest[a], s.last()));
                        }
                    }
                }
                assert(d.no_duplicates()) by {
                    assert forall|a: int, b: int| 0 <= a < d.len() && 0 <= b < d.len() && a != b implies d[a] != d[b] by {
                        if a < rest.len() && b < rest.len() {
                        } else if a < rest.len() {
                            assert(rest[a] != s.last());
                        } else {
                            assert(rest[b] != s.last());
                        }
                    }
                }
            }
        }
    }
}

/// Two lists in lexicographic order, each holding no path twice, that hold
/// the same paths are the same list.
pub proof fn lemma_sorted_distinct_unique(a: Seq<Seq<char>>, b: Seq<Seq<char>>)
    requires
        sorted_by(a, text_order()),
        sorted_by(b, text_order()),
        a.no_duplicates(),
        b.no_duplicates(),
        forall|x: Seq<char>| #![trigger a.contains(x)] #![trigger b.contains(x)] a.contains(x) <==> b.contains(x),
    ensures
        a == b,
    decreases a.len(),
{
    lemma_text_order_total();
    if a.len() == 0 {
        if b.len() > 0 {
            assert(b.contains(b[0]));
        }
        assert(a =~= b);
    } else {
        assert(a.contains(a[0]));
        let j = choose|j: int| 0 <= j < b.len() && b[j] == a[0];
        assert(b.contains(b[0]));
        let i = choose|i: int| 0 <= i < a.len() && a[i] == b[0];
        if j > 0 {
            assert(text_order()(b[0], b[j]));
        }
        if i > 0 {
            assert(text_order()(a[0], a[i]));
        }
        assert(text_order()(a[0], b[0]) && text_order()(b[0], a[0]));
        assert(a[0] == b[0]);
        let a1 = a.drop_first();
        let b1 = b.drop_first();
        assert(sorted_by(a1, text_order())) by {
            assert forall|x: int, y: int| 0 <= x < y < a1.len() implies #[trigger] text_order()(a1[x], a1[y]) by {
                assert(text_order()(a[x + 1], a[y + 1]));
            }
        }
        assert(sorted_by(b1, text_order())) by {
            assert forall|x: int, y: int| 0 <= x < y < b1.len() implies #[trigger] text_order()(b1[x], b1[y]) by {
                assert(text_order()(b[x + 1], b[y + 1]));
            }
        }
        assert(a1.no_duplicates()) by {
            assert forall|x: int, y: int| 0 <= x < a1.len() && 0 <= y < a1.len() && x != y implies a1[x] != a1[y] by {
                assert(a[x + 1] != a[y + 1]);
            }
        }
        assert(b1.no_duplicates()) by {
            assert forall|x: int, y: int| 0 <= x < b1.len() && 0 <= y < b1.len() && x != y implies b1[x] != b1[y] by {
                assert(b[x + 1] != b[y + 1]);
            }
        }
        assert forall|x: Seq<char>| #[trigger] a1.contains(x) <==> b1.contains(x) by {
            if a1.contains(x) {
                let k = choose|k: int| 0 <= k < a1.len() && a1[k] == x;
                assert(a[k + 1] == x);
                assert(a.contains(x));
                assert(x != a[0]);
                let m = choose|m: int| 0 <= m < b.len() && b[m] == x;
                assert(m != 0);
                assert(b1[m - 1] == x);
            }
            if b1.contains(x) {
                let k = choose|k: int| 0 <= k < b1.len() && b1[k] == x;
                assert(b[k + 1] == x);
                assert(b.contains(x));
                assert(x != b[0]);
                let m = choose|m: int| 0 <= m < a.len() && a[m] == x;
                assert(m != 0);
                assert(a1[m - 1] == x);
            }
        }
        lemma_sorted_distinct_unique(a1, b1);
        assert(a =~= seq![a[0]] + a1);
        assert(b =~= seq![b[0]] + b1);
    }
}

/// What keeping the top-level directories gives: no kept path lies under
/// another kept path; every kept path was given; every given path is kept
/// or lies under a kept path; a path is kept exactly when it was given and
/// lies under no given path; the kept paths are in lexicographic order; and
/// no path is kept twice.
pub proof fn lemma_top_level_paths(paths: Seq<Seq<char>>)
    ensures
        forall|i: int, j: int|
            0 <= i < top_level_paths(paths).len() && 0 <= j < top_level_paths(paths).len()
                ==> !is_ancestor(
                #[trigger] top_level_paths(paths)[i],
                #[trigger] top_level_paths(paths)[j],
            ),
        forall|k: int| 0 <= k < top_level_paths(paths).len() ==> paths.contains(#[trigger] top_level_paths(paths)[k]),
        forall|q: Seq<char>| #[trigger] paths.contains(q) ==> exists|k: int|
            0 <= k < top_level_paths(paths).len() && (top_level_paths(paths)[k] == q || is_ancestor(top_level_paths(paths)[k], q)),
        forall|q: Seq<char>| #[trigger] top_level_paths(paths).contains(q) <==> paths.contains(q) && !has_ancestor_in(paths, q),
        sorted_by(top_level_paths(paths), text_order()),
        top_level_paths(paths).no_duplicates(),
{
    let t = top_level_sorted(paths);
    let r = top_level_paths(paths);
    lemma_top_level_sorted(paths);
    lemma_drop_repeats(t);
    assert forall|k: int| 0 <= k < r.len() implies paths.contains(#[trigger] r[k]) by {
        assert(r.contains(r[k]));
        assert(t.contains(r[k]));
    }
    assert forall|i: int, j: int| 0 <= i < r.len() && 0 <= j < r.len() implies !is_ancestor(
        #[trigger] r[i],
        #[trigger] r[j],
    ) by {
        assert(r.contains(r[i]));
        assert(r.contains(r[j]));
        let a = choose|a: int| 0 <= a < t.len() && t[a] == r[i];
        let b = choose|b: int| 0 <= b < t.len() && t[b] == r[j];
        assert(!is_ancestor(t[a], t[b]));
    }
    assert forall|q: Seq<char>| #[trigger] paths.contains(q) implies exists|k: int|
        0 <= k < r.len() && (r[k] == q || is_ancestor(r[k], q)) by {
        let k = choose|k: int| 0 <= k < t.len() && (t[k] == q || is_ancestor(t[k], q));
        assert(t.contains(t[k]));
        assert(r.contains(t[k]));
        let m = choose|m: int| 0 <= m < r.len() && r[m] == t[k];
        assert(r[m] == q || is_ancestor(r[m], q));
    }
}

/// Keeping the top-level directories twice keeps what keeping them once
/// keeps.
pub proof fn lemma_top_level_paths_idempotent(paths: Seq<Seq<char>>)
    ensures
        top_level_paths(top_level_paths(paths)) == top_level_paths(paths),
{
    let t = top_level_paths(paths);
    let u = top_level_paths(t);
    lemma_top_level_paths(paths);
    lemma_top_level_paths(t);
    assert forall|x: Seq<char>| #[trigger] u.contains(x) <==> t.contains(x) by {
        if t.contains(x) && has_ancestor_in(t, x) {
            let q = choose|q: Seq<char>| t.contains(q) && #[trigger] is_ancestor(q, x);
            let i = choose|i: int| 0 <= i < t.len() && t[i] == q;
            let j = choose|j: int| 0 <= j < t.len() && t[j] == x;
            assert(!is_ancestor(t[i], t[j]));
        }
    }
    lemma_sorted_distinct_unique(u, t);
}

/// Whether `q` is a directory above `p` (see [`is_ancestor`]).
fn is_ancestor_exec(q: &Vec<char>, p: &Vec<char>) -> (r: bool)
    ensures
        r == is_ancestor(q@, p@),
{
    if p.len() <= q.len() {
        return false;
    }
    let pre = has_prefix(p, q);
    let slash = p[q.len()] == '/';
    proof {
        let t = q@ + seq!['/'];
        if pre && slash {
            assert(t =~= p@.subrange(0, t.len() as int));
        }
        if t.is_prefix_of(p@) {
            assert(q@ =~= p@.subrange(0, q@.len() as int)) by {
                assert forall|k: int| 0 <= k < q@.len() implies q@[k] == p@[k] by {
                    assert(t[k] == q@[k]);
                }
            }
            assert(t[q@.len() as int] == '/');
        }
    }
    pre && slash
}

/// Keep only the top-level directories of `paths`, each once: sort them,
/// drop each path that lies under another path of the list, and drop
/// duplicates (see [`top_level_paths`] and [`lemma_top_level_paths`]).
pub fn deduplicate_docs_paths(paths: Vec<String>) -> (r: Vec<String>)
    ensures
        r.deep_view() == top_level_paths(paths.deep_view()),
{
    let ghost given = paths.deep_view();
    let sorted = sort_texts(&paths);
    let ghost s = sorted.deep_view();
    let ghost keep = |p: Seq<char>| !has_ancestor_in(s, p);
    proof {
        lemma_text_order_total();
        assert forall|q: Seq<char>| given.contains(q) <==> s.contains(q) by {
            assert(given.to_multiset().count(q) == s.to_multiset().count(q));
        }
        assert(keep =~= (|p: Seq<char>| !has_ancestor_in(given, p)));
        reveal(Seq::filter);
        assert(s.take(0) =~= Seq::<Seq<char>>::empty());
    }
    let mut dedup: Vec<String> = Vec::new();
    let mut i: usize = 0;
    while i < sorted.len()
        invariant
            s == sorted.deep_view(),
            sorted_by(s, text_order()),
            total_ordering(text_order()),
            keep == (|p: Seq<char>| !has_ancestor_in(s, p)),
            i <= sorted.len(),
            dedup.deep_view() == s.take(i as int).filter(keep),
            forall|k: int| 0 <= k < dedup.deep_view().len() ==> exists|j: int|
                0 <= j < i && s[j] == #[trigger] dedup.deep_view()[k],
        decreases sorted.len() - i,
    {
        let pc = chars_of(sorted[i].as_str());
        let ghost p = s[i as int];
        assert(pc@ == p);
        // does some kept path lie above p?
        let mut k: usize = 0;
        let mut should_add = true;
        while k < dedup.len()
            invariant_except_break
                should_add,
            invariant
                k <= dedup.len(),
                pc@ == p,
                forall|m: int| 0 <= m < k ==> !is_ancestor(#[trigger] dedup.deep_view()[m], p),
            ensures
                k <= dedup.len(),
                should_add ==> k == dedup.len(),
                forall|m: int| 0 <= m < k ==> !is_ancestor(#[trigger] dedup.deep_view()[m], p),
                !should_add ==> k < dedup.len() && is_ancestor(dedup.deep_view()[k as int], p),
            decreases dedup.len() - k,
        {
            let ec = chars_of(dedup[k].as_str());
            if is_ancestor_exec(&ec, &pc) {
                should_add = false;
                break;
            }
            k += 1;
        }
        proof {
            reveal(Seq::filter);
            let before = s.take(i as int);
            let after = s.take(i + 1);
            assert(after.drop_last() =~= before);
            assert(after.last() == p);
            if should_add {
                // no ancestor of p anywhere in s
                if has_ancestor_in(s, p) {
                    let q = choose|q: Seq<char>| s.contains(q) && #[trigger] is_ancestor(q, p);
                    let r = lemma_root_ancestor(s, q);
                    if r != q {
                        lemma_ancestor_transitive(r, q, p);
                    }
                    lemma_ancestor_before(r, p);
                    let kr = choose|kr: int| 0 <= kr < s.len() && s[kr] == r;
                    if kr > i {
                        assert(text_order()(s[i as int], s[kr]));
                        assert(text_order()(r, p));
                        assert(r == p);
                    }
                    assert(kr < i);
                    assert(before[kr] == r);
                    before.lemma_filter_contains(keep, kr);
                    let m = choose|m: int| 0 <= m < before.filter(keep).len() && before.filter(keep)[m] == r;
                    assert(dedup.deep_view()[m] == r);
                }
            } else {
                let e = dedup.deep_view()[k as int];
                let j = choose|j: int| 0 <= j < i && s[j] == e;
                assert(s.contains(e));
                assert(has_ancestor_in(s, p));
            }
        }
        if should_add {
            // drop kept paths that lie under p (there are none: p sorts after them)
            let mut kept: Vec<String> = Vec::new();
            let mut m: usize = 0;
            while m < dedup.len()
                invariant
                    m <= dedup.len(),
                    pc@ == p,
                    p == s[i as int],
                    s == sorted.deep_view(),
                    i < s.len(),
                    sorted_by(s, text_order()),
                    total_ordering(text_order()),
                    forall|k: int| 0 <= k < dedup.deep_view().len() ==> exists|j: int|
                        0 <= j < i && s[j] == #[trigger] dedup.deep_view()[k],
                    kept.deep_view() == dedup.deep_view().take(m as int),
                decreases dedup.len() - m,
            {
                let ec = chars_of(dedup[m].as_str());
                let ghost e = dedup.deep_view()[m as int];
                assert(ec@ == e);
                proof {
                    let j = choose|j: int| 0 <= j < i && s[j] == e;
                    assert(text_order()(s[j], s[i as int]));
                    assert(!is_ancestor(p, e)) by {
                        if is_ancestor(p, e) {
                            lemma_ancestor_before(p, e);
                            assert(text_order()(p, e));
                            assert(text_order()(e, p));
                            assert(p == e);
                        }
                    }
                }
                let ghost old_kept = kept.deep_view();
                if !is_ancestor_exec(&pc, &ec) {
                    kept.push(dedup[m].clone());
                    assert(kept.deep_view() =~= old_kept.push(e));
                }
                assert(kept.deep_view() =~= dedup.deep_view().take(m + 1));
                m += 1;
            }
            assert(kept.deep_view() =~= dedup.deep_view());
            dedup = kept;
            dedup.push(sorted[i].clone());
            proof {
                let after = s.take(i + 1);
                assert(dedup.deep_view() =~= after.filter(keep));
            }
        }
        i += 1;
    }
    proof {
        assert(s.take(sorted.len() as int) =~= s);
        assert(s == given.sort_by(text_order()));
    }
    // a path given twice sorts next to itself: keep it once
    let ghost d = dedup.deep_view();
    let mut out: Vec<String> = Vec::new();
    let mut j: usize = 0;
    while j < dedup.len()
        invariant
            d == dedup.deep_view(),
            j <= dedup.len(),
            out.deep_view() == drop_repeats(d.take(j as int)),
        decreases dedup.len() - j,
    {
        let ghost next = d.take(j + 1);
        assert(next.drop_last() =~= d.take(j as int));
        assert(next.last() == dedup[j as int]@);
        let repeated = if j > 0 {
            assert(next[next.len() - 2] == dedup[j - 1]@);
            text_eq(dedup[j - 1].as_str(), dedup[j].as_str())
        } else {
            false
        };
        if !repeated {
            let ghost before = out.deep_view();
            out.push(dedup[j].clone());
            assert(out.deep_view() =~= before.push(dedup[j as int]@));
        }
        j += 1;
    }
    assert(d.take(dedup.len() as int) =~= d);
    out
}

/// One item of a repository tree: its path and its type (`tree` for a
/// directory, `blob` for a file).
#[derive(Debug)]
pub struct TreeEntry {
    /// The item's path from the repository root.
    pub path: String,
    /// The item's type.
    pub item_type: String,
}

/// The documentation directory that the tree item at `path` of type
/// `item_type` suggests: a directory whose path suggests documentation, or
/// the (non-empty) parent directory, if its path suggests documentation, of
/// a documentation file.
pub open spec fn entry_candidate(path: Seq<char>, item_type: Seq<char>) -> Option<Seq<char>> {
    if item_type == "tree"@ {
        if is_doc_dir(path) {
            Some(path)
        } else {
            None
        }
    } else if item_type == "blob"@ && is_doc_path(path) {
        match path_parent(path) {
            Some(p) => if p.len() > 0 && is_doc_dir(p) {
                Some(p)
            } else {
                None
            },
            None => None,
        }
    } else {
        None
    }
}

/// The directories that the items of `entries` suggest, each once, in the
/// order of the first item that suggests it.
pub open spec fn candidates_of(entries: Seq<TreeEntry>) -> Seq<Seq<char>>
    decreases entries.len(),
{
    if entries.len() == 0 {
        Seq::empty()
    } else {
        let prev = candidates_of(entries.drop_last());
        match entry_candidate(entries.last().path@, entries.last().item_type@) {
            Some(c) => if prev.contains(c) {
                prev
            } else {
                prev.push(c)
            },
            None => prev,
        }
    }
}

/// The tree item `e` is a documentation file under the directory `dir`.
pub open spec fn is_doc_file_under(e: TreeEntry, dir: Seq<char>) -> bool {
    &&& e.item_type@ == "blob"@
    &&& is_ancestor(dir, e.path@)
    &&& is_doc_path(e.path@)
}

/// How many items of `entries` are documentation files under `dir`.
pub open spec fn doc_files_under(entries: Seq<TreeEntry>, dir: Seq<char>) -> nat
    decreases entries.len(),
{
    if entries.len() == 0 {
        0
    } else {
        doc_files_under(entries.drop_last(), dir) + if is_doc_file_under(entries.last(), dir) {
            1nat
        } else {
            0nat
        }
    }
}

/// The directories of `dirs` under which `entries` hold a documentation file.
pub open spec fn dirs_with_docs(dirs: Seq<Seq<char>>, entries: Seq<TreeEntry>) -> Seq<Seq<char>> {
    dirs.filter(|d: Seq<char>| doc_files_under(entries, d) > 0)
}

fn contains_text_in(v: &Vec<String>, t: &str) -> (r: bool)
    ensures
        r == v.deep_view().contains(t@),
{
    let mut k: usize = 0;
    while k < v.len()
        invariant
            k <= v.len(),
            forall|j: int| 0 <= j < k ==> v.deep_view()[j] != t@,
        decreases v.len() - k,
    {
        if text_eq(v[k].as_str(), t) {
            assert(v.deep_view()[k as int] == t@);
            return true;
        }
        k += 1;
    }
    false
}

/// The directory that the tree item `e` suggests (see [`entry_candidate`]).
fn candidate_of(e: &TreeEntry) -> (r: Option<String>)
    ensures
        r.deep_view() == entry_candidate(e.path@, e.item_type@),
{
    if text_eq(e.item_type.as_str(), "tree") {
        if is_documentation_directory(e.path.as_str()) {
            return Some(e.path.clone());
        }
        return None;
    }
    if text_eq(e.item_type.as_str(), "blob") && is_documentation_file(e.path.as_str()) {
        match parent_of(e.path.as_str()) {
            Some(p) => {
                if !p.as_str().is_empty() && is_documentation_directory(p.as_str()) {
                    return Some(p);
                }
                None
            },
            None => None,
        }
    } else {
        None
    }
}

/// The directories that the items of a repository tree suggest, each once
/// (see [`candidates_of`]).
pub fn candidate_directories(entries: &[TreeEntry]) -> (r: Vec<String>)
    ensures
        r.deep_view() == candidates_of(entries@),
{
    let mut out: Vec<String> = Vec::new();
    let mut i: usize = 0;
    while i < entries.len()
        invariant
            i <= entries.len(),
            out.deep_view() == candidates_of(entries@.take(i as int)),
        decreases entries.len() - i,
    {
        let ghost after = entries@.take(i + 1);
        assert(after.drop_last() =~= entries@.take(i as int));
        assert(after.last() == entries@[i as int]);
        match candidate_of(&entries[i]) {
            Some(c) => {
                if !contains_text_in(&out, c.as_str()) {
                    let ghost before = out.deep_view();
                    out.push(c);
                    assert(out.deep_view() =~= before.push(c@));
                }
            },
            None => {},
        }
        i += 1;
    }
    assert(entries@.take(entries.len() as int) =~= entries@);
    out
}

/// How many items of a repository tree are documentation files under `dir`
/// (see [`doc_files_under`]).
pub fn count_documentation_files(entries: &[TreeEntry], dir: &str) -> (r: usize)
    ensures
        r == doc_files_under(entries@, dir@),
{
    let d = chars_of(dir);
    let mut count: usize = 0;
    let mut i: usize = 0;
    while i < entries.len()
        invariant
            d@ == dir@,
            i <= entries.len(),
            count == doc_files_under(entries@.take(i as int), dir@),
            count <= i,
        decreases entries.len() - i,
    {
        let ghost after = entries@.take(i + 1);
        assert(after.drop_last() =~= entries@.take(i as int));
        assert(after.last() == entries@[i as int]);
        let e = &entries[i];
        if text_eq(e.item_type.as_str(), "blob") {
            let p = chars_of(e.path.as_str());
            if is_ancestor_exec(&d, &p) {
                if is_documentation_file(e.path.as_str()) {
                    count += 1;
                }
            }
        }
        i += 1;
    }
    assert(entries@.take(entries.len() as int) =~= entries@);
    count
}

/// The directories of `candidate_dirs` under which the tree holds at least
/// one documentation file, in their order (see [`dirs_with_docs`]).
pub fn validate_docs_directories(candidate_dirs: &Vec<String>, entries: &[TreeEntry]) -> (r: Vec<String>)
    ensures
        r.deep_view() == dirs_with_docs(candidate_dirs.deep_view(), entries@),
{
    let ghost keep = |d: Seq<char>| doc_files_under(entries@, d) > 0;
    let ghost dirs = candidate_dirs.deep_view();
    let mut out: Vec<String> = Vec::new();
    let mut i: usize = 0;
    proof {
        reveal(Seq::filter);
        assert(dirs.take(0) =~= Seq::<Seq<char>>::empty());
    }
    while i < candidate_dirs.len()
        invariant
            dirs == candidate_dirs.deep_view(),
            keep == (|d: Seq<char>| doc_files_under(entries@, d) > 0),
            i <= candidate_dirs.len(),
            out.deep_view() == dirs.take(i as int).filter(keep),
        decreases candidate_dirs.len() - i,
    {
        proof {
            reveal(Seq::filter);
            assert(dirs.take(i + 1).drop_last() =~= dirs.take(i as int));
            assert(dirs.take(i + 1).last() == candidate_dirs[i as int]@);
        }
        let n = count_documentation_files(entries, candidate_dirs[i].as_str());
        if n > 0 {
            let ghost before = out.deep_view();
            out.push(candidate_dirs[i].clone());
            assert(out.deep_view() =~= before.push(candidate_dirs[i as int]@));
        }
        i += 1;
    }
    assert(dirs.take(candidate_dirs.len() as int) =~= dirs);
    out
}

/// The documentation directories of a repository tree: the directories its
/// items suggest, reduced to the top-level ones, that hold at least one
/// documentation file.
pub fn find_docs_in_tree(entries: &[TreeEntry]) -> (r: Vec<String>)
    ensures
        r.deep_view() == dirs_with_docs(top_level_paths(candidates_of(entries@)), entries@),
{
    let candidates = candidate_directories(entries);
    let top = deduplicate_docs_paths(candidates);
    validate_docs_directories(&top, entries)
}

proof fn lemma_candidates_suggest_docs(entries: Seq<TreeEntry>)
    ensures
        forall|k: int| 0 <= k < candidates_of(entries).len() ==> is_doc_dir(#[trigger] candidates_of(entries)[k]),
    decreases entries.len(),
{
    if entries.len() > 0 {
        let prev = candidates_of(entries.drop_last());
        lemma_candidates_suggest_docs(entries.drop_last());
        let e = entries.last();
        match entry_candidate(e.path@, e.item_type@) {
            Some(cand) => {
                assert(is_doc_dir(cand));
                if !prev.contains(cand) {
                    assert forall|k: int| 0 <= k < prev.push(cand).len() implies is_doc_dir(#[trigger] prev.push(cand)[k]) by {
                        if k < prev.len() {
                            assert(prev.push(cand)[k] == prev[k]);
                        }
                    }
                }
            },
            None => {},
        }
    }
}

proof fn lemma_doc_files_monotone(entries: Seq<TreeEntry>, r: Seq<char>, q: Seq<char>)
    requires
        is_ancestor(r, q),
    ensures
        doc_files_under(entries, r) >= doc_files_under(entries, q),
    decreases entries.len(),
{
    if entries.len() > 0 {
        lemma_doc_files_monotone(entries.drop_last(), r, q);
        if is_doc_file_under(entries.last(), q) {
            lemma_ancestor_transitive(r, q, entries.last().path@);
        }
    }
}

/// What finding the documentation directories of a tree gives: each
/// directory found holds at least one documentation file and has a path that
/// suggests documentation; no directory found lies under another; they are
/// in lexicographic order; and every suggested directory that holds a
/// documentation file is a directory found or lies under one.
pub proof fn lemma_find_docs_in_tree(entries: Seq<TreeEntry>)
    ensures
        forall|k: int| 0 <= k < dirs_with_docs(top_level_paths(candidates_of(entries)), entries).len()
            ==> {
            let d = #[trigger] dirs_with_docs(top_level_paths(candidates_of(entries)), entries)[k];
            &&& doc_files_under(entries, d) > 0
            &&& is_doc_dir(d)
        },
        forall|i: int, j: int|
            0 <= i < dirs_with_docs(top_level_paths(candidates_of(entries)), entries).len() && 0 <= j
                < dirs_with_docs(top_level_paths(candidates_of(entries)), entries).len() ==> !is_ancestor(
                #[trigger] dirs_with_docs(top_level_paths(candidates_of(entries)), entries)[i],
                #[trigger] dirs_with_docs(top_level_paths(candidates_of(entries)), entries)[j],
            ),
        sorted_by(dirs_with_docs(top_level_paths(candidates_of(entries)), entries), text_order()),
        forall|q: Seq<char>| #[trigger] candidates_of(entries).contains(q) && doc_files_under(entries, q) > 0
            ==> exists|k: int|
            0 <= k < dirs_with_docs(top_level_paths(candidates_of(entries)), entries).len() && (
            #[trigger] dirs_with_docs(top_level_paths(candidates_of(entries)), entries)[k] == q
                || is_ancestor(dirs_with_docs(top_level_paths(candidates_of(entries)), entries)[k], q)),
{
    broadcast use vstd::seq_lib::group_filter_ensures;

    let c = candidates_of(entries);
    let t = top_level_paths(c);
    let keep = |d: Seq<char>| doc_files_under(entries, d) > 0;
    let r = dirs_with_docs(t, entries);
    assert(r == t.filter(keep));
    lemma_top_level_paths(c);
    lemma_candidates_suggest_docs(entries);
    assert forall|k: int| 0 <= k < r.len() implies {
        let d = #[trigger] r[k];
        &&& doc_files_under(entries, d) > 0
        &&& is_doc_dir(d)
    } by {
        assert(keep(r[k]));
        assert(r.contains(r[k]));
        t.lemma_filter_contains_rev(keep, r[k]);
        let j = choose|j: int| 0 <= j < t.len() && t[j] == r[k];
        assert(c.contains(t[j]));
        let m = choose|m: int| 0 <= m < c.len() && c[m] == t[j];
        assert(is_doc_dir(c[m]));
    }
    assert forall|i: int, j: int| 0 <= i < r.len() && 0 <= j < r.len() implies !is_ancestor(
        #[trigger] r[i],
        #[trigger] r[j],
    ) by {
        assert(r.contains(r[i]));
        assert(r.contains(r[j]));
        t.lemma_filter_contains_rev(keep, r[i]);
        t.lemma_filter_contains_rev(keep, r[j]);
        let a = choose|a: int| 0 <= a < t.len() && t[a] == r[i];
        let b = choose|b: int| 0 <= b < t.len() && t[b] == r[j];
        assert(!is_ancestor(t[a], t[b]));
    }
    lemma_filter_sorted(t, keep);
    assert forall|q: Seq<char>| #[trigger] c.contains(q) && doc_files_under(entries, q) > 0 implies exists|k: int|
        0 <= k < r.len() && (#[trigger] r[k] == q || is_ancestor(r[k], q)) by {
        let k = choose|k: int| 0 <= k < t.len() && (t[k] == q || is_ancestor(t[k], q));
        if t[k] != q {
            lemma_doc_files_monotone(entries, t[k], q);
        }
        assert(keep(t[k]));
        t.lemma_filter_contains(keep, k);
        let m = choose|m: int| 0 <= m < r.len() && r[m] == t[k];
        assert(r[m] == q || is_ancestor(r[m], q));
    }
}

} // verus!
