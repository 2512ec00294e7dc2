//! The downloader: its configuration, which files count as documentation,
//! and what it reports.

use vstd::prelude::*;
use vstd::string::*;
use crate::error::GitHubDocsError;
use crate::summary::{file_summary_text, summary_text, total_bytes};
use crate::text::{
    ascii_lowercase, chars_of, decimal, decimal_text, has_suffix, is_ascii_text, to_lowercase,
    unicode_lowercase,
};
use crate::types::{
    DocsDirectory, DocumentationFile, DownloadUrl, FileName, FilePath, FileSizeBytes, RepoSpec,
};
use crate::weburl::{url_parses, url_serialization};

verus! {

/// The file extensions that mark a documentation file.
pub open spec fn doc_extensions() -> Seq<Seq<char>> {
    seq![
        ".md"@, ".mdx"@, ".markdown"@, ".txt"@, ".rst"@, ".adoc"@, ".asciidoc"@, ".org"@, ".tex"@,
        ".pdf"@, ".html"@, ".htm"@, ".xml"@,
    ]
}

/// The base names that mark a documentation file.
pub open spec fn doc_names() -> Seq<Seq<char>> {
    seq![
        "readme"@, "changelog"@, "changes"@, "news"@, "history"@, "license"@, "copying"@,
        "authors"@, "contributors"@, "todo"@, "install"@, "installation"@, "usage"@, "guide"@,
        "tutorial"@, "faq"@, "api"@, "reference"@, "manual"@, "docs"@, "documentation"@,
    ]
}

/// `f` is the name `name`, or starts with it followed by `.`, `_` or `-`.
pub open spec fn matches_doc_name(f: Seq<char>, name: Seq<char>) -> bool {
    ||| f == name
    ||| (name + seq!['.']).is_prefix_of(f)
    ||| (name + seq!['_']).is_prefix_of(f)
    ||| (name + seq!['-']).is_prefix_of(f)
}

/// A lowercase file name that marks documentation: it ends with one of the
/// documentation extensions, or it is one of the documentation names, alone
/// or followed by `.`, `_` or `-`.
pub open spec fn is_doc_file_name(lower: Seq<char>) -> bool {
    ||| exists|i: int| 0 <= i < doc_extensions().len() && #[trigger] doc_extensions()[i].is_suffix_of(lower)
    ||| exists|i: int| 0 <= i < doc_names().len() && matches_doc_name(lower, #[trigger] doc_names()[i])
}

proof fn lemma_ascii_lowercase_concat(a: Seq<char>, b: Seq<char>)
    ensures
        ascii_lowercase(a + b) == ascii_lowercase(a) + ascii_lowercase(b),
{
    assert(ascii_lowercase(a + b) =~= ascii_lowercase(a) + ascii_lowercase(b));
}

/// The naming rules hold whatever the case of their parts (for ASCII
/// names, whose lowercase the standard library's documentation gives): a
/// name that ends with a documentation extension written in any case is
/// documentation, and so is a name that starts with a documentation name
/// written in any case followed by `.`, `_` or `-`, whatever follows.
pub proof fn lemma_doc_name_patterns(s: Seq<char>, ext: Seq<char>, name: Seq<char>, i: int, k: int)
    requires
        0 <= i < doc_extensions().len(),
        ascii_lowercase(ext) == doc_extensions()[i],
        0 <= k < doc_names().len(),
        ascii_lowercase(name) == doc_names()[k],
    ensures
        is_doc_file_name(ascii_lowercase(s + ext)),
        is_doc_file_name(ascii_lowercase(name + seq!['.'] + s)),
        is_doc_file_name(ascii_lowercase(name + seq!['_'] + s)),
        is_doc_file_name(ascii_lowercase(name + seq!['-'] + s)),
{
    let e = doc_extensions()[i];
    let n = doc_names()[k];
    lemma_ascii_lowercase_concat(s, ext);
    let l = ascii_lowercase(s + ext);
    assert(e =~= l.subrange(l.len() - e.len(), l.len() as int));
    assert(e.is_suffix_of(l));
    let ls = ascii_lowercase(s);
    let seps = seq![seq!['.'], seq!['_'], seq!['-']];
    assert forall|j: int| 0 <= j < 3 implies is_doc_file_name(ascii_lowercase(name + #[trigger] seps[j] + s)) by {
        let sep = seps[j];
        lemma_ascii_lowercase_concat(name, sep);
        lemma_ascii_lowercase_concat(name + sep, s);
        assert(ascii_lowercase(sep) =~= sep);
        let f = ascii_lowercase(name + sep + s);
        assert(f == n + sep + ls);
        assert((n + sep) =~= f.subrange(0, (n + sep).len() as int));
        assert(matches_doc_name(f, n));
    }
    assert(seps[0] == seq!['.']);
    assert(seps[1] == seq!['_']);
    assert(seps[2] == seq!['-']);
}

/// `e` ends `s + e`.
proof fn lemma_ends_with(s: Seq<char>, e: Seq<char>)
    ensures
        e.is_suffix_of(s + e),
{
    assert(e =~= (s + e).subrange((s + e).len() - e.len(), (s + e).len() as int));
}

/// `n` followed by `c` starts `n + [c] + s`, so that text is the name `n`
/// followed by `c` when `c` is `.`, `_` or `-`.
proof fn lemma_starts_with(n: Seq<char>, c: char, s: Seq<char>)
    requires
        c == '.' || c == '_' || c == '-',
    ensures
        matches_doc_name(n + seq![c] + s, n),
{
    let f = n + seq![c] + s;
    assert((n + seq![c]) =~= f.subrange(0, (n + seq![c]).len() as int));
}

/// Which lowercase file names are documentation, by value: exactly those
/// that end with one of `.md`, `.mdx`, `.markdown`, `.txt`, `.rst`,
/// `.adoc`, `.asciidoc`, `.org`, `.tex`, `.pdf`, `.html`, `.htm`, `.xml`, or
/// that are one of `readme`, `changelog`, `changes`, `news`, `history`,
/// `license`, `copying`, `authors`, `contributors`, `todo`, `install`,
/// `installation`, `usage`, `guide`, `tutorial`, `faq`, `api`, `reference`,
/// `manual`, `docs`, `documentation`, alone or followed by `.`, `_` or `-`.
pub proof fn lemma_doc_file_names_listed(f: Seq<char>)
    ensures
        is_doc_file_name(f) <==> (".md"@.is_suffix_of(f) || ".mdx"@.is_suffix_of(f) || ".markdown"@.is_suffix_of(f) || ".txt"@.is_suffix_of(f) || ".rst"@.is_suffix_of(f) || ".adoc"@.is_suffix_of(f) || ".asciidoc"@.is_suffix_of(f) || ".org"@.is_suffix_of(f) || ".tex"@.is_suffix_of(f) || ".pdf"@.is_suffix_of(f) || ".html"@.is_suffix_of(f) || ".htm"@.is_suffix_of(f) || ".xml"@.is_suffix_of(f)
            || matches_doc_name(f, "readme"@) || matches_doc_name(f, "changelog"@) || matches_doc_name(f, "changes"@) || matches_doc_name(f, "news"@) || matches_doc_name(f, "history"@) || matches_doc_name(f, "license"@) || matches_doc_name(f, "copying"@) || matches_doc_name(f, "authors"@) || matches_doc_name(f, "contributors"@) || matches_doc_name(f, "todo"@) || matches_doc_name(f, "install"@) || matches_doc_name(f, "installation"@) || matches_doc_name(f, "usage"@) || matches_doc_name(f, "guide"@) || matches_doc_name(f, "tutorial"@) || matches_doc_name(f, "faq"@) || matches_doc_name(f, "api"@) || matches_doc_name(f, "reference"@) || matches_doc_name(f, "manual"@) || matches_doc_name(f, "docs"@) || matches_doc_name(f, "documentation"@)),
{    assert(doc_extensions()[0] == ".md"@);
    assert(doc_extensions()[1] == ".mdx"@);
    assert(doc_extensions()[2] == ".markdown"@);
    assert(doc_extensions()[3] == ".txt"@);
    assert(doc_extensions()[4] == ".rst"@);
    assert(doc_extensions()[5] == ".adoc"@);
    assert(doc_extensions()[6] == ".asciidoc"@);
    assert(doc_extensions()[7] == ".org"@);
    assert(doc_extensions()[8] == ".tex"@);
    assert(doc_extensions()[9] == ".pdf"@);
    assert(doc_extensions()[10] == ".html"@);
    assert(doc_extensions()[11] == ".htm"@);
    assert(doc_extensions()[12] == ".xml"@);
    assert(doc_names()[0] == "readme"@);
    assert(doc_names()[1] == "changelog"@);
    assert(doc_names()[2] == "changes"@);
    assert(doc_names()[3] == "news"@);
    assert(doc_names()[4] == "history"@);
    assert(doc_names()[5] == "license"@);
    assert(doc_names()[6] == "copying"@);
    assert(doc_names()[7] == "authors"@);
    assert(doc_names()[8] == "contributors"@);
    assert(doc_names()[9] == "todo"@);
    assert(doc_names()[10] == "install"@);
    assert(doc_names()[11] == "installation"@);
    assert(doc_names()[12] == "usage"@);
    assert(doc_names()[13] == "guide"@);
    assert(doc_names()[14] == "tutorial"@);
    assert(doc_names()[15] == "faq"@);
    assert(doc_names()[16] == "api"@);
    assert(doc_names()[17] == "reference"@);
    assert(doc_names()[18] == "manual"@);
    assert(doc_names()[19] == "docs"@);
    assert(doc_names()[20] == "documentation"@);
    if exists|i: int| 0 <= i < doc_extensions().len() && #[trigger] doc_extensions()[i].is_suffix_of(f) {
        let i = choose|i: int| 0 <= i < doc_extensions().len() && #[trigger] doc_extensions()[i].is_suffix_of(f);
        if i == 0 {} else if i == 1 {} else if i == 2 {} else if i == 3 {} else if i == 4 {} else if i == 5 {} else if i == 6 {} else if i == 7 {} else if i == 8 {} else if i == 9 {} else if i == 10 {} else if i == 11 {} else if i == 12 {}
    }
    if exists|k: int| 0 <= k < doc_names().len() && matches_doc_name(f, #[trigger] doc_names()[k]) {
        let k = choose|k: int| 0 <= k < doc_names().len() && matches_doc_name(f, #[trigger] doc_names()[k]);
        if k == 0 {} else if k == 1 {} else if k == 2 {} else if k == 3 {} else if k == 4 {} else if k == 5 {} else if k == 6 {} else if k == 7 {} else if k == 8 {} else if k == 9 {} else if k == 10 {} else if k == 11 {} else if k == 12 {} else if k == 13 {} else if k == 14 {} else if k == 15 {} else if k == 16 {} else if k == 17 {} else if k == 18 {} else if k == 19 {} else if k == 20 {}
    }
}

/// Whatever comes before them, each documentation extension makes a
/// documentation file name; whatever follows `.`, `_` or `-`, each
/// documentation name followed by it makes one.
pub proof fn lemma_doc_file_names_extend(s: Seq<char>, c: char)
    requires
        c == '.' || c == '_' || c == '-',
    ensures
        is_doc_file_name(s + ".md"@),
        is_doc_file_name(s + ".mdx"@),
        is_doc_file_name(s + ".markdown"@),
        is_doc_file_name(s + ".txt"@),
        is_doc_file_name(s + ".rst"@),
        is_doc_file_name(s + ".adoc"@),
        is_doc_file_name(s + ".asciidoc"@),
        is_doc_file_name(s + ".org"@),
        is_doc_file_name(s + ".tex"@),
        is_doc_file_name(s + ".pdf"@),
        is_doc_file_name(s + ".html"@),
        is_doc_file_name(s + ".htm"@),
        is_doc_file_name(s + ".xml"@),
        is_doc_file_name("readme"@ + seq![c] + s),
        is_doc_file_name("changelog"@ + seq![c] + s),
        is_doc_file_name("changes"@ + seq![c] + s),
        is_doc_file_name("news"@ + seq![c] + s),
        is_doc_file_name("history"@ + seq![c] + s),
        is_doc_file_name("license"@ + seq![c] + s),
        is_doc_file_name("copying"@ + seq![c] + s),
        is_doc_file_name("authors"@ + seq![c] + s),
        is_doc_file_name("contributors"@ + seq![c] + s),
        is_doc_file_name("todo"@ + seq![c] + s),
        is_doc_file_name("install"@ + seq![c] + s),
        is_doc_file_name("installation"@ + seq![c] + s),
        is_doc_file_name("usage"@ + seq![c] + s),
        is_doc_file_name("guide"@ + seq![c] + s),
        is_doc_file_name("tutorial"@ + seq![c] + s),
        is_doc_file_name("faq"@ + seq![c] + s),
        is_doc_file_name("api"@ + seq![c] + s),
        is_doc_file_name("reference"@ + seq![c] + s),
        is_doc_file_name("manual"@ + seq![c] + s),
        is_doc_file_name("docs"@ + seq![c] + s),
        is_doc_file_name("documentation"@ + seq![c] + s),
{
    lemma_ends_with(s, ".md"@);
    lemma_doc_file_names_listed(s + ".md"@);
    lemma_ends_with(s, ".mdx"@);
    lemma_doc_file_names_listed(s + ".mdx"@);
    lemma_ends_with(s, ".markdown"@);
    lemma_doc_file_names_listed(s + ".markdown"@);
    lemma_ends_with(s, ".txt"@);
    lemma_doc_file_names_listed(s + ".txt"@);
    lemma_ends_with(s, ".rst"@);
    lemma_doc_file_names_listed(s + ".rst"@);
    lemma_ends_with(s, ".adoc"@);
    lemma_doc_file_names_listed(s + ".adoc"@);
    lemma_ends_with(s, ".asciidoc"@);
    lemma_doc_file_names_listed(s + ".asciidoc"@);
    lemma_ends_with(s, ".org"@);
    lemma_doc_file_names_listed(s + ".org"@);
    lemma_ends_with(s, ".tex"@);
    lemma_doc_file_names_listed(s + ".tex"@);
    lemma_ends_with(s, ".pdf"@);
    lemma_doc_file_names_listed(s + ".pdf"@);
    lemma_ends_with(s, ".html"@);
    lemma_doc_file_names_listed(s + ".html"@);
    lemma_ends_with(s, ".htm"@);
    lemma_doc_file_names_listed(s + ".htm"@);
    lemma_ends_with(s, ".xml"@);
    lemma_doc_file_names_listed(s + ".xml"@);
    lemma_starts_with("readme"@, c, s);
    lemma_doc_file_names_listed("readme"@ + seq![c] + s);
    lemma_starts_with("changelog"@, c, s);
    lemma_doc_file_names_listed("changelog"@ + seq![c] + s);
    lemma_starts_with("changes"@, c, s);
    lemma_doc_file_names_listed("changes"@ + seq![c] + s);
    lemma_starts_with("news"@, c, s);
    lemma_doc_file_names_listed("news"@ + seq![c] + s);
    lemma_starts_with("history"@, c, s);
    lemma_doc_file_names_listed("history"@ + seq![c] + s);
    lemma_starts_with("license"@, c, s);
    lemma_doc_file_names_listed("license"@ + seq![c] + s);
    lemma_starts_with("copying"@, c, s);
    lemma_doc_file_names_listed("copying"@ + seq![c] + s);
    lemma_starts_with("authors"@, c, s);
    lemma_doc_file_names_listed("authors"@ + seq![c] + s);
    lemma_starts_with("contributors"@, c, s);
    lemma_doc_file_names_listed("contributors"@ + seq![c] + s);
    lemma_starts_with("todo"@, c, s);
    lemma_doc_file_names_listed("todo"@ + seq![c] + s);
    lemma_starts_with("install"@, c, s);
    lemma_doc_file_names_listed("install"@ + seq![c] + s);
    lemma_starts_with("installation"@, c, s);
    lemma_doc_file_names_listed("installation"@ + seq![c] + s);
    lemma_starts_with("usage"@, c, s);
    lemma_doc_file_names_listed("usage"@ + seq![c] + s);
    lemma_starts_with("guide"@, c, s);
    lemma_doc_file_names_listed("guide"@ + seq![c] + s);
    lemma_starts_with("tutorial"@, c, s);
    lemma_doc_file_names_listed("tutorial"@ + seq![c] + s);
    lemma_starts_with("faq"@, c, s);
    lemma_doc_file_names_listed("faq"@ + seq![c] + s);
    lemma_starts_with("api"@, c, s);
    lemma_doc_file_names_listed("api"@ + seq![c] + s);
    lemma_starts_with("reference"@, c, s);
    lemma_doc_file_names_listed("reference"@ + seq![c] + s);
    lemma_starts_with("manual"@, c, s);
    lemma_doc_file_names_listed("manual"@ + seq![c] + s);
    lemma_starts_with("docs"@, c, s);
    lemma_doc_file_names_listed("docs"@ + seq![c] + s);
    lemma_starts_with("documentation"@, c, s);
    lemma_doc_file_names_listed("documentation"@ + seq![c] + s);
}

/// Whether the file name `f` is `name`, alone or followed by `.`, `_` or `-`.
pub(crate) fn name_matches(f: &Vec<char>, name: &Vec<char>) -> (r: bool)
    ensures
        r == matches_doc_name(f@, name@),
{
    let n = name.len();
    if f.len() < n {
        proof {
            assert(f@ != name@);
        }
        return false;
    }
    let mut i: usize = 0;
    while i < n
        invariant
            n == name.len(),
            n <= f.len(),
            i <= n,
            forall|j: int| 0 <= j < i ==> f@[j] == name@[j],
        decreases n - i,
    {
        if f[i] != name[i] {
            proof {
                assert(f@ != name@);
                assert(!(name@ + seq!['.']).is_prefix_of(f@)) by {
                    assert((name@ + seq!['.'])[i as int] == name@[i as int]);
                }
                assert(!(name@ + seq!['_']).is_prefix_of(f@)) by {
                    assert((name@ + seq!['_'])[i as int] == name@[i as int]);
                }
                assert(!(name@ + seq!['-']).is_prefix_of(f@)) by {
                    assert((name@ + seq!['-'])[i as int] == name@[i as int]);
                }
            }
            return false;
        }
        i += 1;
    }
    if f.len() == n {
        assert(f@ =~= name@);
        return true;
    }
    let c = f[n];
    proof {
        assert(f@ != name@);
        let p = f@.subrange(0, n + 1);
        assert(p =~= name@ + seq![c]);
        assert((name@ + seq!['.']).is_prefix_of(f@) <==> c == '.') by {
            if c == '.' {
                assert(name@ + seq!['.'] =~= p);
            } else {
                assert((name@ + seq!['.'])[n as int] != p[n as int]);
            }
        }
        assert((name@ + seq!['_']).is_prefix_of(f@) <==> c == '_') by {
            if c == '_' {
                assert(name@ + seq!['_'] =~= p);
            } else {
                assert((name@ + seq!['_'])[n as int] != p[n as int]);
            }
        }
        assert((name@ + seq!['-']).is_prefix_of(f@) <==> c == '-') by {
            if c == '-' {
                assert(name@ + seq!['-'] =~= p);
            } else {
                assert((name@ + seq!['-'])[n as int] != p[n as int]);
            }
        }
    }
    c == '.' || c == '_' || c == '-'
}

/// Whether the lowercase file name `lower` marks documentation (see
/// [`is_doc_file_name`]).
pub fn is_documentation_name(lower: &str) -> (r: bool)
    ensures
        r == is_doc_file_name(lower@),
{
    let f = chars_of(lower);
    let exts: Vec<&str> = vec![
        ".md", ".mdx", ".markdown", ".txt", ".rst", ".adoc", ".asciidoc", ".org", ".tex", ".pdf",
        ".html", ".htm", ".xml",
    ];
    assert(exts@.len() == doc_extensions().len());
    let mut i: usize = 0;
    while i < exts.len()
        invariant
            f@ == lower@,
            exts@.len() == doc_extensions().len(),
            forall|j: int| 0 <= j < exts@.len() ==> #[trigger] exts@[j]@ == doc_extensions()[j],
            i <= exts.len(),
            forall|j: int| 0 <= j < i ==> !(#[trigger] doc_extensions()[j]).is_suffix_of(lower@),
        decreases exts.len() - i,
    {
        let e = chars_of(exts[i]);
        if has_suffix(&f, &e) {
            assert(doc_extensions()[i as int].is_suffix_of(lower@));
            return true;
        }
        i += 1;
    }
    let names: Vec<&str> = vec![
        "readme", "changelog", "changes", "news", "history", "license", "copying", "authors",
        "contributors", "todo", "install", "installation", "usage", "guide", "tutorial", "faq",
        "api", "reference", "manual", "docs", "documentation",
    ];
    assert(names@.len() == doc_names().len());
    let mut k: usize = 0;
    while k < names.len()
        invariant
            f@ == lower@,
            forall|j: int| 0 <= j < doc_extensions().len() ==> !(#[trigger] doc_extensions()[j]).is_suffix_of(lower@),
            names@.len() == doc_names().len(),
            forall|j: int| 0 <= j < names@.len() ==> #[trigger] names@[j]@ == doc_names()[j],
            k <= names.len(),
            forall|j: int| 0 <= j < k ==> !matches_doc_name(lower@, #[trigger] doc_names()[j]),
        decreases names.len() - k,
    {
        let nm = chars_of(names[k]);
        if name_matches(&f, &nm) {
            assert(matches_doc_name(lower@, doc_names()[k as int]));
            return true;
        }
        k += 1;
    }
    false
}

/// The relative path `rel` appended to the directory path `base`, as
/// `Path::join` appends a relative path: `rel` alone when `base` is empty,
/// else `base` and `rel` with a `/` between them unless `base` already ends
/// with one.
pub open spec fn join_path(base: Seq<char>, rel: Seq<char>) -> Seq<char> {
    if base.len() == 0 {
        rel
    } else if base.last() == '/' {
        base + rel
    } else {
        base + seq!['/'] + rel
    }
}

/// A file copied while the checkout is scanned keeps its place: its copy
/// target is the output directory joined with the path that its record
/// carries, and that path, and the file's path below the scanned directory,
/// both end the copy target.
pub proof fn lemma_copy_keeps_place(
    output_dir: Seq<char>,
    docs_dir: Seq<char>,
    relative_path: Seq<char>,
    record_path: Seq<char>,
    target: Seq<char>,
)
    requires
        record_path == join_path(docs_dir, relative_path),
        target == join_path(output_dir, join_path(docs_dir, relative_path)),
    ensures
        target == join_path(output_dir, record_path),
        record_path.is_suffix_of(target),
        relative_path.is_suffix_of(target),
{
    lemma_join_path_suffix(output_dir, record_path);
    lemma_join_path_suffix(docs_dir, relative_path);
    assert(relative_path =~= target.subrange(
        target.len() - relative_path.len(),
        target.len() as int,
    )) by {
        assert forall|k: int| 0 <= k < relative_path.len() implies relative_path[k] == target[target.len()
            - relative_path.len() + k] by {
            assert(relative_path[k] == record_path[record_path.len() - relative_path.len() + k]);
            assert(record_path[record_path.len() - relative_path.len() + k] == target[target.len()
                - record_path.len() + (record_path.len() - relative_path.len() + k)]);
        }
    }
}

proof fn lemma_join_path_suffix(base: Seq<char>, rel: Seq<char>)
    ensures
        rel.is_suffix_of(join_path(base, rel)),
{
    let j = join_path(base, rel);
    assert(rel =~= j.subrange(j.len() - rel.len(), j.len() as int));
}

/// The relative path `rel` appended to `base` (see [`join_path`]).
pub fn join_path_exec(base: &str, rel: &str) -> (r: String)
    ensures
        r@ == join_path(base@, rel@),
{
    let b = chars_of(base);
    let mut s = String::from_str(base);
    if b.len() > 0 && b[b.len() - 1] != '/' {
        proof {
            reveal_strlit("/");
        }
        s.append("/");
    }
    s.append(rel);
    s
}

/// The address git clones `owner/name` from.
pub open spec fn clone_url(owner: Seq<char>, name: Seq<char>) -> Seq<char> {
    "https://github.com/"@ + owner + "/"@ + name + ".git"@
}

/// What the sparse-checkout file holds to check out the directory `dir`:
/// everything under it.
pub open spec fn sparse_pattern(dir: Seq<char>) -> Seq<char> {
    dir + "/*\n"@
}

/// The arguments git clones with: no checkout, depth 1, the branch (or
/// tag) when one is named, then the address `url`.
pub open spec fn clone_args(url: Seq<char>, branch: Option<Seq<char>>) -> Seq<Seq<char>> {
    match branch {
        Some(b) => seq!["clone"@, "--no-checkout"@, "--depth"@, "1"@, "--branch"@, b, url],
        None => seq!["clone"@, "--no-checkout"@, "--depth"@, "1"@, url],
    }
}

/// The clone command as a failure reports it: `git` and the arguments of
/// [`clone_args`], separated by spaces.
pub open spec fn clone_command(url: Seq<char>, branch: Option<Seq<char>>) -> Seq<char> {
    match branch {
        Some(b) => "git clone --no-checkout --depth 1 "@ + "--branch "@ + b + " "@ + url,
        None => "git clone --no-checkout --depth 1 "@ + url,
    }
}

/// The report printed once the files are known (see [`summary_text`]):
/// when only listing, the summary; else that the download is complete, how
/// many files went to which directory, then the summary.
pub open spec fn download_report_text(config: DownloadConfig, files: Seq<DocumentationFile>) -> Seq<char> {
    if config.list_only {
        summary_text(files)
    } else {
        "\nDownload complete!\n  Downloaded "@ + decimal(files.len()) + " files to "@
            + config.output_dir@ + "\n"@ + summary_text(files)
    }
}

/// Where the git work for one documentation directory stands.
#[derive(Debug, Clone, Copy, PartialEq, Eq, Structural)]
pub enum CheckoutStep {
    /// Nothing has run yet.
    Start,
    /// The clone without checkout is running.
    Cloning,
    /// Sparse checkout is being enabled.
    EnablingSparse,
    /// The sparse-checkout paths are being written.
    WritingPaths,
    /// The checkout of the selected paths is running.
    CheckingOut,
    /// The directory has been checked out and is to be scanned.
    Done,
}

/// What happened since the last step.
#[derive(Debug)]
pub enum CheckoutEvent {
    /// The work begins.
    Begin,
    /// The git command finished; `stderr` is what it wrote to standard error.
    GitFinished { success: bool, stderr: String },
    /// The sparse-checkout paths were written.
    PathsWritten,
}

/// What to do next.
#[derive(Debug)]
pub enum CheckoutAction {
    /// Run git with `args`, in the temporary directory (`in_clone` false)
    /// or in the cloned repository (`in_clone` true).
    RunGit { args: Vec<String>, in_clone: bool },
    /// Write `contents` to `.git/info/sparse-checkout` in the cloned repository.
    WriteSparsePaths { contents: String },
    /// Walk the directory `path` of the cloned repository for documentation files.
    ScanDirectory { path: String },
}

/// The event `event` is one that can follow the step `step`: the beginning
/// at the start, the end of a git command while one runs, the written paths
/// while they are written.
pub open spec fn event_fits(step: CheckoutStep, event: CheckoutEvent) -> bool {
    match step {
        CheckoutStep::Start => event is Begin,
        CheckoutStep::Cloning => event is GitFinished,
        CheckoutStep::EnablingSparse => event is GitFinished,
        CheckoutStep::WritingPaths => event is PathsWritten,
        CheckoutStep::CheckingOut => event is GitFinished,
        CheckoutStep::Done => false,
    }
}

/// `action` runs git with the arguments `args` in the place `in_clone` says.
pub open spec fn runs_git(action: CheckoutAction, args: Seq<Seq<char>>, in_clone: bool) -> bool {
    action matches CheckoutAction::RunGit { args: a, in_clone: c } && a.deep_view() == args && c
        == in_clone
}

/// `r` fails with the git error for `command` and the standard error of the
/// event `event`.
pub open spec fn git_failure(
    r: Result<(CheckoutStep, CheckoutAction), GitHubDocsError>,
    command: Seq<char>,
    event: CheckoutEvent,
) -> bool {
    r matches Err(GitHubDocsError::GitOperationFailed { command: c, stderr: s }) && c@ == command
        && s@ == event->stderr@
}

/// The step that follows `step` on `event` when the repository is cloned
/// from `url` at `branch` (its default branch when none is named) and the
/// directory `dir` is wanted: clone without checkout at depth 1, enable
/// sparse checkout, write the sparse paths, check out, scan; a failed git
/// command ends the work with the command and its standard error.
pub open spec fn checkout_transition(
    url: Seq<char>,
    branch: Option<Seq<char>>,
    dir: Seq<char>,
    step: CheckoutStep,
    event: CheckoutEvent,
    r: Result<(CheckoutStep, CheckoutAction), GitHubDocsError>,
) -> bool {
    match step {
        CheckoutStep::Start => r is Ok && r->Ok_0.0 == CheckoutStep::Cloning && runs_git(
            r->Ok_0.1,
            clone_args(url, branch),
            false,
        ),
        CheckoutStep::Cloning => if event->success {
            r is Ok && r->Ok_0.0 == CheckoutStep::EnablingSparse && runs_git(
                r->Ok_0.1,
                seq!["config"@, "core.sparseCheckout"@, "true"@],
                true,
            )
        } else {
            git_failure(r, clone_command(url, branch), event)
        },
        CheckoutStep::EnablingSparse => if event->success {
            &&& r is Ok
            &&& r->Ok_0.0 == CheckoutStep::WritingPaths
            &&& r->Ok_0.1 matches CheckoutAction::WriteSparsePaths { contents }
            &&& r->Ok_0.1->contents@ == sparse_pattern(dir)
        } else {
            git_failure(r, "git config core.sparseCheckout true"@, event)
        },
        CheckoutStep::WritingPaths => r is Ok && r->Ok_0.0 == CheckoutStep::CheckingOut && runs_git(
            r->Ok_0.1,
            seq!["checkout"@],
            true,
        ),
        CheckoutStep::CheckingOut => if event->success {
            &&& r is Ok
            &&& r->Ok_0.0 == CheckoutStep::Done
            &&& r->Ok_0.1 matches CheckoutAction::ScanDirectory { path }
            &&& r->Ok_0.1->path@ == dir
        } else {
            git_failure(r, "git checkout"@, event)
        },
        CheckoutStep::Done => false,
    }
}

/// When every git command succeeds, fetching a directory runs exactly the
/// documented sparse checkout: `git clone --no-checkout --depth 1 <url>`
/// (with `--branch <branch>` when a branch is named) in the temporary
/// directory, then `git config core.sparseCheckout true` in the
/// clone, then the sparse paths `<dir>/*` are written, then `git checkout`
/// in the clone, and then the directory is scanned.
pub proof fn lemma_successful_checkout(
    url: Seq<char>,
    branch: Option<Seq<char>>,
    dir: Seq<char>,
    r1: Result<(CheckoutStep, CheckoutAction), GitHubDocsError>,
    r2: Result<(CheckoutStep, CheckoutAction), GitHubDocsError>,
    r3: Result<(CheckoutStep, CheckoutAction), GitHubDocsError>,
    r4: Result<(CheckoutStep, CheckoutAction), GitHubDocsError>,
    r5: Result<(CheckoutStep, CheckoutAction), GitHubDocsError>,
    e2: String,
    e3: String,
    e5: String,
)
    requires
        checkout_transition(url, branch, dir, CheckoutStep::Start, CheckoutEvent::Begin, r1),
        r1 is Ok ==> checkout_transition(
            url,
            branch,
            dir,
            r1->Ok_0.0,
            CheckoutEvent::GitFinished { success: true, stderr: e2 },
            r2,
        ),
        r2 is Ok ==> checkout_transition(
            url,
            branch,
            dir,
            r2->Ok_0.0,
            CheckoutEvent::GitFinished { success: true, stderr: e3 },
            r3,
        ),
        r3 is Ok ==> checkout_transition(url, branch, dir, r3->Ok_0.0, CheckoutEvent::PathsWritten, r4),
        r4 is Ok ==> checkout_transition(
            url,
            branch,
            dir,
            r4->Ok_0.0,
            CheckoutEvent::GitFinished { success: true, stderr: e5 },
            r5,
        ),
    ensures
        r1 is Ok && runs_git(r1->Ok_0.1, clone_args(url, branch), false),
        r2 is Ok && runs_git(r2->Ok_0.1, seq!["config"@, "core.sparseCheckout"@, "true"@], true),
        r3 is Ok,
        r3->Ok_0.1 is WriteSparsePaths,
        r3->Ok_0.1->contents@ == sparse_pattern(dir),
        r4 is Ok && runs_git(r4->Ok_0.1, seq!["checkout"@], true),
        r5 is Ok,
        r5->Ok_0.0 == CheckoutStep::Done,
        r5->Ok_0.1 is ScanDirectory,
        r5->Ok_0.1->path@ == dir,
{
}

/// Configuration for the documentation downloader.
#[derive(Debug)]
pub struct DownloadConfig {
    /// Output directory for downloaded files
    pub output_dir: String,
    /// Whether to only list files without downloading
    pub list_only: bool,
    /// Whether to include subdirectories recursively
    pub recursive: bool,
    /// Specific path within repository to download
    pub target_path: String,
    /// The branch or tag to download from; the repository's default branch
    /// when none is named
    pub branch: Option<String>,
}

impl Default for DownloadConfig {
    /// Output to `downloads`, download (not only list), recursively, from
    /// `docs` on the default branch.
    fn default() -> (r: Self)
        ensures
            r.output_dir@ == "downloads"@,
            !r.list_only,
            r.recursive,
            r.target_path@ == "docs"@,
            r.branch is None,
    {
        DownloadConfig {
            output_dir: String::from_str("downloads"),
            list_only: false,
            recursive: true,
            target_path: String::from_str("docs"),
            branch: None,
        }
    }
}

impl Clone for DownloadConfig {
    fn clone(&self) -> (r: Self)
        ensures
            r.output_dir@ == self.output_dir@,
            r.list_only == self.list_only,
            r.recursive == self.recursive,
            r.target_path@ == self.target_path@,
            r.branch.deep_view() == self.branch.deep_view(),
    {
        let branch = match &self.branch {
            Some(b) => Some(b.clone()),
            None => None,
        };
        DownloadConfig {
            output_dir: self.output_dir.clone(),
            list_only: self.list_only,
            recursive: self.recursive,
            target_path: self.target_path.clone(),
            branch,
        }
    }
}

/// Documentation downloader for one repository, using git sparse checkout.
pub struct GitHubDocsDownloader {
    repo: RepoSpec,
    config: DownloadConfig,
}

impl GitHubDocsDownloader {
    /// The repository this downloader reads.
    pub closed spec fn spec_repo(&self) -> RepoSpec {
        self.repo
    }

    /// The configuration this downloader follows.
    pub closed spec fn spec_config(&self) -> DownloadConfig {
        self.config
    }

    /// Create a documentation downloader.
    pub fn new(repo: RepoSpec, config: DownloadConfig) -> (r: Self)
        ensures
            r.spec_repo() == repo,
            r.spec_config() == config,
    {
        GitHubDocsDownloader { repo, config }
    }

    /// The documentation directories to scan: the configured target path alone.
    pub fn find_docs_directories(&self) -> (r: Result<Vec<DocsDirectory>, crate::error::GitHubDocsError>)
        ensures
            r matches Ok(dirs) && dirs@.len() == 1 && dirs@[0]@ == self.spec_config().target_path@,
    {
        let mut dirs = Vec::new();
        dirs.push(DocsDirectory::new(self.config.target_path.clone()));
        Ok(dirs)
    }

    /// Whether a file of this name is documentation: its lowercase (as
    /// `str::to_lowercase` makes it; for an ASCII name, the name with its
    /// capital letters made small) is a documentation name (see
    /// [`is_doc_file_name`] and [`lemma_doc_name_patterns`]).
    pub fn is_documentation_file(filename: &str) -> (r: bool)
        ensures
            r == is_doc_file_name(unicode_lowercase(filename@)),
            is_ascii_text(filename@) ==> r == is_doc_file_name(ascii_lowercase(filename@)),
    {
        let lower = to_lowercase(filename);
        is_documentation_name(lower.as_str())
    }

    /// The address the repository is cloned from.
    pub fn clone_url(&self) -> (r: String)
        ensures
            r@ == clone_url(self.spec_repo().owner@, self.spec_repo().name@),
    {
        let mut s = String::from_str("https://github.com/");
        s.append(self.repo.owner.as_str());
        s.append("/");
        s.append(self.repo.name.as_str());
        s.append(".git");
        s
    }

    /// The arguments git clones the repository from `url` with (see
    /// [`clone_args`]).
    fn clone_arguments(&self, url: String) -> (r: Vec<String>)
        ensures
            r.deep_view() == clone_args(url@, self.spec_config().branch.deep_view()),
    {
        let mut args = vec![
            String::from_str("clone"),
            String::from_str("--no-checkout"),
            String::from_str("--depth"),
            String::from_str("1"),
        ];
        match &self.config.branch {
            Some(b) => {
                args.push(String::from_str("--branch"));
                args.push(b.clone());
            },
            None => {},
        }
        args.push(url);
        assert(args.deep_view() =~= clone_args(url@, self.spec_config().branch.deep_view()));
        args
    }

    /// The clone command from `url` as a failure reports it (see
    /// [`clone_command`]).
    fn clone_command(&self, url: &str) -> (r: String)
        ensures
            r@ == clone_command(url@, self.spec_config().branch.deep_view()),
    {
        let mut command = String::from_str("git clone --no-checkout --depth 1 ");
        match &self.config.branch {
            Some(b) => {
                command.append("--branch ");
                command.append(b.as_str());
                command.append(" ");
            },
            None => {},
        }
        command.append(url);
        command
    }

    /// The next step of fetching the documentation directory `docs_dir` by
    /// sparse checkout, given where the work stands and what just happened
    /// (see [`checkout_transition`]).
    pub fn checkout_step(
        &self,
        docs_dir: &DocsDirectory,
        step: CheckoutStep,
        event: CheckoutEvent,
    ) -> (r: Result<(CheckoutStep, CheckoutAction), GitHubDocsError>)
        requires
            event_fits(step, event),
        ensures
            checkout_transition(
                clone_url(self.spec_repo().owner@, self.spec_repo().name@),
                self.spec_config().branch.deep_view(),
                docs_dir@,
                step,
                event,
                r,
            ),
    {
        let url = self.clone_url();
        match step {
            CheckoutStep::Start => {
                let args = self.clone_arguments(url);
                Ok((CheckoutStep::Cloning, CheckoutAction::RunGit { args, in_clone: false }))
            },
            CheckoutStep::Cloning => {
                let (success, stderr) = match event {
                    CheckoutEvent::GitFinished { success, stderr } => (success, stderr),
                    _ => (false, String::new()),
                };
                if success {
                    let args = vec![
                        String::from_str("config"),
                        String::from_str("core.sparseCheckout"),
                        String::from_str("true"),
                    ];
                    assert(args.deep_view() =~= seq!["config"@, "core.sparseCheckout"@, "true"@]);
                    Ok(
                        (CheckoutStep::EnablingSparse, CheckoutAction::RunGit { args, in_clone: true }),
                    )
                } else {
                    let command = self.clone_command(url.as_str());
                    Err(GitHubDocsError::git_operation_failed(command, stderr))
                }
            },
            CheckoutStep::EnablingSparse => {
                let (success, stderr) = match event {
                    CheckoutEvent::GitFinished { success, stderr } => (success, stderr),
                    _ => (false, String::new()),
                };
                if success {
                    let mut contents = String::from_str(docs_dir.as_str());
                    contents.append("/*\n");
                    Ok((CheckoutStep::WritingPaths, CheckoutAction::WriteSparsePaths { contents }))
                } else {
                    let command = String::from_str("git config core.sparseCheckout true");
                    Err(GitHubDocsError::git_operation_failed(command, stderr))
                }
            },
            CheckoutStep::WritingPaths => {
                let args = vec![String::from_str("checkout")];
                assert(args.deep_view() =~= seq!["checkout"@]);
                Ok((CheckoutStep::CheckingOut, CheckoutAction::RunGit { args, in_clone: true }))
            },
            CheckoutStep::CheckingOut => {
                let (success, stderr) = match event {
                    CheckoutEvent::GitFinished { success, stderr } => (success, stderr),
                    _ => (false, String::new()),
                };
                if success {
                    let path = String::from_str(docs_dir.as_str());
                    Ok((CheckoutStep::Done, CheckoutAction::ScanDirectory { path }))
                } else {
                    Err(GitHubDocsError::git_operation_failed(String::from_str("git checkout"), stderr))
                }
            },
            CheckoutStep::Done => {
                Err(GitHubDocsError::git_operation_failed(String::new(), String::new()))
            },
        }
    }

    /// Where the documentation file at `relative_path` below the
    /// documentation directory `docs_dir` is copied while the checkout is
    /// scanned, keeping the repository's directory structure: the output
    /// directory joined with the file's path in the repository; none when
    /// only listing.
    pub fn copy_target(&self, docs_dir: &DocsDirectory, relative_path: &str) -> (r: Option<String>)
        ensures
            self.spec_config().list_only ==> r is None,
            !self.spec_config().list_only ==> (r matches Some(d) && d@ == join_path(
                self.spec_config().output_dir@,
                join_path(docs_dir@, relative_path@),
            )),
    {
        if self.config.list_only {
            None
        } else {
            let in_repo = join_path_exec(docs_dir.as_str(), relative_path);
            Some(join_path_exec(self.config.output_dir.as_str(), in_repo.as_str()))
        }
    }

    /// How deep the scan of a checked-out directory goes: without limit when
    /// subdirectories are included, else only the directory's own files.
    pub fn scan_depth_limit(&self) -> (r: Option<usize>)
        ensures
            self.spec_config().recursive ==> r is None,
            !self.spec_config().recursive ==> r == Some(1usize),
    {
        if self.config.recursive {
            None
        } else {
            Some(1)
        }
    }

    /// The record of a documentation file named `file_name`, of `size`
    /// bytes, found at `relative_path` below the documentation directory
    /// `docs_dir`: its path within the repository is the directory joined
    /// with the relative path, and its download address is
    /// `file://downloaded`, which has no meaning once git has fetched the file.
    pub fn documentation_entry(
        &self,
        docs_dir: &DocsDirectory,
        relative_path: &str,
        file_name: &str,
        size: u64,
    ) -> (r: Result<DocumentationFile, GitHubDocsError>)
        ensures
            r is Ok == url_parses("file://downloaded"@),
            r matches Ok(f) ==> {
                &&& f.name@ == file_name@
                &&& f.path@ == join_path(docs_dir@, relative_path@)
                &&& f.download_url@ == url_serialization("file://downloaded"@)
                &&& f.size@ == size
                &&& f.docs_directory@ == docs_dir@
            },
            r matches Err(e) ==> e is UrlParseError,
    {
        let download_url = match DownloadUrl::parse("file://downloaded") {
            Ok(u) => u,
            Err(e) => {
                return Err(GitHubDocsError::UrlParseError(e));
            },
        };
        Ok(DocumentationFile {
            name: FileName::new(String::from_str(file_name)),
            path: FilePath::new(join_path_exec(docs_dir.as_str(), relative_path)),
            download_url,
            size: FileSizeBytes::new(size),
            docs_directory: docs_dir.clone(),
        })
    }

    /// What scanning the checkout does with a file named `file_name`,
    /// found at `relative_path` below the documentation directory
    /// `docs_dir`, whose size the file system gave as `size`: nothing when
    /// the name is not documentation (whatever became of the size); the
    /// size's error when it could not be had; else the file's record (see
    /// [`Self::documentation_entry`]) and where it is copied (see
    /// [`Self::copy_target`]).
    pub fn scan_entry(
        &self,
        docs_dir: &DocsDirectory,
        relative_path: &str,
        file_name: &str,
        size: Result<u64, GitHubDocsError>,
    ) -> (r: Result<Option<(DocumentationFile, Option<String>)>, GitHubDocsError>)
        ensures
            !is_doc_file_name(unicode_lowercase(file_name@)) ==> r matches Ok(None),
            is_doc_file_name(unicode_lowercase(file_name@)) && size is Err ==> r == Err::<
                Option<(DocumentationFile, Option<String>)>,
                GitHubDocsError,
            >(size->Err_0),
            is_doc_file_name(unicode_lowercase(file_name@)) && size is Ok && !url_parses(
                "file://downloaded"@,
            ) ==> (r matches Err(e) && e is UrlParseError),
            is_doc_file_name(unicode_lowercase(file_name@)) && size is Ok && url_parses(
                "file://downloaded"@,
            ) ==> (r matches Ok(Some((f, target))) && {
                &&& f.name@ == file_name@
                &&& f.path@ == join_path(docs_dir@, relative_path@)
                &&& f.download_url@ == url_serialization("file://downloaded"@)
                &&& f.size@ == size->Ok_0
                &&& f.docs_directory@ == docs_dir@
                &&& self.spec_config().list_only ==> target is None
                &&& !self.spec_config().list_only ==> (target matches Some(d) && d@ == join_path(
                    self.spec_config().output_dir@,
                    join_path(docs_dir@, relative_path@),
                ))
            }),
    {
        if !Self::is_documentation_file(file_name) {
            return Ok(None);
        }
        let bytes = match size {
            Ok(n) => n,
            Err(e) => {
                return Err(e);
            },
        };
        let target = self.copy_target(docs_dir, relative_path);
        match self.documentation_entry(docs_dir, relative_path, file_name, bytes) {
            Ok(f) => Ok(Some((f, target))),
            Err(e) => Err(e),
        }
    }

    /// The report to print about `files` once they are known (see
    /// [`download_report_text`]); the files themselves were copied while
    /// the checkout was scanned. The total size must fit in 64 bits.
    pub fn download_files(&self, files: &[DocumentationFile]) -> (r: String)
        requires
            total_bytes(files@) <= u64::MAX,
        ensures
            r@ == download_report_text(self.spec_config(), files@),
    {
        if self.config.list_only {
            return file_summary_text(files);
        }
        let mut s = String::from_str("\nDownload complete!\n  Downloaded ");
        s.append(decimal_text(files.len() as u128).as_str());
        s.append(" files to ");
        s.append(self.config.output_dir.as_str());
        s.append("\n");
        s.append(file_summary_text(files).as_str());
        s
    }

    /// The repository specification.
    pub fn repo(&self) -> (r: &RepoSpec)
        ensures
            *r == self.spec_repo(),
    {
        &self.repo
    }
}

} // verus!
