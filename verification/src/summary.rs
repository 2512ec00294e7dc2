//! Summaries of the documentation files found: how many, how large, and
//! how they divide among the documentation directories.

use vstd::prelude::*;
use vstd::string::*;
use crate::text::{decimal, decimal_text, text_eq};
use crate::types::DocumentationFile;

verus! {

/// The total size in bytes of `files`.
pub open spec fn total_bytes(files: Seq<DocumentationFile>) -> nat
    decreases files.len(),
{
    if files.len() == 0 {
        0
    } else {
        total_bytes(files.drop_last()) + files.last().size@ as nat
    }
}

/// How many of `files` belong to the directory `dir`.
pub open spec fn files_in(files: Seq<DocumentationFile>, dir: Seq<char>) -> nat
    decreases files.len(),
{
    if files.len() == 0 {
        0
    } else {
        files_in(files.drop_last(), dir) + if files.last().docs_directory@ == dir {
            1nat
        } else {
            0nat
        }
    }
}

/// The total size in bytes of those of `files` that belong to the directory `dir`.
pub open spec fn bytes_in(files: Seq<DocumentationFile>, dir: Seq<char>) -> nat
    decreases files.len(),
{
    if files.len() == 0 {
        0
    } else {
        bytes_in(files.drop_last(), dir) + if files.last().docs_directory@ == dir {
            files.last().size@ as nat
        } else {
            0nat
        }
    }
}

/// The directories of `files`, each once, in the order of their first file.
pub open spec fn directories_of(files: Seq<DocumentationFile>) -> Seq<Seq<char>>
    decreases files.len(),
{
    if files.len() == 0 {
        Seq::empty()
    } else {
        let prev = directories_of(files.drop_last());
        let d = files.last().docs_directory@;
        if prev.contains(d) {
            prev
        } else {
            prev.push(d)
        }
    }
}

/// How many files of one directory were found, and how large they are.
#[derive(Debug)]
pub struct DirectorySummary {
    /// The documentation directory.
    pub directory: String,
    /// How many files belong to it.
    pub files: usize,
    /// Their total size in bytes.
    pub bytes: u64,
}

/// How many documentation files were found, how large they are, and how
/// they divide among their directories.
#[derive(Debug)]
pub struct FileSummary {
    /// How many files there are.
    pub total_files: usize,
    /// Their total size in bytes.
    pub total_bytes: u64,
    /// One entry per directory, in the order of each directory's first file.
    pub by_directory: Vec<DirectorySummary>,
}

/// `summary` is the summary of `files`.
pub open spec fn summarizes(summary: FileSummary, files: Seq<DocumentationFile>) -> bool {
    &&& summary.total_files == files.len()
    &&& summary.total_bytes == total_bytes(files)
    &&& summary.by_directory@.len() == directories_of(files).len()
    &&& forall|k: int|
        0 <= k < summary.by_directory@.len() ==> {
            let g = #[trigger] summary.by_directory@[k];
            &&& g.directory@ == directories_of(files)[k]
            &&& g.files == files_in(files, g.directory@)
            &&& g.bytes == bytes_in(files, g.directory@)
        }
}

proof fn lemma_prefix_sums(files: Seq<DocumentationFile>, i: int, dir: Seq<char>)
    requires
        0 <= i <= files.len(),
    ensures
        total_bytes(files.take(i)) <= total_bytes(files),
        bytes_in(files, dir) <= total_bytes(files),
        files_in(files, dir) <= files.len(),
    decreases files.len(),
{
    if files.len() > 0 {
        let p = files.drop_last();
        if i == files.len() {
            assert(files.take(i) =~= files);
        } else {
            assert(files.take(i) =~= p.take(i));
            lemma_prefix_sums(p, i, dir);
        }
        lemma_prefix_sums(p, 0, dir);
    }
}

/// The summary names each directory once, and exactly the directories that
/// the files belong to.
pub proof fn lemma_directories_distinct(files: Seq<DocumentationFile>)
    ensures
        directories_of(files).no_duplicates(),
        forall|d: Seq<char>| directories_of(files).contains(d) <==> exists|j: int|
            0 <= j < files.len() && (#[trigger] files[j]).docs_directory@ == d,
    decreases files.len(),
{
    if files.len() > 0 {
        let p = files.drop_last();
        lemma_directories_distinct(p);
        let dl = files.last().docs_directory@;
        assert forall|d: Seq<char>| directories_of(files).contains(d) <==> exists|j: int|
            0 <= j < files.len() && (#[trigger] files[j]).docs_directory@ == d by {
            if directories_of(files).contains(d) {
                if directories_of(p).contains(d) {
                    let j = choose|j: int| 0 <= j < p.len() && (#[trigger] p[j]).docs_directory@ == d;
                    assert(files[j] == p[j]);
                } else {
                    assert(files[files.len() - 1] == files.last());
                }
            }
            if exists|j: int| 0 <= j < files.len() && (#[trigger] files[j]).docs_directory@ == d {
                let j = choose|j: int| 0 <= j < files.len() && (#[trigger] files[j]).docs_directory@ == d;
                if j < files.len() - 1 {
                    assert(p[j] == files[j]);
                    assert(directories_of(p).contains(d));
                } else {
                    assert(d == dl);
                }
                if !directories_of(p).contains(dl) {
                    assert(directories_of(files) == directories_of(p).push(dl));
                    if d != dl {
                        let k = choose|k: int| 0 <= k < directories_of(p).len() && directories_of(p)[k] == d;
                        assert(directories_of(files)[k] == d);
                    } else {
                        assert(directories_of(files)[directories_of(p).len() as int] == d);
                    }
                }
            }
        }
    }
}

proof fn lemma_absent_dir(files: Seq<DocumentationFile>, dir: Seq<char>)
    requires
        !directories_of(files).contains(dir),
    ensures
        files_in(files, dir) == 0,
        bytes_in(files, dir) == 0,
    decreases files.len(),
{
    if files.len() > 0 {
        let p = directories_of(files.drop_last());
        if p.contains(dir) {
            let j = choose|j: int| 0 <= j < p.len() && p[j] == dir;
            if !p.contains(files.last().docs_directory@) {
                assert(directories_of(files)[j] == dir);
            }
        }
        if files.last().docs_directory@ == dir {
            if p.contains(dir) {
            } else {
                assert(directories_of(files)[p.len() as int] == dir);
            }
        }
        lemma_absent_dir(files.drop_last(), dir);
    }
}

fn find_group(groups: &Vec<DirectorySummary>, dir: &str) -> (r: Option<usize>)
    ensures
        r matches Some(k) ==> k < groups@.len() && groups@[k as int].directory@ == dir@,
        r is None ==> forall|j: int| 0 <= j < groups@.len() ==> (#[trigger] groups@[j]).directory@ != dir@,
{
    let mut k: usize = 0;
    while k < groups.len()
        invariant
            k <= groups.len(),
            forall|j: int| 0 <= j < k ==> (#[trigger] groups@[j]).directory@ != dir@,
        decreases groups.len() - k,
    {
        if text_eq(groups[k].directory.as_str(), dir) {
            return Some(k);
        }
        k += 1;
    }
    None
}

/// Summarize `files`: their number and total size, and per directory (in
/// the order of each directory's first file) the number and total size of
/// its files. The total size must fit in 64 bits.
pub fn summarize_files(files: &[DocumentationFile]) -> (r: FileSummary)
    requires
        total_bytes(files@) <= u64::MAX,
    ensures
        summarizes(r, files@),
{
    let ghost fs = files@;
    let mut groups: Vec<DirectorySummary> = Vec::new();
    let mut total: u64 = 0;
    let mut i: usize = 0;
    while i < files.len()
        invariant
            fs == files@,
            total_bytes(fs) <= u64::MAX,
            i <= files.len(),
            total == total_bytes(fs.take(i as int)),
            groups@.len() == directories_of(fs.take(i as int)).len(),
            forall|k: int|
                0 <= k < groups@.len() ==> {
                    let g = #[trigger] groups@[k];
                    &&& g.directory@ == directories_of(fs.take(i as int))[k]
                    &&& g.files == files_in(fs.take(i as int), g.directory@)
                    &&& g.bytes == bytes_in(fs.take(i as int), g.directory@)
                },
        decreases files.len() - i,
    {
        let ghost before = fs.take(i as int);
        let ghost after = fs.take(i + 1);
        assert(after.drop_last() =~= before);
        assert(after.last() == files[i as int]);
        let f = &files[i];
        let size = f.size.bytes();
        proof {
            lemma_prefix_sums(fs, i + 1, f.docs_directory@);
            lemma_prefix_sums(after, i + 1, f.docs_directory@);
            lemma_prefix_sums(before, i as int, f.docs_directory@);
        }
        let d = f.docs_directory.as_str();
        proof {
            lemma_directories_distinct(before);
            assert(groups@.map_values(|g: DirectorySummary| g.directory@) =~= directories_of(before));
        }
        match find_group(&groups, d) {
            Some(k) => {
                assert(directories_of(before).contains(d@)) by {
                    assert(directories_of(before)[k as int] == d@);
                }
                assert(directories_of(after) == directories_of(before));
                let ghost old_groups = groups@;
                let g = DirectorySummary {
                    directory: groups[k].directory.clone(),
                    files: groups[k].files + 1,
                    bytes: groups[k].bytes + size,
                };
                groups.set(k, g);
                assert forall|j: int| 0 <= j < groups@.len() implies {
                    let g = #[trigger] groups@[j];
                    &&& g.directory@ == directories_of(after)[j]
                    &&& g.files == files_in(after, g.directory@)
                    &&& g.bytes == bytes_in(after, g.directory@)
                } by {
                    if j != k {
                        assert(old_groups[j] == groups@[j]);
                        assert(directories_of(before)[j] != directories_of(before)[k as int]);
                    }
                }
            },
            None => {
                assert(!directories_of(before).contains(d@)) by {
                    if directories_of(before).contains(d@) {
                        let j = choose|j: int| 0 <= j < directories_of(before).len() && directories_of(before)[j] == d@;
                        assert(groups@[j].directory@ == d@);
                    }
                }
                assert(directories_of(after) == directories_of(before).push(d@));
                let ghost old_groups = groups@;
                groups.push(DirectorySummary { directory: String::from_str(d), files: 1, bytes: size });
                assert forall|j: int| 0 <= j < groups@.len() implies {
                    let g = #[trigger] groups@[j];
                    &&& g.directory@ == directories_of(after)[j]
                    &&& g.files == files_in(after, g.directory@)
                    &&& g.bytes == bytes_in(after, g.directory@)
                } by {
                    if j < old_groups.len() {
                        assert(old_groups[j] == groups@[j]);
                        assert(directories_of(before)[j] != d@);
                    } else {
                        assert(files_in(before, d@) == 0) by {
                            lemma_absent_dir(before, d@);
                        }
                        assert(bytes_in(before, d@) == 0) by {
                            lemma_absent_dir(before, d@);
                        }
                    }
                }
            },
        }
        total = total + size;
        i += 1;
    }
    assert(fs.take(files.len() as int) =~= fs);
    FileSummary { total_files: files.len(), total_bytes: total, by_directory: groups }
}

/// The sum of the file counts of `groups`.
pub open spec fn group_files_sum(groups: Seq<DirectorySummary>) -> nat
    decreases groups.len(),
{
    if groups.len() == 0 {
        0
    } else {
        group_files_sum(groups.drop_last()) + groups.last().files as nat
    }
}

/// The sum of the byte counts of `groups`.
pub open spec fn group_bytes_sum(groups: Seq<DirectorySummary>) -> nat
    decreases groups.len(),
{
    if groups.len() == 0 {
        0
    } else {
        group_bytes_sum(groups.drop_last()) + groups.last().bytes as nat
    }
}

spec fn files_over(dirs: Seq<Seq<char>>, files: Seq<DocumentationFile>) -> nat
    decreases dirs.len(),
{
    if dirs.len() == 0 {
        0
    } else {
        files_over(dirs.drop_last(), files) + files_in(files, dirs.last())
    }
}

spec fn bytes_over(dirs: Seq<Seq<char>>, files: Seq<DocumentationFile>) -> nat
    decreases dirs.len(),
{
    if dirs.len() == 0 {
        0
    } else {
        bytes_over(dirs.drop_last(), files) + bytes_in(files, dirs.last())
    }
}

proof fn lemma_over_step(dirs: Seq<Seq<char>>, files: Seq<DocumentationFile>)
    requires
        files.len() > 0,
        dirs.no_duplicates(),
    ensures
        files_over(dirs, files) == files_over(dirs, files.drop_last()) + if dirs.contains(
            files.last().docs_directory@,
        ) {
            1nat
        } else {
            0nat
        },
        bytes_over(dirs, files) == bytes_over(dirs, files.drop_last()) + if dirs.contains(
            files.last().docs_directory@,
        ) {
            files.last().size@ as nat
        } else {
            0nat
        },
    decreases dirs.len(),
{
    if dirs.len() > 0 {
        let q = dirs.drop_last();
        assert(q.no_duplicates());
        lemma_over_step(q, files);
        let dx = files.last().docs_directory@;
        if dirs.last() == dx {
            assert(!q.contains(dx)) by {
                if q.contains(dx) {
                    let j = choose|j: int| 0 <= j < q.len() && q[j] == dx;
                    assert(dirs[j] == dirs[dirs.len() - 1]);
                }
            }
            assert(dirs.contains(dx)) by {
                assert(dirs[dirs.len() - 1] == dx);
            }
        } else {
            assert(dirs.contains(dx) == q.contains(dx)) by {
                if dirs.contains(dx) {
                    let j = choose|j: int| 0 <= j < dirs.len() && dirs[j] == dx;
                    assert(q[j] == dx);
                }
                if q.contains(dx) {
                    let j = choose|j: int| 0 <= j < q.len() && q[j] == dx;
                    assert(dirs[j] == dx);
                }
            }
        }
    }
}

proof fn lemma_over_all(files: Seq<DocumentationFile>)
    ensures
        files_over(directories_of(files), files) == files.len(),
        bytes_over(directories_of(files), files) == total_bytes(files),
    decreases files.len(),
{
    if files.len() > 0 {
        let p = files.drop_last();
        let dx = files.last().docs_directory@;
        lemma_over_all(p);
        lemma_directories_distinct(p);
        lemma_directories_distinct(files);
        let dp = directories_of(p);
        if dp.contains(dx) {
            lemma_over_step(dp, files);
        } else {
            lemma_absent_dir(p, dx);
            assert(directories_of(files).drop_last() == dp);
            lemma_over_step(dp, files);
        }
    }
}

proof fn lemma_groups_over(groups: Seq<DirectorySummary>, files: Seq<DocumentationFile>)
    requires
        forall|k: int|
            0 <= k < groups.len() ==> {
                let g = #[trigger] groups[k];
                &&& g.files == files_in(files, g.directory@)
                &&& g.bytes == bytes_in(files, g.directory@)
            },
    ensures
        group_files_sum(groups) == files_over(groups.map_values(|g: DirectorySummary| g.directory@), files),
        group_bytes_sum(groups) == bytes_over(groups.map_values(|g: DirectorySummary| g.directory@), files),
    decreases groups.len(),
{
    if groups.len() > 0 {
        let q = groups.drop_last();
        lemma_groups_over(q, files);
        assert(groups.map_values(|g: DirectorySummary| g.directory@).drop_last() =~= q.map_values(
            |g: DirectorySummary| g.directory@,
        ));
        assert(groups[groups.len() - 1] == groups.last());
    }
}

/// The directories divide the files: the file counts of the directories add
/// up to the number of files, and their sizes to the total size.
pub proof fn lemma_summary_partitions(summary: FileSummary, files: Seq<DocumentationFile>)
    requires
        summarizes(summary, files),
    ensures
        group_files_sum(summary.by_directory@) == summary.total_files,
        group_bytes_sum(summary.by_directory@) == summary.total_bytes,
{
    let groups = summary.by_directory@;
    lemma_groups_over(groups, files);
    assert(groups.map_values(|g: DirectorySummary| g.directory@) =~= directories_of(files));
    lemma_over_all(files);
}

/// One line per directory of `dirs`: its name, how many of `files` it holds
/// and their total size.
pub open spec fn directory_lines(dirs: Seq<Seq<char>>, files: Seq<DocumentationFile>) -> Seq<char>
    decreases dirs.len(),
{
    if dirs.len() == 0 {
        Seq::empty()
    } else {
        let d = dirs.last();
        directory_lines(dirs.drop_last(), files) + "  "@ + d + ": "@ + decimal(files_in(files, d))
            + " files ("@ + decimal(bytes_in(files, d)) + " bytes)\n"@
    }
}

/// The summary of `files` as it is printed: the number of files, their total
/// size, then one line per directory in the order of each directory's first file.
pub open spec fn summary_text(files: Seq<DocumentationFile>) -> Seq<char> {
    "\nTotal documentation files found: "@ + decimal(files.len()) + "\nTotal size: "@ + decimal(
        total_bytes(files),
    ) + " bytes\n\nFiles by directory:\n"@ + directory_lines(directories_of(files), files)
}

/// The text of the summary of `files` (see [`summary_text`]). The total size
/// must fit in 64 bits.
pub fn file_summary_text(files: &[DocumentationFile]) -> (r: String)
    requires
        total_bytes(files@) <= u64::MAX,
    ensures
        r@ == summary_text(files@),
{
    let summary = summarize_files(files);
    let ghost dirs = directories_of(files@);
    let mut s = String::from_str("\nTotal documentation files found: ");
    s.append(decimal_text(summary.total_files as u128).as_str());
    s.append("\nTotal size: ");
    s.append(decimal_text(summary.total_bytes as u128).as_str());
    s.append(" bytes\n\nFiles by directory:\n");
    let ghost head = s@;
    let mut k: usize = 0;
    while k < summary.by_directory.len()
        invariant
            summarizes(summary, files@),
            dirs == directories_of(files@),
            k <= summary.by_directory@.len(),
            s@ == head + directory_lines(dirs.take(k as int), files@),
        decreases summary.by_directory.len() - k,
    {
        let g = &summary.by_directory[k];
        assert(dirs.take(k + 1).drop_last() =~= dirs.take(k as int));
        assert(dirs.take(k + 1).last() == g.directory@);
        s.append("  ");
        s.append(g.directory.as_str());
        s.append(": ");
        s.append(decimal_text(g.files as u128).as_str());
        s.append(" files (");
        s.append(decimal_text(g.bytes as u128).as_str());
        s.append(" bytes)\n");
        k += 1;
    }
    assert(dirs.take(summary.by_directory@.len() as int) =~= dirs);
    s
}

} // verus!
