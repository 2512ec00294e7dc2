# gh_docs_download

A tool that downloads the documentation files found under one path of a
GitHub repository, given a tree URL such as
`https://github.com/rust-lang/rust/tree/main/src/doc`, by git sparse checkout.

The library in `src/` is written in Verus and carries its proofs:

- `types`: repository owners and names (validated; every value is valid),
  files, paths, URLs and sizes; `size` gives the exact integer account of
  how a size is shown (`512 B`, `1.2 MB`).
- `cli`: the command-line arguments, how a tree URL is read into the
  repository, the branch and the documentation path, and what is decided before any git work.
- `downloader`: which file names are documentation, the sparse-checkout
  steps as a state machine (the git commands to run, on the branch the URL
  names, and the errors they give), what scanning does with each file, the records of the files found and where they are copied.
- `summary`: totals and the per-directory breakdown of the files found, and
  the report text.
- `github`: reading a repository tree: which directories suggest
  documentation, which paths are documentation files, and the top-level
  directories that hold documentation.
- `text`, `order`, `weburl`: text helpers, lexicographic order and sorting,
  and what is read of a parsed URL.

`app/` is the command-line program: argument parsing, running git, the file
system and printing. `tests/` exercises the library.
