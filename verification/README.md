# git-pre-conflict-core

Predicts merge conflicts before a merge happens, from `git merge-tree --write-tree`,
and writes a step-by-step resolution guide. The library is verified with Verus; the
command-line front end runs git and prints.

Layout:

- `src/text.rs`: character-level text handling (white space, trimming, words, lines,
  decimal numbers, string order) with specifications of what each function returns.
- `src/conflict.rs`: conflict kinds and the parser of merge-tree output, with the
  laws that relate its result to the output lines.
- `src/git.rs`: the git commands run and the meaning of their results.
- `src/session.rs`: one check as a sequence of git runs, driven by the caller.
- `src/guide.rs`: the resolution guide and per-file advice.
- `src/presentation.rs`: counts, notifications and diff previews shown to users.
- `src/watch.rs`: the state of a background watch.
- `src/error.rs`: the error type.
- `app/`: the `git-pre-conflict` command line (`check`, `branches`), which runs git
  as a child process, and serializable copies of the report types.
- `tests/`: tests of the library on concrete inputs.
