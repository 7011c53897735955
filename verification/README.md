# git_diff_zip

A desktop tool packs the files that changed between two commits of a Git
repository into a ZIP archive, with a `readme.txt` inside that names the
commit and lists the files, and a `manifest.txt` beside it.

`src/` is the verified library. Each command (checking a Git executable or a
repository, listing history, describing a commit range, listing changed
files, fetching, making the archive) is a step function: given the replies
to the effects it asked for so far, it asks for the next effect or finishes
with its result. Its contract is a plan over those replies (`*_plan` spec
functions), so what is run, in which order, and what each outcome means is
proved. `src/laws.rs` states what holds across the commands.

- `text.rs`: trimming, lines, splitting, substring search, decimal numbers.
- `protocol.rs`: effects, replies, steps and their models.
- `git.rs`: the Git commands.
- `archive.rs`: exclusion patterns, the readme and manifest texts, and the
  archive protocol.
- `laws.rs`: properties of the library as a whole.

`app/` is the Tauri application: it performs the effects (processes, files,
the `zip` writer) and serialises the results for the front end.
