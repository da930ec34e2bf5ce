# gitsift

Git hunk sifter for code agents: list the hunks of a diff with stable IDs,
stage whole hunks or single lines, discard hunks, and report status, from
the command line or over a JSON-lines protocol.

## Layout

- `src/` — the verified library (Verus). Everything that decides what the
  tool does lives here, with contracts:
  - `diff.rs` — the events of a diff walk, hunk IDs, grouping events into
    files, hunks and lines, and the hunk scans that staging and discarding use.
  - `patch.rs` — the patch that stages chosen lines of a hunk and the
    reverse patch that discards a hunk, with laws on what each expects and leaves.
  - `plan.rs` — sorting requested IDs into unknown ones, whole files and
    patches; combining reverse patches.
  - `stage.rs`, `checkout.rs` — the decisions and results of staging and discarding.
  - `toon.rs`, `text.rs` — the compact output format and its escaping.
  - `protocol.rs` — framing of protocol input lines.
  - `git.rs` — diff settings and patch parsing through git2.
  - `models.rs`, `cli.rs` — the data types.
- `app/` — the program around it: command-line parsing, repository access
  through git2, JSON (de)serialisation and the protocol loop.
- `tests/` — tests of the library.
