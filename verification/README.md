# gnostr_cleaner

A verified toolkit for tidying project directories and for describing the
folder tree of a git directory.

- `src/cleaner.rs` and `src/cleaner/`: the `Cleaner` trait and its six
  cleaners (Git, Gnostr, Macos, MakeFile, Node.js, Rustup). A cleaner names
  the files that mark its kind of project and lists the steps that clean it;
  `start`/`after_step` decide what runs next, `purge_step` decides how a
  purge reacts to each removal error, `invocation_for` and
  `program_candidates` decide which command line runs.
- `src/branches.rs`: folder nodes with a SHA-256 content hash over the folder
  name, file names, sub-folder hashes and git branch.
- `src/tree.rs`, `src/listing.rs`: plain folder trees and how a directory
  listing becomes a node.
- `src/keys.rs`: nostr keys whose secret is a folder hash.
- `app/`: the code that runs commands, removes files, walks directories and
  prints.
