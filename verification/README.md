# filesync

A terminal file manager for copying files over SSH: a local and a remote panel
side by side, selection, copy in either direction with a progress bar, and
deletion. Logins are saved in `~/.config/filesync/hosts.toml`, so later runs can
name a host by part of its name.

## Layout

- `src/` is the verified library (Verus):
  - `text.rs` – strings as character sequences: lower-casing, code-point order,
    substring search, decimal digits, padding.
  - `util.rs` – the entry orderings (`sort_dir_first`, `sort_name_mixed`,
    `sort_size_desc`) with their order laws, and `selected_entries`.
  - `listing.rs` – a stable sort of directory entries into display order.
  - `app.rs` / `ssh.rs` – local and remote entries, building listings from raw
    directory reads, and the panel state `App` with its model `AppView`.
  - `events.rs` – keys, mouse clicks and wheel, confirmations, transfer
    progress, and the `Effect`s the program carries out in answer.
  - `file_ops.rs` – `ProgressState` of a transfer.
  - `store.rs` / `login.rs` – saved logins and resolving a command-line target.
    The store keeps its logins in a vector of `(key, login)` pairs with distinct
    keys, viewed as a map. vstd specifies `HashMap` lookups only for key types
    known to follow its hashing model (`bool`, the integer types and boxes of
    them); `String` is not among them, so a map keyed by `user@host` would leave
    every lookup unspecified.
  - `ui.rs` – screen layout, legend wrapping and the text of rows, titles,
    prompts and the progress label.
- `app/` is the program around it: terminal setup, the event loop, SSH/SFTP,
  file system access, transfer threads, drawing, and the login file.
- `tests/` exercises the library on concrete values.
