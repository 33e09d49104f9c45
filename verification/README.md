# ditto

A dotfile manager: packages of files in a repository are symlinked into
place (`link`), taken down again with their backed-up originals restored
(`unlink`), inspected (`status`, `diff`), and existing files are brought
under management (`add`). Configuration lives in `ditto.toml`.

## Layout

- `src/` — the library, verified with Verus.
  - `paths.rs`: Unix path handling on strings (components, `join`,
    `relative_to`, `~` expansion, file name, parent).
  - `config.rs`: the configuration model, the choice of packages, the
    platform filter and the search for the repository root.
  - `backup.rs`: where a file is backed up.
  - `ops/`: the commands. `status`, `link`, `unlink` and `diff` share one
    state machine (`ops/walk.rs`): from its state and the answer to its last
    action it computes the next action (say, probe, back up, link, ...).
    `add` computes the list of actions that adds a file.
  - `laws.rs`: properties that span functions and steps, proved.
  - `text_diff.rs`, `toml_doc.rs`: the calls into `similar` and
    `toml_edit`, behind trusted wrappers.
- `app/` — the program: command line parsing (clap), reading `ditto.toml`
  (serde, toml), and carrying out the actions on the file system and shell.
- `tests/` — the library driven over an in-memory file system.
