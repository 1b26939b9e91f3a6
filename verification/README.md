# gogdl

A command-line client that downloads games from GOG and runs them under
Proton. The crate is split in two:

- `src/` is the library, written in Verus and verified: the settings model
  and every edit of a game's launch configuration, the latest-first ordering
  of a game's builds, the filters and the sorted listing of a game folder's
  executables, the commands that make a Wine prefix and start a game, the
  bookkeeping of download and repair progress, the paging of the Proton
  browser, and the command lines shown as hints. Each public function states
  its result in its `ensures`; the `law_*` proof functions state what holds
  across calls (a build is recorded once, clearing undoes adding, a removed
  Proton version is neither listed nor in use, a sorted listing is unique).
- `app/` is the program around it: argument parsing, menus, the store and
  Proton downloads, the settings file and the desktop secret store.

`tests/` exercises the library on concrete values.
