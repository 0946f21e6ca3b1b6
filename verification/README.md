# codex_manager

Runs several instances of a desktop coding agent side by side, one per
account profile, each with its own home, configuration, data, cache and
temporary directories, so that sessions never overwrite each other.

`src/` is the verified library (Verus):

- `paths` — platforms, how path components are joined, and which names
  are a single path component (valid profile ids).
- `profile` — profiles, where their directories and the profile list live,
  the directory layout of a profile, and the profile list operations.
- `launcher` — the commands that start, stop and show an instance, and the
  choice of the executable on Windows (`CODEX_DESKTOP_PATH`, or a shared
  runtime copy of the Store app).
- `escape` — quoting a profile's data path for `pkill` and PowerShell.
- `process_list` — reading the process list back into running profiles.
- `running` — the table of running profiles.
- `menu` — the tray menu entries and what a click on one asks for.
- `command`, `text` — command descriptions and character-level helpers.
- `laws` — properties that tie these together: isolation of profile
  directories, everything staying under the manager's directory, the
  isolation settings on every platform, detection of launched instances,
  detection and stopping agreeing, precision of stopping, stopping all,
  distinct profile ids, and the menu round trip.

`app/` is the desktop program around it: the Tauri commands and tray, file
system work, and starting processes. `tests/` exercises the library.
