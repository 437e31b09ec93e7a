# okena

The logic of a terminal workspace, verified with Verus: what a remote session
does with each message, how profiles are chosen, what a git working directory
holds, how files are opened and shown, and what the status bar says.

- `src/` is the library. Every function states what it returns; what several
  functions promise together stands beside them as proof functions.
- `src/client/` connects to a remote server, `src/git/` reads and changes
  repositories, `src/files/` is the file viewer, `src/extensions/` the status
  bar, `src/updater/` the updates, `src/process/` and `src/http.rs` the commands
  and requests that all of them make, and `src/profiles.rs` the profiles.
- `app/` runs the commands, sends the requests and reads the files. It also
  holds what is floating point or rests on the time zone.
- `tests/` runs the library on concrete values.

What the library takes from other crates (JSON, dates, versions, digests, diffs,
images, fonts) is called through small functions whose contracts are stated
where they stand and are not proved.
