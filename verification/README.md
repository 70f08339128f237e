# hilen_release

The release scripts of a hilen app, split in two:

- `src/` is the verified library. It says how a release is described from
  cargo metadata and hilen.toml (`release`), which shell commands the Linux,
  Windows, iOS and backend lanes run (`docker`, `win`, `ios`, `backend`), how
  an update artifact is signed and its key checked (`sign`), what the outcome
  of a command means (`run`, `inspect`), and the text operations they share
  (`text`). Every function carries a contract. Verus proves the library's own
  functions; the wrappers around std, hex, sha2 and ed25519-dalek are trusted
  on their contracts, which state what those crates document.
- `app/` starts the processes, reads and writes the files and the
  environment, and parses TOML and JSON into the library's types.
