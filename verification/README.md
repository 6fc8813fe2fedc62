# moon_actions

The decision logic of the moon task runner, written in Verus and proved against its
contracts:

- `runner`: when a target's outputs are archived or hydrated, how the cache is checked,
  how its command line and environment are set up (affected files sorted by path
  components), what is printed of its output, how failed runs are retried, and the steps
  of running a target.
- `hash_plan`: which inputs go into a target's hash and in which order, the touched
  files last.
- `remote_cache`: what the remote cache subscriber does for each event, and the
  archive addresses it remembers.
- `install`: when Node.js dependencies are installed, and what is written to the root
  `package.json` and version files.
- `scaffold`: which projects a docker image focuses on (every requested project and
  everything it depends on), and which files are copied into its skeleton (each project
  folder once, and the files the include patterns matched).
- `workspace`, `errors`: locating a workspace, reading its configuration files, signing
  in, and the error messages.
- `setup`, `download`, `bin`, `language`: tool setup, Node.js archive names and
  addresses, the `bin` command, and the TypeScript language.
- `paths`: paths as sequences of components: their order, equality and suffixes, and
  sorting by them.
- `text`: joining, decimal numbers, path joining and making paths relative to a root.
- `fxcollections`: the `rustc_hash` maps and sets the logic keeps, with the contracts
  their methods are trusted to meet.

`app/` holds the file system, process, terminal, environment and network edges that
feed the library plain values and carry out what it decides. It reads and writes JSON
(the docker manifest, `package.json`, the install state) with `serde_json`, and expands
the docker include patterns over the file system with the `wax` glob crate;
neither is used by the library.
