# stage1

The initrd bootstrap of a NixOS system, from the first mounts to the switch to
the root filesystem, with its decisions verified by Verus.

- `src/` is the verified library. It decides what is done, in which order, and
  what follows from each outcome, and touches nothing itself. Fixed procedures
  are scripts (`src/script.rs`); procedures that hang on what they find are small
  walks with a `request` and a `step` (`fsck`, `poll`, `loop_device`, `root`,
  `resume`, `boot`). The laws stand as public proof functions at the end of each
  module.
- `app/` is the thin layer around it that performs checks and operations on the
  running system and reports what came of them.
- `tests/` runs the library on concrete values and walks scripts through simulated
  systems.

Where the library relies on other code, the trusted contracts stand in
`src/flags.rs` and `src/devnum.rs` (flags of mount(2) and device numbers, from
`nix`), `src/paths.rs` (the quoted form of a path) and `src/text.rs`
(`String::push`).

Paths and names are text throughout. A directory entry whose name is not valid
UTF-8 has a text of its own (`src/names.rs`), from which its name is had again.
