# encage_runtime

A Linux container runtime whose configuration logic is verified with Verus.

A container is configured from parts (namespaces, mounts, a root, devices,
symbolic links, a host name, a user, capabilities) that implement `Config`.
Each part states the `clone` flags it needs and the plan of system calls
that prepares it; parts chain, and a chain's plan runs the first part's
calls and, only where they succeed, the second's (`lemma_chain_prepare`).
`Runner` walks a plan one call at a time and decides, from what each call
came back with, whether to go on, drop the error, defer it or stop.

Layout:

- `src/` — the verified library: the parts and their plans (`namespace`,
  `mount`, `root`, `device`, `link`, `hostname`, `user`, `capabilities`),
  the plan semantics and runner (`plan`), chaining (`config`), the command
  (`command`, `run`), the command-line mount syntax (`cli`), the
  configuration a command-line run prepares (`exec`) and the OCF front end
  (`ocf`, `ocf_config`).
- `tests/` — tests of the library on concrete values, including checks of
  its kernel constants against `nix` and `libc`.
- `app/` — the `encage-run` program: argument parsing, the temporary
  directories, and the system calls that the plans name.
