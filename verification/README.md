# echo_sandbox

The sandbox of an AI coding agent: default-deny policies, the in-process
path guard used by the built-in tools, the helper command line that carries a
policy to a sandboxed process, the Landlock ruleset that enforces it, and the
pure parts of the `read`, `write`, `edit`, `find` and `grep` tools.

- `src/` is the library, verified with Verus. Each public function states in
  its contract what it returns; the laws (such as "decoding the helper command
  line gives back exactly what was encoded") are public proof functions.
- `app/` performs what the library decides: it resolves paths, asks the file
  system and the kernel, spawns processes, and parses JSON tool arguments.
- `tests/` runs the library on concrete values.
