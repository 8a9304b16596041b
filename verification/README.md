# zed_java

The logic of the Java tooling for the Zed editor, verified with Verus.

- `src/` is the verified library:
  - `text` — text operations (search, trim, split, join, decimal numbers) specified over `Seq<char>`;
  - `command_line` — reading a task-helper command line and naming the class it runs;
  - `lsp_lookup` — correcting a class name from the language server's workspace symbols;
  - `workspace` — finding a class's source file (a depth-first walk driven by the caller, with a model of a whole walk over a directory tree) and reading its package;
  - `debug_config` — debug configurations as a map from keys to values, read from and written to JSON text with `serde_json`;
  - `dap` — debug adapter checks, launch and attach configurations, and the scenarios made from run and test tasks;
  - `gradle` — the Gradle commands for running classes and tests, and the init script;
  - `jdwp` — the task helper's debug settings and its wait for the JDWP port.
- `app/` is the unverified glue: file system walks, the task process, the language server's answers, and the Zed extension API's types.
- `tests/` exercises the library on concrete values.
