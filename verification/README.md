# megaton

The Megaton build tool for Nintendo Switch modules, with its logic written as a
verified library.

- `src/` is the library, checked by Verus: classifying source files, resolving
  compiler and linker flags, selecting and merging configuration profiles,
  the compile database and compile_commands.json, the report and outcome of the
  environment check given what was found on the system, the plan of
  libmegaton's build.ninja, and the decisions a build takes from what it finds
  (what to compile, whether to link, whether to make the NSO, what the module
  check reports), with the laws that hold between them.
- `tests/` runs the library on concrete values.
- `app/` is the command line program around it: argument parsing, looking at
  the file system and PATH, running processes and threads, the order of the
  build steps, and printing.
