# boxlib

The verified core of `box`, a small manager for development containers.

- `src/` is the library, verified with Verus:
  - `start`: the engine command line that starts a container, and the steps
    around it (refusing a container that exists, preparing the data volume);
  - `terminfo`: sharing the host's terminfo directories with the container;
  - `config`: container configuration files, their schema version, which
    files are read, and how configurations of several files are gathered;
  - `help`: the help text for configuration fields;
  - `cli`: arguments of the image commands;
  - `text`: shared text helpers.
- `app/` is the program around it: argument parsing, reading the host,
  running the engine, and reading TOML files.
- `tests/` runs the library on concrete values.
