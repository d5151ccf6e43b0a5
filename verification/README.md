# lazypkg

A terminal browser for the command-line tools installed through cargo, dnf,
pipx, pip, npm and pnpm: list them, read their cheatsheets (tldr pages or
`--help`), uninstall them, and snapshot the whole toolchain to restore it on
another machine.

`src/` is the library, verified with Verus:

- `text` — characters, whitespace, trimming, lines, substring search, name order;
- `managers` — the tools each manager reports, parsed from its output and
  sorted by name;
- `cheatsheet` — the sources of cheatsheets and the order they are asked in,
  escape-sequence stripping and the `--help` cheatsheet, tldr page locations;
- `snapshot` — building a snapshot, the diff against what is installed, the
  install report;
- `app`, `keys`, `view` — the browser's state machine, its key bindings and the
  texts it draws;
- `laws` — properties relating several operations.

`app/` is the program around it: running the managers, reading files and the
network, the terminal, and the `list`, `export` and `import` commands.
