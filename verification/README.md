# custom_tools

An interactive bootstrapper for a Linux developer machine: it lists a
catalogue of tools (fish, rust, starship, fnm, pnpm, ripgrep, PostgreSQL,
Docker, the GitHub CLI, …), lets the user pick some in a terminal
interface, and installs them in parallel pseudo-terminals while respecting
dependencies and the package manager's lock.

## Layout

- `src/` — the verified library (Verus). It holds every decision the
  program takes:
  - `tool` — the catalogue: install order, dependencies, names, details;
  - `installer` — the steps that install each tool on a given machine;
  - `scheduler` — which queued tools may start, never two holding the
    pacman lock at once and never one whose dependency failed;
  - `state`, `app`, `install`, `session` — the interface as a state
    machine: keys, mouse, worker messages in; effects out;
  - `ansi`, `wrap`, `text` — escape stripping, line splitting, prompt
    recognition, word wrapping;
  - `github` — reading the OAuth device-flow replies and deciding how to
    poll; `postgres` — the password statement; `detect` — reading
    `/etc/os-release`; `config` — what copying a bundled config does;
  - `keys`, `layout`, `view` — key encodings, hit testing, scroll windows
    and what each screen row shows.
- `app/` — the program around it: command line, terminal drawing, threads,
  pseudo-terminals and processes. It carries out the effects and steps the
  library returns.
- `tests/` — tests of the library's public functions.

The bundled configuration files that `custom-tools config` copies are read
from an `assets/` directory next to the executable.
