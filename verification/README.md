# gamingmode

A living-room game mode for Windows: a big-screen shell driven with a pad or
the keyboard, which moves Windows aside while a game runs and gives the
machine back exactly as it was afterwards.

The library (`src/`) holds the decisions, each with a contract proved by
Verus:

- `optimizer`, `select`, `protect`, `services`, `snapshot`, `scan`, `sys`: the
  reversible engine. It asks the program for each system call and decides
  from the answers; what it changes is written down before it is changed,
  and undoing it restarts only what was running.
- `library`, `library_screen`, `session`, `shell`, `actions`, `nav`,
  `settings`, `browser`, `covers`: the shell's screens, the game library, the
  quick panel, the cover cache and decode queue.
- `input`: pad and keyboard events turned into navigation actions.
- `steamgrid`, `download`, `entry`, `names`: covers from SteamGridDB and the
  ROM catalogue's entries and downloads.
- `launcher`: what starting a game runs, with which arguments and where.
- `config`, `guid`, `paths`, `text`, `util`, `error`: settings, power-plan
  identifiers, file locations, text helpers.

`app/` is the program around it: files, processes, the network, the Win32
calls, and a text console over the library.
