# emtk

The Exanima Modding Toolkit's formats, package merging and launcher state,
written in Verus and proved against their contracts.

## Layout

- `src/` — the verified library.
  - `bytes`, `entry`, `rpk`, `rdb`, `rfc`, `rfi`, `format`, `texture`: the
    game's file formats, read and written byte for byte (packages, databases,
    content and image blocks, image headers).
  - `merge`: laying mods' packages over the game's, in load order, and laying
    the result out afresh.
  - `config`, `mods`, `instance`, `priority`, `explorer`, `nav`, `settings_screen`, `progress`,
    `toast`, `ui`, `console`, `release`: the launcher's settings, screens and
    the decisions they take on each message.
  - `tasks`: the development tasks and their help.
- `tests/` — tests on concrete values.
- `app/` — a command-line program that reads and writes files and prints what
  the library computes.

Laws that span functions (round trips of the formats, load order of mods, the
ordering of tables, what a drag-and-drop keeps) are public proof functions
named `lemma_*`.
