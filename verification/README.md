# prawjector

A keyboard-driven project launcher for Zellij. Projects are declared in a
JSON file (`~/.prawjector/prawjector.json` by default); the picker lists
them, and choosing one attaches to or creates a named Zellij session with the
project's tabs.

## Layout

- `src/` is the library, verified with Verus. Every public function carries a
  contract over the mathematical view of its data (`Seq<char>` for strings,
  `Seq` of views for lists):
  - `text`: trimming, splitting, joining, searching and decimal rendering on
    character sequences;
  - `paths`: path components, equality, joining, file names and tilde
    expansion;
  - `config`: the configuration model, validation, shortening paths under the
    home directory, project names, and adding and removing projects;
  - `zellij`: session names, shell quoting, the launch plan, the arguments and
    the background setup script handed to `zellij`, and reading session
    listings and saved layouts;
  - `git_info`: what the picker shows about a repository or a directory;
  - `app`: the picker's state machine (keys, selection, typed numbers, the
    launch it ends with);
  - `ui`: screen geometry, the banner, the border walk, list rows and the
    detail pane.

  Laws that span functions (for instance that removing an absolute
  directory undoes adding it when no project lived there before, or that a
  quoted word reads back as itself) are public proof functions next to the
  functions they speak of.
- `app/` is the command-line program: argument parsing, reading and writing
  files, running `zellij`, reading Git repositories, and drawing with
  ratatui. It calls the library for every decision.
- `tests/` exercises the library on concrete values.
