# directree

A project tree for AI context windows: it filters noise, annotates files and
directories with their roles, and estimates the token cost of what it prints.

The library under `src/` is written in Verus; every function there carries a
contract that Verus proves. `app/` is the command around it: it reads the file
system, runs git and the clipboard tools, and prints what the library renders.

## Layout

- `src/text.rs`, `src/paths.rs`: text and path primitives (trimming, splitting,
  `Path::file_name`-style reading of `/`-separated paths).
- `src/detector.rs`: framework detection from project markers, file roles and
  categories.
- `src/ignorer.rs`: built-in, framework, configured and local ignore rules, and
  glob matching.
- `src/cli.rs`, `src/config.rs`, `src/init.rs`: arguments, `~/.directreerc`,
  the generated `.directreeignore` and shell completions.
- `src/walker.rs`, `src/tree.rs`: building the tree from a directory listing
  (sorting, depth limit, extension filter, collapsing similar directories) and
  its statistics.
- `src/render.rs`, `src/json.rs`, `src/ansi.rs`, `src/output.rs`: the tree, AI,
  flat, grouped, JSON and statistics views, colors, and one run's output.
- `src/plain.rs`: colored output stripped of its escape codes is the plain output.
- `src/clipboard.rs`, `src/git.rs`, `src/importance.rs`, `src/watch.rs`: the
  decisions around clipboard tools, git output (and the tree cut down to what
  changed, for `--since`), importance scores (and the stars they add to the
  tree, for `--important`) and polling.

Laws of the library are public proof functions named `law_*`.
