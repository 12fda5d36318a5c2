# roadmap_cli

A roadmap kept as YAML files in `.phases/` beside the code: phases, tasks,
bugs and feature requests, with the reports, checks, searches and exports
computed from them.

- `src/` is the library, verified with Verus: the model of the files, every
  command's logic (adding and editing phases, the progress report, the next
  tasks, the LLM context, the history, the Markdown export, the integrity
  check, the TODO scan, the API coverage analysis, the git hook, the bug and
  feature trackers, the update check) and the server's decisions (the board's
  data, the device log-in flow, the signing and checking of tokens,
  presence, the live channel's steps). Reading and writing the files and
  the database-backed accounts and projects are not part of it. Each public function states its
  result in its `ensures`; `src/laws.rs` and a few proof functions beside the
  code state what holds across calls.
- `tests/` runs the library on concrete roadmaps.
- `app/` is the `roadmap` command line around it: argument parsing, reading
  and writing the files, printing, HTTP and the web server (the board,
  the JSON API, the device log-in flow and the live channel).
