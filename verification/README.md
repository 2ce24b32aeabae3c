# gitcredit

A command-line wrapper around `git` that, after a successful `git push`,
records one contribution event with the GitCredit API.

- `src/` is the library, verified with Verus: command-line classification
  (`cli`), leading git global options (`git_context`), choosing the real
  `git` on `PATH` (`git_exec`), configuration resolution, saving and key
  masking (`config`), report planning and repository fingerprints
  (`reporter`), and the character-level string operations they share
  (`text`).
- `app/` is the program: environment, files, TOML, processes and HTTP.
- `tests/` runs the library on concrete values.
