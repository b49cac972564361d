# forge

A small source-based package manager: packages are git repositories, each with
a TOML configuration of build, install, uninstall and clean hooks.

- `src/` is the verified library.
  - `action.rs`: reading the command line into an `Action`.
  - `run.rs`: what each action does, as a state machine. `Action::execute`
    starts a `Run`; the caller asks it for the pending `Effect` (print, ask,
    run a program, change a file, clone or pull a repository, ...), carries it
    out, and hands the outcome back as an `Event`.
  - `config.rs`: package configurations and the command line of each hook.
  - `lock.rs`: the lock file of installed packages.
  - `util.rs`: package paths, collecting installed packages, prompts, git
    reference names, tag and merge decisions.
  - `text.rs`: string helpers (white space, words, decimal numerals, paths).
- `app/` is the program: it parses the command line, then carries out the
  effects of the run with the file system, processes, git2 and TOML.
