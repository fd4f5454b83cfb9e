# win_butler

Housekeeping for a Windows developer workstation: disk cleanup, the recycle bin,
Docker pruning and WSL2 disk compaction, package-manager caches, `node_modules`
folders, environment variables that look like secrets, startup programs, scheduled
routines and a dashboard of volumes, memory, graphics cards and BitLocker.

Layout:

- `src/` is the library, written in Verus. It decides what to do and what to
  report: the command lines to launch, the PowerShell scripts, how the JSON and
  text that those tools print are read, the messages in Portuguese, and the
  rules behind each action. Every function there carries a contract that Verus
  proves; the calls into `chrono`, into `serde_json` (reading JSON text) and into a few
  `std` string functions stand behind small trusted wrappers whose doc comments say what is assumed.
- `app/` is the program around it: the command line (`--run <routine>` for the
  Task Scheduler and one subcommand per action), the processes it starts, the
  files it reads and writes, `sysinfo` readings, and the `serde` copies of the
  library's types that the answers are printed as.
- `tests/` runs the library on concrete values.

Actions that would change the machine take a `dry_run` flag; with it set they
only say what they would do.
