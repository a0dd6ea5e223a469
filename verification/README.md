# task_cli

A command-line task manager whose core is verified with Verus.

- `src/domain/`: tasks and their statuses (`tasks`), reading a status from
  loosely written text (`status`), text helpers (`text`), and the first,
  all-arguments-required set of commands (`commands`).
- `src/storage.rs`: the `Storage` trait, stated over the sequence of tasks a
  store holds, and `StorageError`.
- `src/storage/json_storage.rs`: `JsonStorage` (where the tasks file lives)
  and `TaskList` (what the store does to the tasks read from it), with the
  laws that relate its operations.
- `src/app.rs`, `src/app/commands.rs`: the commands and `App::dispatch`, which
  carries a command out against any store and returns the lines to write.
- `app/`: the program: command-line parsing with clap; reading `tasks.json`
  into a `TaskList` with serde_json, running `App<TaskList>::dispatch`, and
  writing the tasks back; printing.
