# codex_pool

A pool of Codex accounts, with a verified core.

- Each account keeps its credentials in an `auth.json` of its own.
- The state of the accounts lives in SQLite.
- Accounts are probed through `codex app-server`, each in a temporary `CODEX_HOME`.
- The global `~/.codex/auth.json` is a copy of the credentials of the active account.

## Layout

`src/` is the library, verified by Verus:

| module     | what it holds                                                        |
|------------|----------------------------------------------------------------------|
| `text`     | comparing, trimming and normalizing text; numbers in decimal         |
| `json`     | JSON documents as trees, read and written by `serde_json`            |
| `auth`     | whose credentials an auth document holds, and the key of the account |
| `config`   | where the pool keeps its files                                       |
| `locks`    | what is said of a lock, and whether another process holds it         |
| `db`       | stored accounts and what each event does to them; selectors          |
| `schedule` | when an account is probed or refreshed again, and cooldowns          |
| `probe`    | the conversation with the app server                                 |
| `report`   | the lines about accounts                                             |
| `refresh`  | what a refresh comes to, scores, batches                             |
| `store`    | what is stored of an event                                           |
| `commands` | what each command decides and says                                   |

`app/` is the program around it: arguments, files, locks, SQLite, threads and
the child process. `tests/` runs the library.
