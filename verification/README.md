# codex_accounts

A multi-account manager for the OAuth credentials of the Codex CLI and Pi
Agent. The decisions of the manager are a Verus-verified library (`src/`); the
desktop side (`app/`) does the file, network, keychain and lock work around it.

## Library (`src/`)

| module | what it decides |
|---|---|
| `json` | the JSON document model that every file and response is read into |
| `model`, `error` | accounts, credentials, quota, errors |
| `protocol` | JWT claims, the identity of an account, token endpoint responses |
| `oauth` | the browser callback (state, code), PKCE, the authorization URL |
| `quota`, `number` | usage responses: windows classified by length, exact percentage checks |
| `runtime` | the Codex and Pi Agent authentication files: detection and switching |
| `repository` | the vault: lookup, replacement, unique insertion, removal |
| `service` | reconciling runtime tokens, refresh, re-authorization, runtime status |
| `reconcile` | adopting newer tokens from every runtime file, skipping unreadable ones |
| `rotation` | refreshing tokens so that a rotated refresh token is saved before any other use |
| `quota_refresh` | asking for quota, with one forced token refresh after a rejection |
| `switch` | switching runtimes: read, reconcile, refresh, prepare and stage all, then commit |
| `commit` | committing prepared files, rolling back only bytes it wrote |
| `secure_store` | sealing and opening the encrypted vault, the master key |
| `request_log` | the quota request log: retention and order |
| `widget`, `config` | widget labels, pages and placement; standard paths |

The system clock and the operating system's random source are read through
calls that can fail; a clock set before 1970 or a failing random source is
reported as `CLOCK_UNAVAILABLE` or `RANDOM_UNAVAILABLE`, never as a panic.

Laws that relate several operations are public proof functions named `law_*`.
The flows that alternate with I/O (`reconcile`, `rotation`, `quota_refresh`,
`switch`, `commit`) are state machines: the caller performs each action and
reports its outcome as the next event.

## Desktop side (`app/`)

Atomic file replacement, the OS credential store, HTTP, the callback listener,
per-account locks, and the commands the user interface calls.
