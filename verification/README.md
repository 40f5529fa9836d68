# Account pools

Several locally managed ChatGPT logins in one home, and pools of them. A session that runs on a pool
goes on with another account when a model request reaches its quota; it spends a banked reset only
where the whole pool is weekly exhausted and the pool allows it, and waits otherwise.

The library under `src/` holds the decisions and is verified with Verus. It does no I/O: its
functions take what was read and say what to write, send or show.

| Module | What it holds |
| --- | --- |
| `policy`, `ranking` | when an account is usable, which account comes next, when a reset may be spent |
| `recovery` | the recovery of a session, as a machine from events to actions |
| `redemption` | reset transactions, written before they are sent, that keep one key and one credit over failures |
| `session`, `thread`, `membership`, `preferences`, `denials` | what a session runs on, and what it remembers |
| `storage`, `store`, `import`, `login`, `managed_link`, `digest` | the store of accounts and pools, and its logins |
| `backend` | readings of usage |
| `server`, `paging`, `manage`, `cli`, `models` | requests, pages and command lines |
| `status`, `quota`, `report`, `chat`, `stream` | what the user sees, and automatic retries |
| `percent`, `rounding`, `clock`, `text`, `lists`, `sorting` | numbers, dates, texts and lists |

Percentages are doubles given by their bits: printing, adding and subtracting them is done in whole
numbers and proved to round as doubles do.

Each type has a mathematical value, its view, and contracts speak of views. The laws of the library
are public proof functions whose names begin with `law_`.

`app/` is ordinary Rust around the library: files, locks, the network, wire formats and the command
line. The login library and the usage service are traits there.
