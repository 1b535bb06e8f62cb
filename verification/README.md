# nono_sessions

Sessions of a sandboxed command runner. Every supervised command leaves an audit
record by default; with rollback it leaves snapshots too. Rollback sessions live
in `~/.nono/rollbacks/`, audit-only sessions in `~/.nono/audit/`, each in a
directory named by its session ID.

`src/` is a Verus library. It holds the rules, each with a contract:

| module | what it decides |
|--------|-----------------|
| `session_id` | validating, parsing and generating IDs |
| `paths`, `text`, `lists`, `sizes` | Unix paths, the order of strings, lists, byte counts |
| `session`, `discovery`, `loading` | describing, listing and opening sessions |
| `retention`, `retention_laws` | which old rollback sessions go |
| `capabilities`, `exclusions`, `rollback`, `setup` | what a rollback session tracks and leaves out, and how it is set up |
| `audit` | the audit state, and the record that a session leaves |

The library does no input or output. Where deciding and acting alternate, a run
(`PruneRun`, `SetupRun`, `ExitRun`) hands out the next action and takes its
result back.

`app/` carries the actions out: it reads directories, probes processes, creates
and removes session directories and drives a snapshot engine.

Taken on trust are three calls: the home directory (`dirs`), the current UTC
time (`chrono`) and the path separator of the system.
