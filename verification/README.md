# vise

vise runs coding-agent sessions against repositories on hosts you control. You
describe a task, the server schedules it onto an enrolled host, the host runs an
agent harness in an isolated workspace over the Agent Client Protocol, and the
result comes back as a pull request, a pushed branch, or an event stream you can
tail.

`src/` is a verified library, written in Verus: what the client, the host and
the server decide and compute, with contracts that Verus proves. `app/` is the
ordinary Rust around it: the command line, processes, files, HTTP and git.

| Module | What it decides |
|--------|-----------------|
| `host`, `login`, `login_run`, `render` | the client: the local host process, the browser login, what is printed |
| `session_run`, `repo`, `acp`, `runtime`, `events`, `redact` | the host: a session's run, its clone, its agent, its events |
| `routes`, `auth`, `credentials`, `github`, `pr_tracking`, `follow_up`, `server`, `openapi` | the server: what routes answer, who calls, pull requests, configuration |
| `model`, `json`, `text`, `decimal`, `table`, `time` | what they are built on |

What holds of several functions at once is stated as public proof functions:
that redaction keeps structure and removes content, that no event is lost on its
way to the server, that a login is found by every later command, that work is
reported as published only when the remote has it, that a tail of events misses
none, and others.

Calls into other crates stand behind a few functions whose contracts are taken
on trust: reading JSON (`serde_json`), the calendar (`chrono`), comparing tokens
in constant time (`subtle`), and signing the GitHub App's token
(`jsonwebtoken`).

The harnesses that a host can run are its configuration, and so is the one that
a new session asks for:

```sh
vise agent --harness 'NAME=COMMAND'   # or VISE_HARNESS_COMMAND
vise sessions create 'PROMPT' --harness NAME   # or VISE_HARNESS
```

The server's storage is a deployment's own: `app/server/backend.rs` says what it
brings, and `serve` runs the HTTP API over it.
