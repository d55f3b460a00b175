# gearbox

`gearbox` is a small agent that runs on the command line. It gives a model a task and one tool,
`read_file`, carries out the calls that the model makes, tells it the outcomes, and prints the
final answer.

- `src/` is the library, verified with Verus. It decides and does no input or output: it builds
  requests, checks responses, walks through tool calls, keeps the conversation and checks the
  configuration.
- `app/` is the program around it: HTTP, files, the command line, TOML and logging.
- `tests/` runs the library on concrete conversations, files in memory and settings.

| Module | Subject |
| --- | --- |
| `agent` | a run: its requests, its history and its end |
| `model` | request bodies and replies |
| `response` | the check of a response and the turn that it holds |
| `tool` | the steps of a `read_file` call |
| `config::file`, `config::cli` | settings and arguments |
| `outcome` | what is printed, and the exit code |
| `json`, `text` | documents and texts |

What the library needs from other crates stands behind small trusted functions: reading and
writing JSON (`serde_json`), taking URLs apart and checking header values (`reqwest`), and the
names of log levels (`tracing-subscriber`). Each says in its comment what is taken for granted.

A configuration is looked for at `--config <path>`, then in the workspace as `config.toml`, then
at `~/gerabox/config.toml`. Otherwise built-in settings apply, which lack a key.
