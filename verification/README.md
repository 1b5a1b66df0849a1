# abcb

A local-first agent framework. A session of messages is put to a model; the
model replies with one JSON envelope, which calls a tool or gives the final
answer; the agent loop goes back and forth until there is an answer, an error
that the model cannot mend, or no step left. Every event of a run is logged as
one line of JSON, and what a run came to is read off its log.

The library in `src/` is written in Verus: each function states what it does,
and the statements are proved.

| Module | What it holds |
| --- | --- |
| `text`, `order` | trimming, searching, lines, decimals; the order of names |
| `data`, `decode` | plain data, JSON and TOML; fields of records |
| `external` | the calls into other crates that are taken on trust |
| `message`, `provider` | roles, messages, sessions; providers and a scripted one |
| `event` | events, the log, and reading it back |
| `output` | the envelope of a reply, in a fenced block or bare |
| `tool`, `tools` | tools, their registry, the prompt that lists them; the tools themselves |
| `agent`, `laws` | approval, a step, the loop; what holds of every run |
| `consent` | the consent of a policy to a call, without which no tool is called |
| `summary`, `eval` | what a run came to; cases, trials and the scorecard |
| `models`, `config`, `cli` | the endpoint's protocol; `abcb.toml`; what the commands say |

`app/` is the program around it: arguments, files, processes and HTTP. `tests/`
runs the library.

## How a run is specified

`agent::ran` relates what a run starts from (the provider, the policy, the
session) to what it comes to (the answer or the error, the session, the events
that were logged). It is built from `steps` (one reply and what becomes of it)
and `leads_to` (what a reply leads to, given the tools and the policy). A
provider, a tool, a policy and a log say of themselves how they may behave
(`completes`, `gives`, `decides`, `writes`), and every statement about a run is
over what they say.

A step reaches its tools through `consent::Toolbox` alone. A call there takes a
`Consent` of the policy of the run, which only `consent::ask` gives, for the one
call that the policy allowed; it cannot be copied, and the call uses it up.
