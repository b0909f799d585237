# llama-nexus

A gateway in front of servers of language models: it passes requests on, lets models call
tools, executes plans, remembers conversations, looks up what an answer can rest on, and
tells models about skills.

The library under `src/` decides; it is verified with [Verus](https://github.com/verus-lang/verus).
Every function says in its contract what it returns, and the laws of the library stand beside
the functions as public proof functions whose names begin with `law_`. The program under
`app/` does the rest: it listens, sends, reads files and runs containers, and hands the library
plain values.

| module | what it decides |
|--------|-----------------|
| `chat` | chat with tools (`normal`, `react`), plans and their subtasks (`plan`, `subtask`, `planner`), records of execution (`trace`), reading tagged answers (`xml_parser`, with laws in `xml_laws`), answers in chunks (`utils`) |
| `memory` | the working context of conversations, and how it is summed up |
| `rag` | queries, search calls, ranking of what was found, putting it into a chat |
| `responses` | conversations that carry on where a reply left off; sandboxes for code |
| `skills` | reading, checking, offering and detecting skills |
| `executor` | containers for scripts |
| `mcp` | names and replies of tools |
| `handlers`, `upstream`, `cli` | requests to downstream servers, and the commands for skills |
| `text`, `text_map`, `paths`, `pattern`, `json`, `clock`, `ids`, `single`, `sum`, `sorted`, `debug_text` | what the others rest on |

What comes from other crates stands behind small functions, each with a comment that says
what is taken from the crate on trust: regular expressions (`pattern`), JSON texts (`json`),
identifiers (`ids`), the clock (`clock`), text splitting (`rag::chunks`), prompt templates (`rag::answer`), and from the standard
library hashes (`rag::rerank`), lower case (`text`) and debug texts (`debug_text`).

Scores are floating-point numbers. The library handles them by their bits; `app/rag.rs`
computes with them.
