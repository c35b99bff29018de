# sovereign

An agent for coding tasks that talks to a local model through Ollama, or to
Anthropic's Messages API, and runs tools (shell, files, search, MCP servers) on
the user's machine.

The library under `src/` holds the logic, with contracts checked by Verus:

- `cli` — command-line arguments, the model chosen for a task, the guess of the
  task from the prompt, the provider, the allowed tools, input lines.
- `agent`, `history`, `message`, `tool` — one turn of the agent as a state
  machine over the conversation history.
- `toolcall` — tool calls written into a model's text (`<tool_call>` blocks,
  fenced blocks, bare JSON objects) and the text shown to the user.
- `tools` — the local tools: argument checks, refused paths and commands,
  edits, listings and search reports.
- `anthropic`, `ollama` — request bodies and reply streams of the two APIs.
- `mcp` — MCP server configuration, routing of tool calls, request ids, replies.
- `routing` — confidentiality levels of files by glob rules.
- `plain` — the events of the JSON Lines protocol used by the editor extension.
- `text`, `json` — text helpers, and what is asked of `serde_json`.

`app/` is the program around it: HTTP clients, processes, files, standard
input and output.
