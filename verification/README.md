# a3_platform

Addressable agents that exchange messages, with the decisions of each agent
verified by Verus.

- `src/` — the verified library: addresses and their text and JSON forms
  (`address`), subjects and outgoing messages (`message`), manifests and their
  validation (`manifest`), tool definitions (`tools`), HTTP headers for tool
  servers (`headers`), the arguments of the message-sending tool
  (`send_tool`), prompts and the agent loop (`agent`), the runtime
  (`runtime`), a string-keyed map (`string_map`), whitespace and trimming
  (`text`), JSON strings (`json`) and errors (`error`).
- `app/` — the command line, file and network I/O, NATS, the model
  providers, MCP tool servers, the web client, and the serde forms of the
  library's types.
- `tests/` — tests of the library.
