# minerva

A terminal chat client for a language-model agent served through Ollama, the
agent server it talks to, and the line protocol between them.

- `src/` is the verified library:
  - `protocol` — the messages (`ChatRequest`, `ChatResponse`, `ChatResponseChunk`) and the server address;
  - `wire` — the JSON text of each message on its line;
  - `stream` — how a streamed reply travels from the agent's items to the server's chunks and the client's text;
  - `app` — the client's state: the edited input and its cursor, the conversation, key handling and streamed chunks;
  - `session` — the history of a chat session;
  - `ui` — how the conversation breaks into lines and how far its pane scrolls;
  - `text` — whitespace, trimming and the characters of a string;
  - `agent` — the agent's settings.
- `app/` holds the programs: the servers (network, threads, the async agent calls) and the terminal loop and drawing.
- `tests/` runs the library on concrete values.
