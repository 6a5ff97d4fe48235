# gcli

A command-line assistant for xAI's Grok: chat with a plan-then-execute
exchange (or a local Ollama model), slide decks with generated
illustrations, a code audit with a secret scan, instant-answer search, commit
messages, and a record of the directories it was used in.

- `src/` is the library, proved with Verus: requests and reply parsing
  (`agent`, `json`), the audit (`audit`), deck assembly (`deck`), media
  (`media`), the commit helper (`git`), the project record (`project`) and
  the text operations they rest on (`text`).
- `app/` is the program around it: argument parsing, HTTP, files, the
  repository, audio and the terminal.
- `tests/` runs the library against the real outside crates.
