# meilisearch-cli

`msc`, a command line for Meilisearch, split in two:

- `src/` is the library, with its contracts proved: the requests every command
  sends (`api`, `dispatch`), how replies and task states are read
  (`client`), the project configuration (`config`), document import
  batching (`import`), clone and promote (`transfer`, and `copying`, the
  steps of one copy as a state that each reply advances), release handling
  (`release`), and the three interactive views — search (`search_view`),
  chat (`chat`, `chat_view`, `sse`) and settings (`settings`,
  `settings_view`) — as states that keys and events step, and the lines
  they show. JSON documents are the library's own `json::Json`.
- `app/` is the program around it: argument parsing, files, HTTP, the
  terminal, the configuration file's TOML form, Docker and downloads.

Laws that span several calls are public proof functions named `law_*`.
