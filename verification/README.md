# ai_agent

A small LLM agent whose decision-making is verified with Verus.

- `src/` is the verified library:
  - `permission/` decides tool-call permissions: remembered answers per request,
    grants of whole tools, a queue that holds each request once; `laws.rs`
    proves what holds across calls.
  - `agent/` keeps the run's context and events, builds the conversation sent
    to the model and says what to do after each model answer.
  - `tools/` holds the calculator, the decisions of the web search tool, text
    chunking, and how tool runs become a status and a text.
  - `modals/` holds the configuration and the data types; `text.rs` and
    `llm.rs` hold text helpers and the opening of one-off model calls.
- `app/` is the program around it: model calls, retries and time limits, tool
  runs, the terminal prompt for permissions, configuration files, embeddings.
- `tests/` runs the library on concrete cases.
