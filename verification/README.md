# oncall-agent-rs

An on-call assistant service: a chat assistant with session memory, and an
AI Ops team of agents that diagnoses incidents, records the evidence its
tools return and holds its report to that evidence.

The logic is a library verified with Verus; the HTTP service around it is
ordinary Rust.

## Layout

- `src/` — the verified library. Among its modules:
  - `config` reads the service's settings from a snapshot of the
    environment, with their defaults and the first invalid value reported;
  - `session`, `chat_history` and `chat` keep chat sessions, their bounded
    history and the assistant's prompts and streamed answers;
  - `incident`, `evidence`, `diagnosis_report` and `report_idempotence` run
    diagnoses, record tool evidence and constrain reports to the evidence
    they cite;
  - `agent_runtime` and `ai_ops` describe the agents, their tools, the
    supervisor's hand-offs and the shared state;
  - `document_chunk`, `indexing`, `sparse` and `vector_search` split
    documents, build what is indexed and plan searches and reranking;
  - `logs`, `prometheus` and `metrics` are the tools' logic;
  - `rectifier` repairs Responses API payloads and event streams;
  - `json` and `text` hold the JSON values and the text operations the rest
    is written with.
- `tests/` — tests of the library.
- `app/` — the service: routes, Redis and file storage, the vector store
  over HTTP, and the agents run on `rig`.

## Verify and test

Verus verifies `src/`; `cargo test` runs `tests/`.
