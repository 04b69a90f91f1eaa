# borg_agent_runtime

The rules of a local multiplayer agent runtime, written in Rust and proved with
Verus: who receives a workspace message, when a retry is a duplicate, what a
watcher reports, and what ends a wait on child agents.

- `src/` is the library. Every function states in its contract what it returns
  or changes, over mathematical models of the tables and values involved. What
  holds of several operations together is stated in `pub proof fn law_*`, most of
  it in `src/laws.rs`. The calls into other crates, and what is relied on of
  each, stand in `src/outside.rs`.
- `app/` runs the library: PostgreSQL tables, processes, channels and timers.
- `tests/` exercises the library on concrete values.

The main modules of `src/`:

| module | what it holds |
| --- | --- |
| `workspace`, `session` | the values that are exchanged |
| `store`, `consistency` | the tables of a workspace journal and their invariant |
| `append`, `validate`, `audience`, `event` | admitting events and addressing them |
| `projection`, `relay`, `router` | session events, relayed and authored messages |
| `delivery`, `directory`, `presence`, `instances` | deliveries, rosters, leases, processes |
| `watch`, `watches`, `watcher`, `notify`, `agent_watch` | watchers on commands and on agents |
| `wait`, `report`, `wait_machine`, `parents` | waiting on child agents |
| `subagent`, `tools` | children and the tools that sessions are offered |
| `dogfood`, `fixtures` | a scripted agent and ready-made values |
| `model`, `keyed`, `text`, `time`, `outside` | sequences, maps, texts, instants and outside calls |
