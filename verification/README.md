# qubit

A library of pipelines and loggers, verified with Verus.

- `src/op.rs`: the `Op` trait of pipeline steps, with what each step accepts and may give
  (`accepts`, `produces`), and the steps `MapFn`, `Then`, `Passthrough` and `Sequential`.
- `src/try_op.rs`: fallible steps (`TryOp`) and their combinators `MapOk`, `MapErr`,
  `AndThen`, `OrElse`, `TrySequential`, with `try_batch_call`; the laws of the combinators
  (fusion, identity, associativity) are proof functions there.
- `src/pipeline.rs`, `src/agent_ops.rs`, `src/completion.rs`, `src/vector_store.rs`: the
  pipeline builder, the prompt step, the agent trait and the pipeline errors.
- `src/agent.rs`: the settings that an agent builder gathers (`AgentSettings`: preamble,
  context documents numbered by place, tool names, token limit) and what a built agent gets.
- `src/logger/`: the common logger (level and category filtering, header patterns and the law
  of joined patterns), the time of day as `chrono` writes it, the console logger's colour
  tokens (the text it writes, one colour setting per closed token), and the stream logger.
- `app/`: what talks to the world: printing, `termcolor` output, log files, the error types
  with their messages, and the agent builder around `AgentSettings`.
