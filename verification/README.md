# isahc_agent

The core of an HTTP client agent: one background thread that runs many curl
transfers at once, over a single multi handle.

`src/` is the verified library. It holds every decision of the agent and does
none of its input and output. The agent is a state machine that hands out one
`Action` at a time and goes on from the `Reply`; the same holds of spawning an
agent, of sending it a message, of waking it up and of blocking on a task.

- `model` says what the agent does, as a mathematical state machine, and
  `agent` is the code that is proved to do it.
- `laws` proves what holds of the agent as a whole, and `thread_laws` what holds
  of its thread as others see it.
- `requests`, `sockets` and `queue` keep the agent's data in the collections of
  the `slab` and `crossbeam-channel` crates. What is relied on of those crates is
  stated there, over the model in `slab_model`.
- `builder`, `spawn`, `handle`, `message`, `protocol`, `task` and `util` hold the
  rest.

`app/` is ordinary Rust around the library: the thread, curl, the poller and the
channels between threads.
