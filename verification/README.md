# simln

A simulator of payment activity on a lightning network, with its logic verified by Verus.

The simulator generates payments between nodes, either as they are described in a file or at random in proportion to the
capacity of the nodes, and records what becomes of them. The nodes are LND, CLN, Eclair and LDK server nodes that it
connects to, or nodes of a network that it simulates itself: channels with balances and HTLCs in flight, forwarding
policies, and interceptors that can delay or fail payments.

## Layout

- `src/` is the library. Everything in it is verified, except for the items marked `external_body`, which call other
  crates or the standard library and say what is taken for granted about them.
  - Values: `primitives`, `node`, `payment`, `text`, `keyed` (maps that remember the order in which keys were first
    inserted), `features`, `rng`.
  - The simulated network: `channel`, `route`, `routing`, `intercept`, `latency_interceptor`, `propagate`, `sim_node`,
    `network`. `propagate_laws` states what a payment does to the funds of the channels on its route.
  - The simulation: `simulation`, `generator`, `defined_activity`, `random_activity`, `executors`, `tasks`, `results`,
    `batched_writer`, `run`, `clock`.
  - Configuration: `cli`, `parsing`, `serializers`, `setup`.
  - Nodes of other implementations: `backend`, `lnd`, `cln`, `eclair`, `ldk`, `ldk_server`.
  - Test networks and scenarios: `simulated`, `containers`, `scenario`, `runner`, `asserts`, `retry`.
- `app/` is the program: argument handling, files, connections to nodes, the tasks that wait on them, and the random
  distributions, which need floating point numbers. Each task runs a loop around a state machine of the library: it
  performs the action that the library decides on, and hands back what happened.
- `tests/` runs the library on concrete values.

## Running

    sim-cli --data-dir . --sim-file sim.json --total-time 60

See `sim-cli --help` for the other options.
