# agent-bridge

The decisions of an agent bridge, written in Verus and proved against their
contracts: runs and their limits, agents and their specifications, shared work
with leases and verdicts, routines, managed execution, messages between agents,
and work graphs with budgets, authorities and leases.

A bridge keeps records on disk, starts processes and talks to providers. None of
that is in the library. Each function of `src/` takes records as plain values,
says in its contract what they become and when it refuses, and hands back what is
to be written. `app/` reads, asks and writes.

## Layout

| directory | what is in it |
| --- | --- |
| `src/` | the verified library |
| `src/swarm/` | work graphs: declaration, state, admission, leases, authorities, grants, control, what is shown |
| `tests/` | tests that run the library, with its outside crates |
| `app/` | the store on disk, supervisors, processes and the working tree |

Within `src/`:

- text and identity: `text`, `digest`, `identity`, `json`, `error`, `validate`, `layout`
- runs: `bounds`, `run`, `activation`, `retention`, `idempotency`, `checkpoint`, `continuation`
- agents: `agent`, `roster`, `worker`, `permission`, `contract`
- work: `workload`, `ledger`, `assignment`, `review`, `gate`, `listing`, `order`
- routines and managed execution: `routine`, `managed`, `manager`, `message`, `supervisor`
- prompts and the working tree: `prompt`, `prompt_combine`, `project`, `glob`, `patch`, `skills`
- provider requests: `physical_send`

## Conventions

- An instant is an `i128`, in nanoseconds since the Unix epoch. A UUID is a `u128`.
- A function that changes a record takes it and returns it, or an error that says
  why it does not.
- What a caller must ask elsewhere (the time, the disk, a model catalogue, a
  policy of the host) is an argument.
- A public `proof fn` states what holds across several functions: that a lease has
  one winner, that a stored verdict never changes, that a restart leaves nothing
  open.
- Calls into `sha2`, `uuid`, `chrono` and `serde_json` stand behind small functions
  marked `external_body`, whose comments say what is taken on trust.
