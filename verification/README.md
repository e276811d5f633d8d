# Hypha

Decentralized training of models, with the decisions of the scheduler and of the parameter server
written and proved in [Verus](https://github.com/verus-lang/verus).

* `src/` is the library. It decides and never waits: every function takes what happened and returns
  what to do, and its contract says exactly what that is.
  * `messages` – the messages of the protocols
  * `pool`, `pool_statistics`, `statistics` – pools of workers and the measuring of their members
  * `scheduling` – the batch scheduler, which answers the reports of executors
  * `worker`, `task`, `dispatch` – leases, dispatched tasks, and the jobs that are dispatched
  * `executor` – the parameter server
  * `gateway`, `network`, `retry`, `startup` – how a node joins the network
  * `scheduler_config`, `resources` – configuration
  * `ids`, `time`, `number`, `text`, `digest` – plain values
* `tests/` runs the library, with the outside crates linked.
* `app/` holds the programs: input and output, the network, and the arithmetic on tensors.

Public proof functions whose names begin with `law_` state what holds of several functions together.
Floating-point numbers pass through the library as bit patterns; it never computes with them.
