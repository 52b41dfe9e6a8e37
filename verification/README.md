# ants

A thread pool that limits and recycles a mass of worker threads, with a
verified core.

## Layout

- `src/` is the verified library. It holds the logic of the
  pool: the two worker queues (a LIFO stack and a pre-allocated ring) and
  their expiry search, the pool's bookkeeping as a state machine (which
  worker serves a task, when a caller must wait or is refused, what a
  release, a reboot, a resize and a scavenger tick do), the loading of
  options, the multi-pool with its load-balancing strategies and its
  aggregated release errors, the signed duration type, the cancellation
  context, the waiter bookkeeping of the condition variable, and the
  log-line format of the default logger. Every step of the bookkeeping says
  in its contract what the runtime is to do next: start a worker, block,
  wake one waiter or all of them.
- `app/` is the thread runtime around it: it owns the worker, scavenger and
  clock threads, the spin lock and the blocking waits, performs the actions
  the bookkeeping asks for, and offers `Pool`, `PoolWithFunc`,
  `PoolWithFuncGeneric`, the multi-pools over them and the default pool.
- `tests/` exercises the library through its public interface.
