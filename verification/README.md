# os_core

The decision-making core of a small kernel, verified with Verus.

- `src/syscall/sync.rs`: per-process mutexes, semaphores and condition
  variables, their slot tables, the need/alloc bookkeeping and the deadlock
  check made before a thread is allowed to wait. Each syscall answers a
  `SyncAction` that the kernel carries out (locking, raising, waiting,
  sleeping); the two syscalls that wait have a second half for after the wait.
- `src/task/manager.rs`: the ready queue of a FIFO scheduler.
- `src/task/mod.rs`: the round-robin list of applications, their states,
  start times and syscall counters.
- `app/lib.rs`: the kernel-side glue: clock, current thread, the blocking
  objects, context switches, the global ready queue.
- `tests/`: tests of the library on concrete values.
