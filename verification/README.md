# rustime

A small multi-threaded, work-stealing async runtime with a reactor built on
`mio` and task queues from `crossbeam-deque`, whose decision logic is a
library verified with Verus.

- `src/` is the verified library:
  - `io::scheduled_io`: the readiness of one I/O source and the tasks
    waiting on it, with the outcome of a non-blocking I/O attempt;
  - `io::reactor`: the table of registered sources keyed by token, and the
    routing of poller events to them;
  - `net`: the progress of writing a whole buffer, and the echo server's
    step after each read;
  - `rt::task`: the slot holding a task's future between polls, and the
    hand-off of a task's result to those awaiting it;
  - `rt::executor`: the order in which a worker searches the deques for work,
    scheduling onto the shared queue, and round-robin wake-ups.
- `app/` is the program around it: threads, the `mio` poller and sockets,
  futures and wakers, and an echo server on 127.0.0.1:8080. It hands the
  library plain values (tokens, readiness flags, I/O outcomes, waker keys)
  and carries out what the library decides.
- `tests/` runs the library on concrete values.
