# asyncband

Lossless single-producer broadcast channels in verified Rust, with the maintenance tasks and the
benchmarks of their workspace.

Every receiver that is subscribed when a message is published reads that message, once and in
publication order. The bounded channel retains at most its capacity and makes the producer wait for
the slowest receiver; the unbounded channel never makes it wait.

## Layout

- `src/broadcast/spmc` holds the channels. `log` keeps what was published and how far each receiver
  has read, `common` adds the tasks that are parked on a channel, `bounded` and `unbounded` are the
  channels and their handles, and `laws` states what holds across calls.
- `src/internal` holds the slot arena behind receivers and wakers, and text in decimal.
- `src/tasks` decides which commands the maintenance tasks run, and judges a planned release.
- `src/workloads` holds the steps that the benchmarks repeat, each of which leaves its channel as it
  found it.
- `app` is the program: the channels under a lock as handles for threads and tasks, the command line
  of the tasks, and the benchmarks.

The state of a channel is an ordinary value, so that the contracts of the library say exactly what
each call returns and changes. A handle acts on the channel that it is given. The program around the
library puts the channel under a lock, and does what a step hands back once the lock is released.
